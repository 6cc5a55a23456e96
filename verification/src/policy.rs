//! Routing policy as data plus a small evaluator.
//!
//! [`PolicyTable::parse`] establishes that rule identity, precedence, safety
//! constraints, and the total fallback are sound, so routing always returns a
//! decision.

use vstd::prelude::*;

use crate::connector::{EffectVerb, SourceClass};
use crate::text::same_text;

verus! {

#[derive(Debug, Clone, Copy, PartialEq, Eq, Hash, Structural)]
pub enum Lane {
    Interrupt,
    NextDigest,
    CompressedDigest,
    ArchiveOnly,
}

#[derive(Debug, Clone, Copy, PartialEq, Eq, Hash, Structural)]
pub enum Privacy {
    MetadataOnly,
    RedactedExcerpt,
    FullExcerpt,
}

#[derive(Debug, Clone, Copy, PartialEq, Eq, Hash, Structural)]
pub enum Signal {
    Story,
    DirectMessage,
    Mention,
    Security,
    Update,
}

#[derive(Debug, Clone, Copy, PartialEq, Eq, PartialOrd, Ord, Structural)]
pub enum Urgency {
    Low,
    Normal,
    High,
    Critical,
}

impl Urgency {
    /// The position of the level, from `Low` up.
    pub open spec fn spec_rank(self) -> int {
        match self {
            Urgency::Low => 0,
            Urgency::Normal => 1,
            Urgency::High => 2,
            Urgency::Critical => 3,
        }
    }

    pub fn rank(self) -> (r: u8)
        ensures
            r == self.spec_rank(),
    {
        match self {
            Urgency::Low => 0,
            Urgency::Normal => 1,
            Urgency::High => 2,
            Urgency::Critical => 3,
        }
    }
}

#[derive(Debug, Clone, Copy, PartialEq, Eq, Structural)]
pub enum SenderTrust {
    Untrusted,
    Trusted,
}

#[derive(Debug, Clone, Copy, PartialEq, Eq, Structural)]
pub enum InterruptionWindow {
    Open,
    Quiet,
}

#[derive(Debug, Clone, Copy, PartialEq, Eq, Structural)]
pub struct Candidate {
    pub class: SourceClass,
    pub signal: Signal,
    pub urgency: Urgency,
    pub trust: SenderTrust,
    pub window: InterruptionWindow,
}

#[derive(Debug, Clone, Copy, PartialEq, Eq, Structural)]
pub enum SourceSelector {
    Any,
    Class(SourceClass),
}

#[derive(Debug, Clone, Copy, PartialEq, Eq)]
pub enum SignalSelector {
    Any,
    OneOf(&'static [Signal]),
}

#[derive(Debug, Clone, Copy, PartialEq, Eq, Structural)]
pub enum TrustSelector {
    Any,
    TrustedOnly,
}

#[derive(Debug, Clone, Copy, PartialEq, Eq, Structural)]
pub enum WindowSelector {
    Any,
    OpenOnly,
}

#[derive(Debug, Clone, Copy, PartialEq, Eq)]
pub struct RouteRule {
    pub key: &'static str,
    pub source: SourceSelector,
    pub signals: SignalSelector,
    pub trust: TrustSelector,
    pub window: WindowSelector,
    pub minimum_urgency: Urgency,
    pub lane: Lane,
    pub privacy: Privacy,
    pub precedence: i16,
}

/// `true` when `signals` lists `signal`.
fn lists_signal(signals: &[Signal], signal: Signal) -> (r: bool)
    ensures
        r == signals@.contains(signal),
{
    let mut i: usize = 0;
    while i < signals.len()
        invariant
            i <= signals@.len(),
            forall|j: int| 0 <= j < i ==> signals@[j] != signal,
        decreases signals@.len() - i,
    {
        if signals[i] == signal {
            assert(signals@[i as int] == signal);
            return true;
        }
        i = i + 1;
    }
    false
}

impl RouteRule {
    /// Every selector of the rule admits the candidate.
    pub open spec fn spec_matches(self, candidate: Candidate) -> bool {
        &&& match self.source {
            SourceSelector::Any => true,
            SourceSelector::Class(class) => class == candidate.class,
        }
        &&& match self.signals {
            SignalSelector::Any => true,
            SignalSelector::OneOf(signals) => signals@.contains(candidate.signal),
        }
        &&& (self.trust == TrustSelector::TrustedOnly ==> candidate.trust == SenderTrust::Trusted)
        &&& (self.window == WindowSelector::OpenOnly ==> candidate.window
            == InterruptionWindow::Open)
        &&& candidate.urgency.spec_rank() >= self.minimum_urgency.spec_rank()
    }

    /// The rule admits every candidate.
    pub open spec fn spec_is_total_fallback(self) -> bool {
        &&& self.source == SourceSelector::Any
        &&& self.signals is Any
        &&& self.trust == TrustSelector::Any
        &&& self.window == WindowSelector::Any
        &&& self.minimum_urgency == Urgency::Low
    }

    fn matches(self, candidate: Candidate) -> (r: bool)
        ensures
            r == self.spec_matches(candidate),
    {
        let source = match self.source {
            SourceSelector::Any => true,
            SourceSelector::Class(class) => class == candidate.class,
        };
        let signal = match self.signals {
            SignalSelector::Any => true,
            SignalSelector::OneOf(signals) => lists_signal(signals, candidate.signal),
        };
        let trust = match self.trust {
            TrustSelector::Any => true,
            TrustSelector::TrustedOnly => candidate.trust == SenderTrust::Trusted,
        };
        let window = match self.window {
            WindowSelector::Any => true,
            WindowSelector::OpenOnly => candidate.window == InterruptionWindow::Open,
        };
        source && signal && trust && window && candidate.urgency.rank()
            >= self.minimum_urgency.rank()
    }

    fn is_total_fallback(self) -> (r: bool)
        ensures
            r == self.spec_is_total_fallback(),
    {
        self.source == SourceSelector::Any && match self.signals {
            SignalSelector::Any => true,
            SignalSelector::OneOf(_) => false,
        } && self.trust == TrustSelector::Any && self.window == WindowSelector::Any
            && self.minimum_urgency == Urgency::Low
    }
}

/// The signals a selector lists: `None` for any signal.
pub open spec fn signals_view(signals: SignalSelector) -> Option<Seq<Signal>> {
    match signals {
        SignalSelector::Any => None,
        SignalSelector::OneOf(s) => Some(s@),
    }
}

/// A route rule as plain values.
pub struct RouteRuleView {
    pub key: Seq<char>,
    pub source: SourceSelector,
    pub signals: Option<Seq<Signal>>,
    pub trust: TrustSelector,
    pub window: WindowSelector,
    pub minimum_urgency: Urgency,
    pub lane: Lane,
    pub privacy: Privacy,
    pub precedence: i16,
}

impl RouteRule {
    pub open spec fn view(self) -> RouteRuleView {
        RouteRuleView {
            key: self.key@,
            source: self.source,
            signals: signals_view(self.signals),
            trust: self.trust,
            window: self.window,
            minimum_urgency: self.minimum_urgency,
            lane: self.lane,
            privacy: self.privacy,
            precedence: self.precedence,
        }
    }
}

/// A total fallback admits every candidate.
pub proof fn lemma_fallback_matches(rule: RouteRule, candidate: Candidate)
    requires
        rule.spec_is_total_fallback(),
    ensures
        rule.spec_matches(candidate),
{
}

#[derive(Debug, Clone, Copy, PartialEq, Eq)]
pub struct EffectRule {
    pub key: &'static str,
    pub class: SourceClass,
    pub verb: EffectVerb,
    pub lanes: &'static [Lane],
}

/// An effect rule as plain values.
pub struct EffectRuleView {
    pub key: Seq<char>,
    pub class: SourceClass,
    pub verb: EffectVerb,
    pub lanes: Seq<Lane>,
}

impl EffectRule {
    pub open spec fn view(self) -> EffectRuleView {
        EffectRuleView { key: self.key@, class: self.class, verb: self.verb, lanes: self.lanes@ }
    }
}

#[derive(Debug, Clone, Copy, PartialEq, Eq)]
pub struct RouteDecision {
    pub rule: &'static str,
    pub lane: Lane,
    pub privacy: Privacy,
}

/// The decision that `rule` makes.
pub open spec fn decision_of(rule: RouteRule) -> RouteDecision {
    RouteDecision { rule: rule.key, lane: rule.lane, privacy: rule.privacy }
}

/// `i` is the first rule of `routes` that admits `candidate`.
pub open spec fn first_match(routes: Seq<RouteRule>, candidate: Candidate, i: int) -> bool {
    &&& 0 <= i < routes.len()
    &&& routes[i].spec_matches(candidate)
    &&& forall|j: int| 0 <= j < i ==> !(#[trigger] routes[j]).spec_matches(candidate)
}

/// Interrupt rules name a mail, workspace, or personal source and only fire
/// while the interruption window is open; full excerpts need a trusted sender
/// of a named source.
pub open spec fn rule_is_safe(rule: RouteRule) -> bool {
    &&& rule.lane == Lane::Interrupt ==> (rule.source matches SourceSelector::Class(class)
        && class != SourceClass::PublicFeed)
    &&& rule.lane == Lane::Interrupt ==> rule.window == WindowSelector::OpenOnly
    &&& rule.privacy == Privacy::FullExcerpt ==> (rule.trust == TrustSelector::TrustedOnly
        && rule.source != SourceSelector::Any)
}

/// Effect rules have lanes and never write back to a public feed.
pub open spec fn effect_is_safe(rule: EffectRule) -> bool {
    &&& rule.lanes@.len() > 0
    &&& rule.class != SourceClass::PublicFeed
}

/// The routes of a parsed table: nonempty, strictly ordered by precedence,
/// safe, distinctly keyed, and closed by a total fallback.
pub open spec fn routes_valid(routes: Seq<RouteRule>) -> bool {
    &&& routes.len() > 0
    &&& forall|i: int, j: int|
        0 <= i < j < routes.len() ==> (#[trigger] routes[i]).precedence
            < (#[trigger] routes[j]).precedence
    &&& forall|i: int, j: int|
        0 <= i < j < routes.len() ==> (#[trigger] routes[i]).key@ != (#[trigger] routes[j]).key@
    &&& forall|i: int| 0 <= i < routes.len() ==> rule_is_safe(#[trigger] routes[i])
    &&& forall|i: int| 0 <= i < routes.len() ==> (#[trigger] routes[i]).key@.len() > 0
    &&& routes.last().spec_is_total_fallback()
}

/// The effect rules of a parsed table.
pub open spec fn effects_valid(effects: Seq<EffectRule>) -> bool {
    &&& forall|i: int| 0 <= i < effects.len() ==> effect_is_safe(#[trigger] effects[i])
    &&& forall|i: int| 0 <= i < effects.len() ==> (#[trigger] effects[i]).key@.len() > 0
    &&& forall|i: int, j: int|
        0 <= i < j < effects.len() ==> (#[trigger] effects[i]).key@
            != (#[trigger] effects[j]).key@
}

/// The verbs of the rules for `class` that list `lane`, in rule order.
pub open spec fn effect_verbs(effects: Seq<EffectRule>, class: SourceClass, lane: Lane) -> Seq<
    EffectVerb,
>
    decreases effects.len(),
{
    if effects.len() == 0 {
        Seq::empty()
    } else {
        let rest = effect_verbs(effects.drop_last(), class, lane);
        let rule = effects.last();
        if rule.class == class && rule.lanes@.contains(lane) {
            rest.push(rule.verb)
        } else {
            rest
        }
    }
}


/// The error that rule `i` of `routes` raises, given the rules before it.
pub open spec fn route_rule_error(routes: Seq<RouteRule>, i: int) -> Option<PolicyError> {
    let rule = routes[i];
    if rule.key@.len() == 0 || exists|j: int|
        0 <= j < i && (#[trigger] routes[j]).key@ == rule.key@ {
        Some(PolicyError::DuplicateRule(rule.key))
    } else if exists|j: int| 0 <= j < i && (#[trigger] routes[j]).precedence == rule.precedence {
        Some(PolicyError::DuplicatePrecedence(rule.precedence))
    } else if rule.lane == Lane::Interrupt && !(rule.source matches SourceSelector::Class(class)
        && class != SourceClass::PublicFeed) {
        Some(PolicyError::UnsafeInterrupt(rule.key))
    } else if rule.lane == Lane::Interrupt && rule.window != WindowSelector::OpenOnly {
        Some(PolicyError::InterruptDuringQuietHours(rule.key))
    } else if rule.privacy == Privacy::FullExcerpt && (rule.trust != TrustSelector::TrustedOnly
        || rule.source == SourceSelector::Any) {
        Some(PolicyError::UnsafeFullExcerpt(rule.key))
    } else {
        None
    }
}

/// The first error among the first `n` route rules.
pub open spec fn first_route_error(routes: Seq<RouteRule>, n: int) -> Option<PolicyError>
    decreases n,
{
    if n <= 0 {
        None
    } else {
        match first_route_error(routes, n - 1) {
            Some(e) => Some(e),
            None => route_rule_error(routes, n - 1),
        }
    }
}

/// The number of total fallbacks among `routes`.
pub open spec fn fallback_count(routes: Seq<RouteRule>) -> nat
    decreases routes.len(),
{
    if routes.len() == 0 {
        0
    } else {
        fallback_count(routes.drop_last()) + if routes.last().spec_is_total_fallback() {
            1nat
        } else {
            0nat
        }
    }
}

/// Some rule outranks a total fallback in precedence.
pub open spec fn fallback_outranked(routes: Seq<RouteRule>) -> bool {
    exists|i: int, j: int|
        0 <= i < routes.len() && 0 <= j < routes.len() && (#[trigger] routes[i]).spec_is_total_fallback()
            && (#[trigger] routes[j]).precedence > routes[i].precedence
}

/// The error that effect rule `i` raises, given the rules before it.
pub open spec fn effect_rule_error(effects: Seq<EffectRule>, i: int) -> Option<PolicyError> {
    let rule = effects[i];
    if rule.key@.len() == 0 || exists|j: int|
        0 <= j < i && (#[trigger] effects[j]).key@ == rule.key@ {
        Some(PolicyError::DuplicateEffectRule(rule.key))
    } else if rule.lanes@.len() == 0 {
        Some(PolicyError::EffectWithoutLane(rule.key))
    } else if rule.class == SourceClass::PublicFeed {
        Some(PolicyError::EffectOnPublicFeed(rule.key))
    } else {
        None
    }
}

/// The first error among the first `n` effect rules.
pub open spec fn first_effect_error(effects: Seq<EffectRule>, n: int) -> Option<PolicyError>
    decreases n,
{
    if n <= 0 {
        None
    } else {
        match first_effect_error(effects, n - 1) {
            Some(e) => Some(e),
            None => effect_rule_error(effects, n - 1),
        }
    }
}

/// Why a policy is refused, checked in this order: no routes, each route rule
/// in turn, the number of total fallbacks, the fallback's rank, then each
/// effect rule in turn.
pub open spec fn parse_error(routes: Seq<RouteRule>, effects: Seq<EffectRule>) -> Option<
    PolicyError,
> {
    if routes.len() == 0 {
        Some(PolicyError::NoRoutes)
    } else if first_route_error(routes, routes.len() as int) is Some {
        first_route_error(routes, routes.len() as int)
    } else if fallback_count(routes) != 1 {
        Some(PolicyError::FallbackCount(fallback_count(routes) as usize))
    } else if fallback_outranked(routes) {
        Some(PolicyError::FallbackNotLast)
    } else {
        first_effect_error(effects, effects.len() as int)
    }
}

/// `out` holds exactly the rules of `routes`, in increasing precedence.
pub open spec fn precedence_order(routes: Seq<RouteRule>, out: Seq<RouteRule>) -> bool {
    &&& out.len() == routes.len()
    &&& forall|i: int, j: int|
        0 <= i < j < out.len() ==> (#[trigger] out[i]).precedence < (#[trigger] out[j]).precedence
    &&& forall|i: int| 0 <= i < out.len() ==> routes.contains(#[trigger] out[i])
    &&& forall|i: int| 0 <= i < routes.len() ==> out.contains(#[trigger] routes[i])
}

proof fn lemma_first_route_error_stable(routes: Seq<RouteRule>, a: int, b: int)
    requires
        a <= b,
        first_route_error(routes, a) is Some,
    ensures
        first_route_error(routes, b) == first_route_error(routes, a),
    decreases b - a,
{
    if a < b {
        lemma_first_route_error_stable(routes, a, b - 1);
    }
}

proof fn lemma_first_route_error_none(routes: Seq<RouteRule>, n: int, i: int)
    requires
        first_route_error(routes, n) is None,
        0 <= i < n,
    ensures
        route_rule_error(routes, i) is None,
    decreases n,
{
    if i < n - 1 {
        lemma_first_route_error_none(routes, n - 1, i);
    }
}

proof fn lemma_first_effect_error_stable(effects: Seq<EffectRule>, a: int, b: int)
    requires
        a <= b,
        first_effect_error(effects, a) is Some,
    ensures
        first_effect_error(effects, b) == first_effect_error(effects, a),
    decreases b - a,
{
    if a < b {
        lemma_first_effect_error_stable(effects, a, b - 1);
    }
}

proof fn lemma_first_effect_error_none(effects: Seq<EffectRule>, n: int, i: int)
    requires
        first_effect_error(effects, n) is None,
        0 <= i < n,
    ensures
        effect_rule_error(effects, i) is None,
    decreases n,
{
    if i < n - 1 {
        lemma_first_effect_error_none(effects, n - 1, i);
    }
}

proof fn lemma_fallback_count_pos(routes: Seq<RouteRule>, a: int)
    requires
        0 <= a < routes.len(),
        routes[a].spec_is_total_fallback(),
    ensures
        fallback_count(routes) >= 1,
    decreases routes.len(),
{
    if a < routes.len() - 1 {
        lemma_fallback_count_pos(routes.drop_last(), a);
    }
}

proof fn lemma_fallback_count_two(routes: Seq<RouteRule>, a: int, b: int)
    requires
        0 <= a < b < routes.len(),
        routes[a].spec_is_total_fallback(),
        routes[b].spec_is_total_fallback(),
    ensures
        fallback_count(routes) >= 2,
    decreases routes.len(),
{
    if b == routes.len() - 1 {
        lemma_fallback_count_pos(routes.drop_last(), a);
    } else {
        lemma_fallback_count_two(routes.drop_last(), a, b);
    }
}

proof fn lemma_fallback_count_zero(routes: Seq<RouteRule>)
    requires
        forall|i: int| 0 <= i < routes.len() ==> !(#[trigger] routes[i]).spec_is_total_fallback(),
    ensures
        fallback_count(routes) == 0,
    decreases routes.len(),
{
    if routes.len() > 0 {
        assert forall|i: int| 0 <= i < routes.drop_last().len() implies !(
        #[trigger] routes.drop_last()[i]).spec_is_total_fallback() by {
            assert(routes.drop_last()[i] == routes[i]);
        }
        lemma_fallback_count_zero(routes.drop_last());
    }
}

proof fn lemma_fallback_count_bound(routes: Seq<RouteRule>)
    ensures
        fallback_count(routes) <= routes.len(),
    decreases routes.len(),
{
    if routes.len() > 0 {
        lemma_fallback_count_bound(routes.drop_last());
    }
}


/// `true` when some rule before `i` has `key`.
fn key_taken(routes: &Vec<RouteRule>, i: usize, key: &str) -> (r: bool)
    requires
        i <= routes@.len(),
    ensures
        r == exists|j: int| 0 <= j < i && (#[trigger] routes@[j]).key@ == key@,
{
    let mut j: usize = 0;
    while j < i
        invariant
            i <= routes@.len(),
            j <= i,
            forall|k: int| 0 <= k < j ==> (#[trigger] routes@[k]).key@ != key@,
        decreases i - j,
    {
        if same_text(routes[j].key, key) {
            return true;
        }
        j = j + 1;
    }
    false
}

/// `true` when some rule before `i` has precedence `p`.
fn precedence_taken(routes: &Vec<RouteRule>, i: usize, p: i16) -> (r: bool)
    requires
        i <= routes@.len(),
    ensures
        r == exists|j: int| 0 <= j < i && (#[trigger] routes@[j]).precedence == p,
{
    let mut j: usize = 0;
    while j < i
        invariant
            i <= routes@.len(),
            j <= i,
            forall|k: int| 0 <= k < j ==> (#[trigger] routes@[k]).precedence != p,
        decreases i - j,
    {
        if routes[j].precedence == p {
            return true;
        }
        j = j + 1;
    }
    false
}

fn route_rule_check(routes: &Vec<RouteRule>, i: usize) -> (r: Option<PolicyError>)
    requires
        i < routes@.len(),
    ensures
        r == route_rule_error(routes@, i as int),
{
    let rule = routes[i];
    if rule.key.is_empty() || key_taken(routes, i, rule.key) {
        return Some(PolicyError::DuplicateRule(rule.key));
    }
    if precedence_taken(routes, i, rule.precedence) {
        return Some(PolicyError::DuplicatePrecedence(rule.precedence));
    }
    if rule.lane == Lane::Interrupt {
        let named = match rule.source {
            SourceSelector::Class(class) => class != SourceClass::PublicFeed,
            SourceSelector::Any => false,
        };
        if !named {
            return Some(PolicyError::UnsafeInterrupt(rule.key));
        }
        if rule.window != WindowSelector::OpenOnly {
            return Some(PolicyError::InterruptDuringQuietHours(rule.key));
        }
    }
    if rule.privacy == Privacy::FullExcerpt && (rule.trust != TrustSelector::TrustedOnly
        || rule.source == SourceSelector::Any) {
        return Some(PolicyError::UnsafeFullExcerpt(rule.key));
    }
    None
}

fn route_rules_check(routes: &Vec<RouteRule>) -> (r: Option<PolicyError>)
    ensures
        r == first_route_error(routes@, routes@.len() as int),
{
    let n = routes.len();
    let mut i: usize = 0;
    while i < n
        invariant
            n == routes@.len(),
            i <= n,
            first_route_error(routes@, i as int) is None,
        decreases n - i,
    {
        let e = route_rule_check(routes, i);
        if e.is_some() {
            proof {
                lemma_first_route_error_stable(routes@, i + 1, n as int);
            }
            return e;
        }
        i = i + 1;
    }
    None
}

fn count_fallbacks(routes: &Vec<RouteRule>) -> (c: usize)
    ensures
        c == fallback_count(routes@),
{
    let n = routes.len();
    let mut c: usize = 0;
    let mut i: usize = 0;
    while i < n
        invariant
            n == routes@.len(),
            i <= n,
            c == fallback_count(routes@.take(i as int)),
            c <= i,
        decreases n - i,
    {
        proof {
            assert(routes@.take(i + 1).drop_last() =~= routes@.take(i as int));
        }
        if routes[i].is_total_fallback() {
            c = c + 1;
        }
        i = i + 1;
    }
    assert(routes@.take(n as int) =~= routes@);
    c
}

fn fallback_outranked_check(routes: &Vec<RouteRule>) -> (b: bool)
    requires
        fallback_count(routes@) == 1,
    ensures
        b == fallback_outranked(routes@),
{
    let n = routes.len();
    let mut f: usize = 0;
    while f < n && !routes[f].is_total_fallback()
        invariant
            n == routes@.len(),
            f <= n,
            forall|k: int| 0 <= k < f ==> !(#[trigger] routes@[k]).spec_is_total_fallback(),
        decreases n - f,
    {
        f = f + 1;
    }
    if f == n {
        proof {
            lemma_fallback_count_zero(routes@);
        }
        return false;
    }
    let p = routes[f].precedence;
    proof {
        assert forall|a: int| 0 <= a < n && (#[trigger] routes@[a]).spec_is_total_fallback()
            implies a == f by {
            if a < f {
            } else if a > f {
                lemma_fallback_count_two(routes@, f as int, a);
            }
        }
    }
    let mut j: usize = 0;
    while j < n
        invariant
            n == routes@.len(),
            f < n,
            p == routes@[f as int].precedence,
            routes@[f as int].spec_is_total_fallback(),
            forall|a: int| 0 <= a < n && (#[trigger] routes@[a]).spec_is_total_fallback() ==> a == f,
            j <= n,
            forall|k: int| 0 <= k < j ==> (#[trigger] routes@[k]).precedence <= p,
        decreases n - j,
    {
        if routes[j].precedence > p {
            proof {
                assert(routes@[j as int].precedence > routes@[f as int].precedence);
            }
            return true;
        }
        j = j + 1;
    }
    false
}

fn effect_rule_check(effects: &Vec<EffectRule>, i: usize) -> (r: Option<PolicyError>)
    requires
        i < effects@.len(),
    ensures
        r == effect_rule_error(effects@, i as int),
{
    let rule = effects[i];
    let mut taken = false;
    let mut j: usize = 0;
    while j < i
        invariant
            i < effects@.len(),
            j <= i,
            rule == effects@[i as int],
            taken == exists|k: int| 0 <= k < j && (#[trigger] effects@[k]).key@ == rule.key@,
        decreases i - j,
    {
        if same_text(effects[j].key, rule.key) {
            taken = true;
        }
        j = j + 1;
    }
    if rule.key.is_empty() || taken {
        return Some(PolicyError::DuplicateEffectRule(rule.key));
    }
    if rule.lanes.len() == 0 {
        return Some(PolicyError::EffectWithoutLane(rule.key));
    }
    if rule.class == SourceClass::PublicFeed {
        return Some(PolicyError::EffectOnPublicFeed(rule.key));
    }
    None
}

fn effect_rules_check(effects: &Vec<EffectRule>) -> (r: Option<PolicyError>)
    ensures
        r == first_effect_error(effects@, effects@.len() as int),
{
    let n = effects.len();
    let mut i: usize = 0;
    while i < n
        invariant
            n == effects@.len(),
            i <= n,
            first_effect_error(effects@, i as int) is None,
        decreases n - i,
    {
        let e = effect_rule_check(effects, i);
        if e.is_some() {
            proof {
                lemma_first_effect_error_stable(effects@, i + 1, n as int);
            }
            return e;
        }
        i = i + 1;
    }
    None
}

/// The rules of `routes` in increasing precedence.
fn sort_by_precedence(routes: &Vec<RouteRule>) -> (out: Vec<RouteRule>)
    requires
        forall|a: int, b: int|
            0 <= a < b < routes@.len() ==> (#[trigger] routes@[a]).precedence
                != (#[trigger] routes@[b]).precedence,
    ensures
        precedence_order(routes@, out@),
{
    let n = routes.len();
    let mut out: Vec<RouteRule> = Vec::new();
    let mut i: usize = 0;
    while i < n
        invariant
            n == routes@.len(),
            i <= n,
            out@.len() == i,
            forall|a: int, b: int|
                0 <= a < b < n ==> (#[trigger] routes@[a]).precedence
                    != (#[trigger] routes@[b]).precedence,
            forall|a: int, b: int|
                0 <= a < b < out@.len() ==> (#[trigger] out@[a]).precedence
                    < (#[trigger] out@[b]).precedence,
            forall|b: int|
                0 <= b < out@.len() ==> exists|a: int|
                    0 <= a < i && #[trigger] routes@[a] == #[trigger] out@[b],
            forall|a: int| 0 <= a < i ==> out@.contains(#[trigger] routes@[a]),
        decreases n - i,
    {
        let rule = routes[i];
        let p = rule.precedence;
        let mut k: usize = 0;
        while k < out.len() && out[k].precedence < p
            invariant
                k <= out@.len(),
                forall|b: int| 0 <= b < k ==> (#[trigger] out@[b]).precedence < p,
            decreases out@.len() - k,
        {
            k = k + 1;
        }
        proof {
            assert forall|b: int| k <= b < out@.len() implies (#[trigger] out@[b]).precedence
                > p by {
                if k < out@.len() {
                    let a = choose|a: int| 0 <= a < i && #[trigger] routes@[a] == out@[k as int];
                    assert(routes@[a].precedence != routes@[i as int].precedence);
                    if b > k {
                        assert(out@[k as int].precedence < out@[b].precedence);
                    }
                }
            }
        }
        let ghost before = out@;
        out.insert(k, rule);
        proof {
            assert(out@ == before.insert(k as int, rule));
            assert forall|a: int, b: int|
                0 <= a < b < out@.len() implies (#[trigger] out@[a]).precedence
                < (#[trigger] out@[b]).precedence by {
                if a < k {
                    if b < k {
                        assert(out@[a] == before[a] && out@[b] == before[b]);
                    } else if b == k {
                        assert(out@[a] == before[a]);
                    } else {
                        assert(out@[a] == before[a] && out@[b] == before[b - 1]);
                    }
                } else if a == k {
                    assert(out@[b] == before[b - 1]);
                } else {
                    assert(out@[a] == before[a - 1] && out@[b] == before[b - 1]);
                }
            }
            assert forall|b: int| 0 <= b < out@.len() implies exists|a: int|
                0 <= a < i + 1 && #[trigger] routes@[a] == #[trigger] out@[b] by {
                if b < k {
                    assert(out@[b] == before[b]);
                    let a = choose|a: int| 0 <= a < i && #[trigger] routes@[a] == before[b];
                    assert(routes@[a] == out@[b]);
                } else if b == k {
                    assert(routes@[i as int] == out@[b]);
                } else {
                    assert(out@[b] == before[b - 1]);
                    let a = choose|a: int| 0 <= a < i && #[trigger] routes@[a] == before[b - 1];
                    assert(routes@[a] == out@[b]);
                }
            }
            assert forall|a: int| 0 <= a < i + 1 implies out@.contains(#[trigger] routes@[a]) by {
                if a < i {
                    assert(before.contains(routes@[a]));
                    let b = choose|b: int| 0 <= b < before.len() && before[b] == routes@[a];
                    if b < k {
                        assert(out@[b] == before[b]);
                    } else {
                        assert(out@[b + 1] == before[b]);
                    }
                } else {
                    assert(out@[k as int] == routes@[a]);
                }
            }
        }
        i = i + 1;
    }
    proof {
        assert forall|b: int| 0 <= b < out@.len() implies routes@.contains(#[trigger] out@[b]) by {
            let a = choose|a: int| 0 <= a < n && #[trigger] routes@[a] == out@[b];
        }
    }
    out
}

/// A policy that passes every check, put in precedence order, is valid.
proof fn lemma_ordered_routes_valid(routes: Seq<RouteRule>, out: Seq<RouteRule>)
    requires
        routes.len() > 0,
        first_route_error(routes, routes.len() as int) is None,
        fallback_count(routes) == 1,
        !fallback_outranked(routes),
        precedence_order(routes, out),
    ensures
        routes_valid(out),
{
    assert forall|i: int| 0 <= i < routes.len() implies route_rule_error(routes, i) is None by {
        lemma_first_route_error_none(routes, routes.len() as int, i);
    }
    assert forall|i: int| 0 <= i < out.len() implies rule_is_safe(#[trigger] out[i]) && out[i].key@.len() > 0 by {
        assert(routes.contains(out[i]));
        let a = choose|a: int| 0 <= a < routes.len() && routes[a] == out[i];
        assert(route_rule_error(routes, a) is None);
    }
    assert forall|i: int, j: int|
        0 <= i < j < out.len() implies (#[trigger] out[i]).key@ != (#[trigger] out[j]).key@ by {
        assert(routes.contains(out[i]));
        assert(routes.contains(out[j]));
        let a = choose|a: int| 0 <= a < routes.len() && routes[a] == out[i];
        let b = choose|b: int| 0 <= b < routes.len() && routes[b] == out[j];
        assert(out[i].precedence < out[j].precedence);
        assert(a != b);
        if a < b {
            assert(route_rule_error(routes, b) is None);
            assert(routes[a].key@ != routes[b].key@);
        } else {
            assert(route_rule_error(routes, a) is None);
            assert(routes[b].key@ != routes[a].key@);
        }
    }
    lemma_fallback_count_exists(routes);
    let f = choose|f: int| 0 <= f < routes.len() && (#[trigger] routes[f]).spec_is_total_fallback();
    assert(out.contains(routes[f]));
    let k = choose|k: int| 0 <= k < out.len() && out[k] == routes[f];
    let last = out.len() - 1;
    if k < last {
        assert(out[k].precedence < out[last].precedence);
        assert(routes.contains(out[last]));
        let j = choose|j: int| 0 <= j < routes.len() && routes[j] == out[last];
        assert(routes[j].precedence > routes[f].precedence);
        assert(fallback_outranked(routes));
    }
    assert(out.last() == out[last]);
}

proof fn lemma_fallback_count_exists(routes: Seq<RouteRule>)
    requires
        fallback_count(routes) >= 1,
    ensures
        exists|f: int| 0 <= f < routes.len() && (#[trigger] routes[f]).spec_is_total_fallback(),
{
    if forall|f: int| 0 <= f < routes.len() ==> !(#[trigger] routes[f]).spec_is_total_fallback() {
        lemma_fallback_count_zero(routes);
    }
}

proof fn lemma_effects_valid(effects: Seq<EffectRule>)
    requires
        first_effect_error(effects, effects.len() as int) is None,
    ensures
        effects_valid(effects),
{
    assert forall|i: int| 0 <= i < effects.len() implies effect_rule_error(effects, i) is None by {
        lemma_first_effect_error_none(effects, effects.len() as int, i);
    }
    assert forall|i: int| 0 <= i < effects.len() implies effect_is_safe(#[trigger] effects[i])
        && effects[i].key@.len() > 0 by {
        assert(effect_rule_error(effects, i) is None);
    }
    assert forall|i: int, j: int|
        0 <= i < j < effects.len() implies (#[trigger] effects[i]).key@
        != (#[trigger] effects[j]).key@ by {
        assert(effect_rule_error(effects, j) is None);
    }
}

#[derive(Debug)]
pub struct PolicyTable {
    routes: Vec<RouteRule>,
    effects: Vec<EffectRule>,
}

impl PolicyTable {
    /// The route rules, in precedence order.
    pub closed spec fn routes(&self) -> Seq<RouteRule> {
        self.routes@
    }

    /// The effect rules, in the order they were given.
    pub closed spec fn effects(&self) -> Seq<EffectRule> {
        self.effects@
    }

    #[verifier::type_invariant]
    pub closed spec fn wf(&self) -> bool {
        routes_valid(self.routes@) && effects_valid(self.effects@)
    }

    /// Check a policy and put its route rules in precedence order.
    pub fn parse(routes: Vec<RouteRule>, effects: Vec<EffectRule>) -> (r: Result<
        Self,
        PolicyError,
    >)
        ensures
            parse_error(routes@, effects@) matches Some(e) ==> r == Err::<Self, PolicyError>(e),
            parse_error(routes@, effects@) is None ==> (r matches Ok(t) && precedence_order(
                routes@,
                t.routes(),
            ) && t.effects() == effects@ && t.wf()),
    {
        if routes.len() == 0 {
            return Err(PolicyError::NoRoutes);
        }
        match route_rules_check(&routes) {
            Some(e) => {
                return Err(e);
            },
            None => {},
        }
        let count = count_fallbacks(&routes);
        if count != 1 {
            return Err(PolicyError::FallbackCount(count));
        }
        if fallback_outranked_check(&routes) {
            return Err(PolicyError::FallbackNotLast);
        }
        match effect_rules_check(&effects) {
            Some(e) => {
                return Err(e);
            },
            None => {},
        }
        proof {
            assert forall|a: int, b: int|
                0 <= a < b < routes@.len() implies (#[trigger] routes@[a]).precedence
                != (#[trigger] routes@[b]).precedence by {
                lemma_first_route_error_none(routes@, routes@.len() as int, b);
            }
        }
        let sorted = sort_by_precedence(&routes);
        proof {
            lemma_ordered_routes_valid(routes@, sorted@);
            lemma_effects_valid(effects@);
        }
        Ok(PolicyTable { routes: sorted, effects })
    }

    /// The decision for `candidate`: the first rule, in precedence order, that
    /// admits it.
    pub open spec fn spec_route(&self, candidate: Candidate) -> RouteDecision {
        decision_of(self.routes()[choose|i: int| first_match(self.routes(), candidate, i)])
    }

    pub fn route(&self, candidate: Candidate) -> (d: RouteDecision)
        ensures
            self.wf(),
            exists|i: int| first_match(self.routes(), candidate, i),
            d == self.spec_route(candidate),
    {
        proof {
            use_type_invariant(self);
        }
        let n = self.routes.len();
        let mut i: usize = 0;
        while i + 1 < n && !self.routes[i].matches(candidate)
            invariant
                n == self.routes@.len(),
                n > 0,
                i < n,
                forall|j: int| 0 <= j < i ==> !(#[trigger] self.routes@[j]).spec_matches(candidate),
            decreases n - i,
        {
            i = i + 1;
        }
        let rule = self.routes[i];
        proof {
            if !rule.spec_matches(candidate) {
                assert(i + 1 == n);
                lemma_fallback_matches(self.routes@.last(), candidate);
            }
            assert(first_match(self.routes(), candidate, i as int));
            let k = choose|k: int| first_match(self.routes(), candidate, k);
            if k < i {
                assert(!self.routes@[k].spec_matches(candidate));
            }
            if i < k {
                assert(!self.routes@[i as int].spec_matches(candidate));
            }
        }
        RouteDecision { rule: rule.key, lane: rule.lane, privacy: rule.privacy }
    }

    /// The upstream effects that a delivered decision for `candidate` releases.
    pub fn effects_for(&self, candidate: Candidate, decision: RouteDecision) -> (v: Vec<
        EffectVerb,
    >)
        ensures
            v@ == effect_verbs(self.effects(), candidate.class, decision.lane),
    {
        let mut v: Vec<EffectVerb> = Vec::new();
        let mut i: usize = 0;
        while i < self.effects.len()
            invariant
                i <= self.effects@.len(),
                v@ == effect_verbs(self.effects@.take(i as int), candidate.class, decision.lane),
            decreases self.effects@.len() - i,
        {
            let rule = self.effects[i];
            proof {
                assert(self.effects@.take(i + 1).drop_last() =~= self.effects@.take(i as int));
            }
            if rule.class == candidate.class && lists_lane(rule.lanes, decision.lane) {
                v.push(rule.verb);
            }
            i = i + 1;
        }
        assert(self.effects@.take(i as int) =~= self.effects@);
        v
    }
}

/// A copy of `v`.
fn copy_rules<T: Copy>(v: &Vec<T>) -> (r: Vec<T>)
    ensures
        r@ == v@,
{
    let mut r: Vec<T> = Vec::new();
    let mut i: usize = 0;
    while i < v.len()
        invariant
            i <= v@.len(),
            r@ == v@.take(i as int),
        decreases v@.len() - i,
    {
        r.push(v[i]);
        i = i + 1;
        assert(r@ =~= v@.take(i as int));
    }
    assert(v@.take(i as int) =~= v@);
    r
}

impl Clone for PolicyTable {
    fn clone(&self) -> (r: Self)
        ensures
            r.routes() == self.routes(),
            r.effects() == self.effects(),
    {
        proof {
            use_type_invariant(self);
        }
        PolicyTable { routes: copy_rules(&self.routes), effects: copy_rules(&self.effects) }
    }
}

/// `true` when `lanes` lists `lane`.
fn lists_lane(lanes: &[Lane], lane: Lane) -> (r: bool)
    ensures
        r == lanes@.contains(lane),
{
    let mut i: usize = 0;
    while i < lanes.len()
        invariant
            i <= lanes@.len(),
            forall|j: int| 0 <= j < i ==> lanes@[j] != lane,
        decreases lanes@.len() - i,
    {
        if lanes[i] == lane {
            assert(lanes@[i as int] == lane);
            return true;
        }
        i = i + 1;
    }
    false
}


proof fn lemma_first_match_from(routes: Seq<RouteRule>, candidate: Candidate, k: int)
    requires
        0 <= k < routes.len(),
        routes.last().spec_matches(candidate),
        forall|j: int| 0 <= j < k ==> !(#[trigger] routes[j]).spec_matches(candidate),
    ensures
        exists|i: int| first_match(routes, candidate, i),
    decreases routes.len() - k,
{
    if routes[k].spec_matches(candidate) {
        assert(first_match(routes, candidate, k));
    } else {
        lemma_first_match_from(routes, candidate, k + 1);
    }
}

/// The rule that decides `candidate` in a parsed table: it admits the
/// candidate, and no rule before it in precedence order does.
pub proof fn lemma_route_has_a_rule(table: PolicyTable, candidate: Candidate) -> (i: int)
    requires
        table.wf(),
    ensures
        first_match(table.routes(), candidate, i),
        table.spec_route(candidate) == decision_of(table.routes()[i]),
{
    lemma_fallback_matches(table.routes().last(), candidate);
    lemma_first_match_from(table.routes(), candidate, 0);
    choose|i: int| first_match(table.routes(), candidate, i)
}

/// Routing picks, among the rules that admit the candidate, the one of lowest
/// precedence; some rule always admits it.
pub proof fn lemma_route_is_lowest_precedence_match(table: PolicyTable, candidate: Candidate) -> (i: int)
    requires
        table.wf(),
    ensures
        0 <= i < table.routes().len(),
        table.routes()[i].spec_matches(candidate),
        table.spec_route(candidate) == decision_of(table.routes()[i]),
        forall|j: int|
            0 <= j < table.routes().len() && (#[trigger] table.routes()[j]).spec_matches(candidate)
                ==> table.routes()[i].precedence <= table.routes()[j].precedence,
{
    let i = lemma_route_has_a_rule(table, candidate);
    let routes = table.routes();
    assert(routes_valid(routes));
    assert forall|j: int|
        0 <= j < routes.len() && (#[trigger] routes[j]).spec_matches(candidate) implies routes[i].precedence
        <= routes[j].precedence by {
        if i < j {
            assert(routes[i].precedence < routes[j].precedence);
        }
    }
    i
}

/// The rule that decides a route admits the candidate on every coordinate:
/// its source class, one of its signals, a trusted sender where it asks for
/// one, an open window where it asks for one, and an urgency at least its
/// minimum.
pub proof fn lemma_route_rule_admits(table: PolicyTable, candidate: Candidate) -> (i: int)
    requires
        table.wf(),
    ensures
        0 <= i < table.routes().len(),
        table.spec_route(candidate) == decision_of(table.routes()[i]),
        candidate.urgency.spec_rank() >= table.routes()[i].minimum_urgency.spec_rank(),
        table.routes()[i].source matches SourceSelector::Class(k) ==> k == candidate.class,
        table.routes()[i].signals matches SignalSelector::OneOf(s) ==> s@.contains(candidate.signal),
        table.routes()[i].trust == TrustSelector::TrustedOnly ==> candidate.trust == SenderTrust::Trusted,
        table.routes()[i].window == WindowSelector::OpenOnly ==> candidate.window
            == InterruptionWindow::Open,
{
    lemma_route_has_a_rule(table, candidate)
}

/// Under the built-in policy only a critical candidate interrupts: both
/// interrupt rules ask for critical urgency.
pub proof fn lemma_builtin_interrupt_needs_critical(table: PolicyTable, candidate: Candidate)
    requires
        table.wf(),
        table.routes().map_values(|r: RouteRule| r@) == default_routes(),
        table.spec_route(candidate).lane == Lane::Interrupt,
    ensures
        candidate.urgency == Urgency::Critical,
{
    let i = lemma_route_rule_admits(table, candidate);
    let rs = table.routes();
    let views = rs.map_values(|r: RouteRule| r@);
    assert(views.len() == 7);
    assert(views[i] == rs[i]@);
    assert(rs[i].lane == Lane::Interrupt);
    assert(default_routes()[i].lane == Lane::Interrupt);
    assert(i == 0 || i == 1);
    assert(rs[i].minimum_urgency == Urgency::Critical);
}

/// A public feed never enters the interrupt lane, whatever its signal,
/// urgency, sender, or window.
pub proof fn lemma_public_feed_never_interrupts(table: PolicyTable, candidate: Candidate)
    requires
        table.wf(),
        candidate.class == SourceClass::PublicFeed,
    ensures
        table.spec_route(candidate).lane != Lane::Interrupt,
{
    let i = lemma_route_has_a_rule(table, candidate);
    assert(rule_is_safe(table.routes()[i]));
}

/// Only mail, workspace chat, and personal messaging can interrupt.
pub proof fn lemma_interrupt_needs_named_source(table: PolicyTable, candidate: Candidate)
    requires
        table.wf(),
        table.spec_route(candidate).lane == Lane::Interrupt,
    ensures
        candidate.class != SourceClass::PublicFeed,
{
    if candidate.class == SourceClass::PublicFeed {
        lemma_public_feed_never_interrupts(table, candidate);
    }
}

/// Quiet hours are a coordinate of the rules: nothing interrupts outside an
/// open interruption window.
pub proof fn lemma_interrupt_needs_open_window(table: PolicyTable, candidate: Candidate)
    requires
        table.wf(),
        table.spec_route(candidate).lane == Lane::Interrupt,
    ensures
        candidate.window == InterruptionWindow::Open,
{
    let i = lemma_route_has_a_rule(table, candidate);
    assert(rule_is_safe(table.routes()[i]));
}

/// A full excerpt is only ever shown for a trusted sender.
pub proof fn lemma_full_excerpt_needs_trust(table: PolicyTable, candidate: Candidate)
    requires
        table.wf(),
        table.spec_route(candidate).privacy == Privacy::FullExcerpt,
    ensures
        candidate.trust == SenderTrust::Trusted,
{
    let i = lemma_route_has_a_rule(table, candidate);
    assert(rule_is_safe(table.routes()[i]));
}

proof fn lemma_no_effects_for_class(effects: Seq<EffectRule>, class: SourceClass, lane: Lane)
    requires
        forall|i: int| 0 <= i < effects.len() ==> (#[trigger] effects[i]).class != class,
    ensures
        effect_verbs(effects, class, lane).len() == 0,
    decreases effects.len(),
{
    if effects.len() > 0 {
        assert forall|i: int| 0 <= i < effects.drop_last().len() implies (
        #[trigger] effects.drop_last()[i]).class != class by {
            assert(effects.drop_last()[i] == effects[i]);
        }
        lemma_no_effects_for_class(effects.drop_last(), class, lane);
    }
}

/// Delivering a public-feed notice never writes back upstream.
pub proof fn lemma_public_feed_has_no_effects(table: PolicyTable, lane: Lane)
    requires
        table.wf(),
    ensures
        effect_verbs(table.effects(), SourceClass::PublicFeed, lane).len() == 0,
{
    assert forall|i: int| 0 <= i < table.effects().len() implies (
    #[trigger] table.effects()[i]).class != SourceClass::PublicFeed by {
        assert(effect_is_safe(table.effects()[i]));
    }
    lemma_no_effects_for_class(table.effects(), SourceClass::PublicFeed, lane);
}


/// A route rule of the built-in policy.
pub open spec fn builtin_route(
    key: Seq<char>,
    source: SourceSelector,
    signals: Option<Seq<Signal>>,
    trust: TrustSelector,
    window: WindowSelector,
    minimum_urgency: Urgency,
    lane: Lane,
    privacy: Privacy,
    precedence: i16,
) -> RouteRuleView {
    RouteRuleView { key, source, signals, trust, window, minimum_urgency, lane, privacy, precedence }
}

/// The route rules of the built-in policy, in precedence order; the last,
/// `archive-rest`, is its only total fallback.
pub open spec fn default_routes() -> Seq<RouteRuleView> {
    let personal = SourceSelector::Class(SourceClass::PersonalMessaging);
    let mail = SourceSelector::Class(SourceClass::Mail);
    let direct = Some(seq![Signal::DirectMessage]);
    let direct_or_security = Some(seq![Signal::DirectMessage, Signal::Security]);
    seq![
        builtin_route("trusted-person-critical"@, personal, direct, TrustSelector::TrustedOnly,
            WindowSelector::OpenOnly, Urgency::Critical, Lane::Interrupt, Privacy::RedactedExcerpt, 10),
        builtin_route("trusted-mail-critical"@, mail, direct_or_security, TrustSelector::TrustedOnly,
            WindowSelector::OpenOnly, Urgency::Critical, Lane::Interrupt, Privacy::MetadataOnly, 20),
        builtin_route("workspace-attention"@, SourceSelector::Class(SourceClass::WorkspaceChat),
            Some(seq![Signal::Mention, Signal::DirectMessage]), TrustSelector::Any, WindowSelector::Any,
            Urgency::Normal, Lane::NextDigest, Privacy::MetadataOnly, 30),
        builtin_route("personal-message"@, personal, direct, TrustSelector::Any, WindowSelector::Any,
            Urgency::Normal, Lane::NextDigest, Privacy::MetadataOnly, 40),
        builtin_route("mail-attention"@, mail, direct_or_security, TrustSelector::Any,
            WindowSelector::Any, Urgency::Normal, Lane::NextDigest, Privacy::MetadataOnly, 50),
        builtin_route("public-feed"@, SourceSelector::Class(SourceClass::PublicFeed), None,
            TrustSelector::Any, WindowSelector::Any, Urgency::Low, Lane::CompressedDigest,
            Privacy::RedactedExcerpt, 60),
        builtin_route("archive-rest"@, SourceSelector::Any, None, TrustSelector::Any,
            WindowSelector::Any, Urgency::Low, Lane::ArchiveOnly, Privacy::MetadataOnly, 100),
    ]
}

/// The effect rules of the built-in policy: after paper delivery in the
/// interrupt or next-digest lane, mark mail read and send a read receipt for
/// a personal message.
pub open spec fn default_effects() -> Seq<EffectRuleView> {
    let lanes = seq![Lane::Interrupt, Lane::NextDigest];
    seq![
        EffectRuleView {
            key: "mail-read-after-paper"@,
            class: SourceClass::Mail,
            verb: EffectVerb::MarkRead,
            lanes,
        },
        EffectRuleView {
            key: "message-receipt-after-paper"@,
            class: SourceClass::PersonalMessaging,
            verb: EffectVerb::SendReadReceipt,
            lanes,
        },
    ]
}

/// The position of `x` in `routes`.
spec fn position_of(routes: Seq<RouteRule>, x: RouteRule) -> int {
    choose|a: int| 0 <= a < routes.len() && routes[a] == x
}

proof fn lemma_position_lower(routes: Seq<RouteRule>, out: Seq<RouteRule>, k: int)
    requires
        forall|i: int, j: int|
            0 <= i < j < routes.len() ==> (#[trigger] routes[i]).precedence
                < (#[trigger] routes[j]).precedence,
        precedence_order(routes, out),
        0 <= k < out.len(),
    ensures
        k <= position_of(routes, out[k]) < routes.len(),
        routes[position_of(routes, out[k])] == out[k],
    decreases k,
{
    assert(routes.contains(out[k]));
    if k > 0 {
        lemma_position_lower(routes, out, k - 1);
        assert(out[k - 1].precedence < out[k].precedence);
        let a = position_of(routes, out[k - 1]);
        let b = position_of(routes, out[k]);
        if b < a {
            assert(routes[b].precedence < routes[a].precedence);
        }
    }
}

proof fn lemma_position_upper(routes: Seq<RouteRule>, out: Seq<RouteRule>, k: int)
    requires
        forall|i: int, j: int|
            0 <= i < j < routes.len() ==> (#[trigger] routes[i]).precedence
                < (#[trigger] routes[j]).precedence,
        precedence_order(routes, out),
        0 <= k < out.len(),
    ensures
        position_of(routes, out[k]) <= k,
    decreases out.len() - k,
{
    lemma_position_lower(routes, out, k);
    if k + 1 < out.len() {
        lemma_position_upper(routes, out, k + 1);
        lemma_position_lower(routes, out, k + 1);
        assert(out[k].precedence < out[k + 1].precedence);
        let a = position_of(routes, out[k]);
        let b = position_of(routes, out[k + 1]);
        if b <= a {
            if b < a {
                assert(routes[b].precedence < routes[a].precedence);
            }
        }
    }
}

/// Rules already in increasing precedence stay where they are.
proof fn lemma_ordered_routes_kept(routes: Seq<RouteRule>, out: Seq<RouteRule>)
    requires
        forall|i: int, j: int|
            0 <= i < j < routes.len() ==> (#[trigger] routes[i]).precedence
                < (#[trigger] routes[j]).precedence,
        precedence_order(routes, out),
    ensures
        out == routes,
{
    assert forall|k: int| 0 <= k < out.len() implies out[k] == routes[k] by {
        lemma_position_lower(routes, out, k);
        lemma_position_upper(routes, out, k);
    }
    assert(out =~= routes);
}

/// The built-in routing policy.
pub fn default_policy() -> (t: PolicyTable)
    ensures
        t.wf(),
        t.routes().map_values(|r: RouteRule| r@) == default_routes(),
        t.effects().map_values(|e: EffectRule| e@) == default_effects(),
{
    let direct: &'static [Signal] = &[Signal::DirectMessage];
    let direct_or_security: &'static [Signal] = &[Signal::DirectMessage, Signal::Security];
    let mention_or_direct: &'static [Signal] = &[Signal::Mention, Signal::DirectMessage];
    let interrupt_lanes: &'static [Lane] = &[Lane::Interrupt, Lane::NextDigest];
    let mut routes: Vec<RouteRule> = Vec::new();
    routes.push(
        RouteRule {
            key: "trusted-person-critical",
            source: SourceSelector::Class(SourceClass::PersonalMessaging),
            signals: SignalSelector::OneOf(direct),
            trust: TrustSelector::TrustedOnly,
            window: WindowSelector::OpenOnly,
            minimum_urgency: Urgency::Critical,
            lane: Lane::Interrupt,
            privacy: Privacy::RedactedExcerpt,
            precedence: 10,
        },
    );
    routes.push(
        RouteRule {
            key: "trusted-mail-critical",
            source: SourceSelector::Class(SourceClass::Mail),
            signals: SignalSelector::OneOf(direct_or_security),
            trust: TrustSelector::TrustedOnly,
            window: WindowSelector::OpenOnly,
            minimum_urgency: Urgency::Critical,
            lane: Lane::Interrupt,
            privacy: Privacy::MetadataOnly,
            precedence: 20,
        },
    );
    routes.push(
        RouteRule {
            key: "workspace-attention",
            source: SourceSelector::Class(SourceClass::WorkspaceChat),
            signals: SignalSelector::OneOf(mention_or_direct),
            trust: TrustSelector::Any,
            window: WindowSelector::Any,
            minimum_urgency: Urgency::Normal,
            lane: Lane::NextDigest,
            privacy: Privacy::MetadataOnly,
            precedence: 30,
        },
    );
    routes.push(
        RouteRule {
            key: "personal-message",
            source: SourceSelector::Class(SourceClass::PersonalMessaging),
            signals: SignalSelector::OneOf(direct),
            trust: TrustSelector::Any,
            window: WindowSelector::Any,
            minimum_urgency: Urgency::Normal,
            lane: Lane::NextDigest,
            privacy: Privacy::MetadataOnly,
            precedence: 40,
        },
    );
    routes.push(
        RouteRule {
            key: "mail-attention",
            source: SourceSelector::Class(SourceClass::Mail),
            signals: SignalSelector::OneOf(direct_or_security),
            trust: TrustSelector::Any,
            window: WindowSelector::Any,
            minimum_urgency: Urgency::Normal,
            lane: Lane::NextDigest,
            privacy: Privacy::MetadataOnly,
            precedence: 50,
        },
    );
    routes.push(
        RouteRule {
            key: "public-feed",
            source: SourceSelector::Class(SourceClass::PublicFeed),
            signals: SignalSelector::Any,
            trust: TrustSelector::Any,
            window: WindowSelector::Any,
            minimum_urgency: Urgency::Low,
            lane: Lane::CompressedDigest,
            privacy: Privacy::RedactedExcerpt,
            precedence: 60,
        },
    );
    routes.push(
        RouteRule {
            key: "archive-rest",
            source: SourceSelector::Any,
            signals: SignalSelector::Any,
            trust: TrustSelector::Any,
            window: WindowSelector::Any,
            minimum_urgency: Urgency::Low,
            lane: Lane::ArchiveOnly,
            privacy: Privacy::MetadataOnly,
            precedence: 100,
        },
    );
    let mut effects: Vec<EffectRule> = Vec::new();
    effects.push(
        EffectRule {
            key: "mail-read-after-paper",
            class: SourceClass::Mail,
            verb: EffectVerb::MarkRead,
            lanes: interrupt_lanes,
        },
    );
    effects.push(
        EffectRule {
            key: "message-receipt-after-paper",
            class: SourceClass::PersonalMessaging,
            verb: EffectVerb::SendReadReceipt,
            lanes: interrupt_lanes,
        },
    );
    proof {
        reveal_strlit("trusted-person-critical");
        reveal_strlit("trusted-mail-critical");
        reveal_strlit("workspace-attention");
        reveal_strlit("personal-message");
        reveal_strlit("mail-attention");
        reveal_strlit("public-feed");
        reveal_strlit("archive-rest");
        reveal_strlit("mail-read-after-paper");
        reveal_strlit("message-receipt-after-paper");
        let r = routes@;
        assert(r.len() == 7);
        assert forall|i: int| 0 <= i < 7 implies route_rule_error(r, i) is None by {
            assert forall|j: int| 0 <= j < i implies (#[trigger] r[j]).key@.len() != r[i].key@.len()
                && r[j].precedence < r[i].precedence by {}
        }
        assert(first_route_error(r, 7) is None) by {
            reveal_with_fuel(first_route_error, 8);
        }
        assert(fallback_count(r) == 1) by {
            reveal_with_fuel(fallback_count, 8);
            assert(r.drop_last().drop_last().drop_last().drop_last().drop_last().drop_last().drop_last().len() == 0);
        }
        assert(!fallback_outranked(r));
        let e = effects@;
        assert(e[0].lanes@.len() == 2);
        assert(e[0].key@.len() != e[1].key@.len());
        assert(effect_rule_error(e, 0) is None);
        assert(effect_rule_error(e, 1) is None);
        assert(first_effect_error(e, 2) is None) by {
            reveal_with_fuel(first_effect_error, 3);
        }
        assert(direct@ =~= seq![Signal::DirectMessage]);
        assert(direct_or_security@ =~= seq![Signal::DirectMessage, Signal::Security]);
        assert(mention_or_direct@ =~= seq![Signal::Mention, Signal::DirectMessage]);
        assert(interrupt_lanes@ =~= seq![Lane::Interrupt, Lane::NextDigest]);
        assert(r.map_values(|r: RouteRule| r@) =~= default_routes());
        assert(e.map_values(|e: EffectRule| e@) =~= default_effects());
    }
    let ghost given = routes@;
    let t = PolicyTable::parse(routes, effects).unwrap();
    proof {
        lemma_ordered_routes_kept(given, t.routes());
    }
    t
}

#[derive(Debug, Clone, PartialEq, Eq)]
pub enum PolicyError {
    NoRoutes,
    DuplicateRule(&'static str),
    DuplicatePrecedence(i16),
    UnsafeInterrupt(&'static str),
    InterruptDuringQuietHours(&'static str),
    UnsafeFullExcerpt(&'static str),
    FallbackCount(usize),
    FallbackNotLast,
    DuplicateEffectRule(&'static str),
    EffectWithoutLane(&'static str),
    EffectOnPublicFeed(&'static str),
}

/// What `{:?}` writes for a string: the text quoted, with std's escapes.
pub uninterp spec fn debug_text(s: Seq<char>) -> Seq<char>;

/// `<str as Debug>::fmt` through `format!`; the result is named, not stated.
#[verifier::external_body]
fn debug_quoted(s: &str) -> (r: String)
    ensures
        r@ == debug_text(s@),
{
    format!("{s:?}")
}

/// The decimal form of a signed number.
pub open spec fn signed_decimal(v: i16) -> Seq<char> {
    if v < 0 {
        "-"@ + crate::text::decimal((-v) as nat)
    } else {
        crate::text::decimal(v as nat)
    }
}

/// What a policy error says.
pub open spec fn policy_message(e: PolicyError) -> Seq<char> {
    match e {
        PolicyError::NoRoutes => "policy has no routes"@,
        PolicyError::DuplicateRule(k) => "route rule "@ + debug_text(k@) + " is empty or duplicated"@,
        PolicyError::DuplicatePrecedence(v) => "route precedence "@ + signed_decimal(v) + " is duplicated"@,
        PolicyError::UnsafeInterrupt(k) => "route rule "@ + debug_text(k@) + " may interrupt for a public or unknown source"@,
        PolicyError::InterruptDuringQuietHours(k) => "route rule "@ + debug_text(k@) + " may interrupt during quiet hours"@,
        PolicyError::UnsafeFullExcerpt(k) => "route rule "@ + debug_text(k@) + " may expose an untrusted full excerpt"@,
        PolicyError::FallbackCount(n) => "policy must have exactly one total fallback, found "@ + crate::text::decimal(
            n as nat,
        ),
        PolicyError::FallbackNotLast => "the total fallback is not last"@,
        PolicyError::DuplicateEffectRule(k) => "effect rule "@ + debug_text(k@) + " is empty or duplicated"@,
        PolicyError::EffectWithoutLane(k) => "effect rule "@ + debug_text(k@) + " has no lanes"@,
        PolicyError::EffectOnPublicFeed(k) => "effect rule "@ + debug_text(k@) + " targets a public feed"@,
    }
}

fn keyed(s: &mut String, before: &str, key: &str, after: &str)
    ensures
        final(s)@ == old(s)@ + before@ + debug_text(key@) + after@,
{
    crate::text::append(s, before);
    let q = debug_quoted(key);
    crate::text::append(s, q.as_str());
    crate::text::append(s, after);
}

impl PolicyError {
    /// The error as a sentence.
    pub fn message(&self) -> (m: String)
        ensures
            m@ == policy_message(*self),
    {
        let mut s = String::new();
        match self {
            PolicyError::NoRoutes => crate::text::append(&mut s, "policy has no routes"),
            PolicyError::DuplicateRule(k) => keyed(&mut s, "route rule ", k, " is empty or duplicated"),
            PolicyError::DuplicatePrecedence(v) => {
                crate::text::append(&mut s, "route precedence ");
                if *v < 0 {
                    crate::text::append(&mut s, "-");
                    let magnitude: u64 = (-(*v as i32)) as u64;
                    crate::text::push_decimal(&mut s, magnitude);
                } else {
                    crate::text::push_decimal(&mut s, *v as u64);
                }
                crate::text::append(&mut s, " is duplicated");
            },
            PolicyError::UnsafeInterrupt(k) => keyed(&mut s, "route rule ", k, " may interrupt for a public or unknown source"),
            PolicyError::InterruptDuringQuietHours(k) => keyed(&mut s, "route rule ", k, " may interrupt during quiet hours"),
            PolicyError::UnsafeFullExcerpt(k) => keyed(&mut s, "route rule ", k, " may expose an untrusted full excerpt"),
            PolicyError::FallbackCount(n) => {
                crate::text::append(&mut s, "policy must have exactly one total fallback, found ");
                crate::text::push_decimal(&mut s, *n as u64);
            },
            PolicyError::FallbackNotLast => crate::text::append(&mut s, "the total fallback is not last"),
            PolicyError::DuplicateEffectRule(k) => keyed(&mut s, "effect rule ", k, " is empty or duplicated"),
            PolicyError::EffectWithoutLane(k) => keyed(&mut s, "effect rule ", k, " has no lanes"),
            PolicyError::EffectOnPublicFeed(k) => keyed(&mut s, "effect rule ", k, " targets a public feed"),
        }
        assert(s@ =~= policy_message(*self));
        s
    }
}

} // verus!
