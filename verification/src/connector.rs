//! Typed provider plugins with one erased boundary.
//!
//! A provider keeps its native cursor, event, effect, and error types in
//! [`TypedConnector`]. [`ErasedConnector`] is the only place those types are
//! converted into the normalized routing vocabulary consumed by
//! `Box<dyn Connector>`.

use vstd::prelude::*;

use crate::text::same_text;
use vstd::pervasive::arbitrary;

verus! {

#[derive(Debug, Clone, Copy, PartialEq, Eq, Hash, Structural)]
pub enum SourceClass {
    PublicFeed,
    Mail,
    WorkspaceChat,
    PersonalMessaging,
}

#[derive(Debug, Clone, Copy, PartialEq, Eq, Hash, Structural)]
pub enum ObservationKind {
    Created,
    Updated,
    Deleted,
    Mentioned,
    ReadStateChanged,
}

#[derive(Debug, Clone, Copy, PartialEq, Eq, Hash, Structural)]
pub enum EffectVerb {
    MarkRead,
    SendReadReceipt,
}

#[derive(Debug, Clone, Copy, PartialEq, Eq, Hash, Structural)]
pub enum Capability {
    Reconcile,
    Effect(EffectVerb),
}

/// A character allowed in a connector key: lowercase ASCII, a digit, or `-`.
pub open spec fn kebab_char(c: char) -> bool {
    ('a' <= c && c <= 'z') || ('0' <= c && c <= '9') || c == '-'
}

/// A nonempty lowercase kebab-case key.
pub open spec fn valid_connector_key(s: Seq<char>) -> bool {
    s.len() > 0 && forall|i: int| 0 <= i < s.len() ==> kebab_char(#[trigger] s[i])
}

/// The stable identity of a connector.
#[derive(Debug, Clone, Copy, PartialEq, Eq, Hash)]
pub struct ConnectorKey(&'static str);

impl ConnectorKey {
    pub closed spec fn view(self) -> Seq<char> {
        self.0@
    }

    /// A key from a lowercase kebab-case literal.
    pub fn new(key: &'static str) -> (r: Self)
        requires
            valid_connector_key(key@),
        ensures
            r@ == key@,
    {
        ConnectorKey(key)
    }

    pub fn as_str(self) -> (s: &'static str)
        ensures
            s@ == self@,
    {
        self.0
    }

    /// `true` when both keys spell the same text.
    pub fn same(self, other: Self) -> (r: bool)
        ensures
            r == (self@ == other@),
    {
        same_text(self.0, other.0)
    }
}

#[derive(Debug, Clone, Copy, PartialEq, Eq)]
pub struct ConnectorDescriptor {
    pub key: ConnectorKey,
    pub label: &'static str,
    pub class: SourceClass,
    pub capabilities: &'static [Capability],
}

impl ConnectorDescriptor {
    pub open spec fn spec_supports(self, verb: EffectVerb) -> bool {
        exists|i: int|
            0 <= i < self.capabilities@.len() && #[trigger] self.capabilities@[i]
                == Capability::Effect(verb)
    }

    /// `true` when the descriptor lists the effect `verb`.
    pub fn supports(self, verb: EffectVerb) -> (r: bool)
        ensures
            r == self.spec_supports(verb),
    {
        let caps = self.capabilities;
        let mut i: usize = 0;
        while i < caps.len()
            invariant
                caps@ == self.capabilities@,
                i <= caps@.len(),
                forall|j: int| 0 <= j < i ==> caps@[j] != Capability::Effect(verb),
            decreases caps@.len() - i,
        {
            if caps[i] == Capability::Effect(verb) {
                return true;
            }
            i = i + 1;
        }
        false
    }
}

/// An opaque, nonempty provider cursor.
#[derive(Debug, Clone, PartialEq, Eq)]
pub struct CursorToken(Vec<u8>);

impl CursorToken {
    pub closed spec fn view(&self) -> Seq<u8> {
        self.0@
    }

    pub fn parse(bytes: Vec<u8>) -> (r: Result<Self, ConnectorError>)
        ensures
            bytes@.len() == 0 ==> r == Err::<Self, ConnectorError>(ConnectorError::EmptyCursor),
            bytes@.len() > 0 ==> r is Ok && r->Ok_0@ == bytes@,
    {
        if bytes.len() == 0 {
            return Err(ConnectorError::EmptyCursor);
        }
        Ok(CursorToken(bytes))
    }

    pub fn as_bytes(&self) -> (b: &[u8])
        ensures
            b@ == self@,
    {
        self.0.as_slice()
    }
}

/// Conversion between a provider's native cursor and its token.
///
/// An impl that overrides `obeys_codec_spec` to `true` promises that
/// `encode` and `decode` are the spec functions below; an impl that does not
/// promises nothing.
pub trait CursorCodec: Sized {
    closed spec fn obeys_codec_spec() -> bool {
        false
    }

    /// The bytes of the token a cursor encodes to.
    closed spec fn spec_encode(&self) -> Seq<u8> {
        vstd::pervasive::arbitrary()
    }

    /// The cursor, or the reason there is none, that token bytes decode to.
    closed spec fn spec_decode(token: Seq<u8>) -> Result<Self, ConnectorError> {
        vstd::pervasive::arbitrary()
    }

    fn encode(&self) -> (t: CursorToken)
        ensures
            Self::obeys_codec_spec() ==> t@ == self.spec_encode(),
    ;

    fn decode(token: &CursorToken) -> (r: Result<Self, ConnectorError>)
        ensures
            Self::obeys_codec_spec() ==> r == Self::spec_decode(token@),
    ;
}

#[derive(Debug, Clone, Copy, PartialEq, Eq, Hash)]
pub struct ExternalKey(pub [u8; 32]);

/// Unicode general category Cc: the C0 controls, DEL and the C1 controls.
pub open spec fn control_char(c: char) -> bool {
    (c as u32) <= 0x1f || (0x7f <= (c as u32) && (c as u32) <= 0x9f)
}

/// `char::is_control`.
pub fn is_control(c: char) -> (r: bool)
    ensures
        r == control_char(c),
{
    let n = c as u32;
    n <= 0x1f || (0x7f <= n && n <= 0x9f)
}

/// `true` when some character of `s` is a control character.
pub fn has_control(s: &str) -> (r: bool)
    ensures
        r == exists|i: int| 0 <= i < s@.len() && control_char(#[trigger] s@[i]),
{
    let n = s.unicode_len();
    let mut i: usize = 0;
    while i < n
        invariant
            n == s@.len(),
            i <= n,
            forall|j: int| 0 <= j < i ==> !control_char(#[trigger] s@[j]),
        decreases n - i,
    {
        if is_control(s.get_char(i)) {
            return true;
        }
        i = i + 1;
    }
    false
}

/// A provider-side address for an object, free of control characters.
#[derive(Debug, Clone, PartialEq, Eq, Hash)]
pub struct ProviderLocator(String);

impl ProviderLocator {
    pub closed spec fn view(&self) -> Seq<char> {
        self.0@
    }

    pub open spec fn valid(s: Seq<char>) -> bool {
        s.len() > 0 && forall|i: int| 0 <= i < s.len() ==> !control_char(#[trigger] s[i])
    }

    pub fn parse(value: &str) -> (r: Result<Self, ConnectorError>)
        ensures
            Self::valid(value@) ==> r is Ok && r->Ok_0@ == value@,
            !Self::valid(value@) ==> r == Err::<Self, ConnectorError>(
                ConnectorError::InvalidProviderLocator,
            ),
    {
        if value.unicode_len() == 0 || has_control(value) {
            return Err(ConnectorError::InvalidProviderLocator);
        }
        Ok(ProviderLocator(value.to_owned()))
    }

    pub fn as_str(&self) -> (s: &str)
        ensures
            s@ == self@,
    {
        self.0.as_str()
    }
}

#[derive(Debug, Clone, PartialEq, Eq)]
pub struct NormalizedObservation {
    pub account: ExternalKey,
    pub object: ExternalKey,
    pub thread: ExternalKey,
    pub event: ExternalKey,
    pub payload: ExternalKey,
    pub kind: ObservationKind,
    pub occurred_at: i64,
}

#[derive(Debug, Clone, PartialEq, Eq)]
pub struct TypedPullBatch<C, E> {
    pub observations: Vec<E>,
    pub next_cursor: C,
}

#[derive(Debug, Clone, PartialEq, Eq)]
pub struct PullBatch {
    pub observations: Vec<NormalizedObservation>,
    pub next_cursor: CursorToken,
}

#[derive(Debug, Clone, PartialEq, Eq)]
pub struct EffectTarget {
    pub account: ExternalKey,
    pub object: ExternalKey,
    pub locator: ProviderLocator,
}

#[derive(Debug, Clone, PartialEq, Eq)]
pub struct EffectRequest {
    pub idempotency: ExternalKey,
    pub verb: EffectVerb,
    pub target: EffectTarget,
}

#[derive(Debug, Clone, Copy, PartialEq, Eq)]
pub enum EffectOutcome {
    Applied { receipt: ExternalKey },
    AlreadyApplied { receipt: ExternalKey },
}

/// A provider-specific connector. Its associated types keep a Gmail cursor or
/// effect from reaching a Slack implementation before the erased boundary.
///
/// `pull` and `apply` talk to the provider, so nothing is promised of what
/// they return. An impl that overrides `obeys_connector_spec` to `true`
/// promises that `descriptor`, `observe`, `effect` and `describe` are the
/// spec functions below; an impl that does not promises nothing.
pub trait TypedConnector {
    type Cursor: CursorCodec;
    type Event;
    type Effect;
    type Error;

    closed spec fn obeys_connector_spec() -> bool {
        false
    }

    closed spec fn spec_descriptor(&self) -> ConnectorDescriptor {
        vstd::pervasive::arbitrary()
    }

    closed spec fn spec_observe(event: Self::Event) -> NormalizedObservation {
        vstd::pervasive::arbitrary()
    }

    closed spec fn spec_effect(request: EffectRequest) -> Result<Self::Effect, ConnectorError> {
        vstd::pervasive::arbitrary()
    }

    closed spec fn spec_describe(error: Self::Error) -> Seq<char> {
        vstd::pervasive::arbitrary()
    }

    fn descriptor(&self) -> (d: ConnectorDescriptor)
        ensures
            Self::obeys_connector_spec() ==> d == self.spec_descriptor(),
    ;

    fn pull(&mut self, cursor: Option<&Self::Cursor>) -> Result<
        TypedPullBatch<Self::Cursor, Self::Event>,
        Self::Error,
    >;

    fn apply(&mut self, effect: &Self::Effect) -> Result<EffectOutcome, Self::Error>;

    /// The normalized form of a native event.
    fn observe(event: Self::Event) -> (o: NormalizedObservation)
        ensures
            Self::obeys_connector_spec() ==> o == Self::spec_observe(event),
    ;

    /// The native effect for a request, or the reason it is not this
    /// provider's.
    fn effect(request: EffectRequest) -> (r: Result<Self::Effect, ConnectorError>)
        ensures
            Self::obeys_connector_spec() ==> r == Self::spec_effect(request),
    ;

    /// A human-readable account of a native error.
    fn describe(error: &Self::Error) -> (m: String)
        ensures
            Self::obeys_connector_spec() ==> m@ == Self::spec_describe(*error),
    ;
}

/// `out` is the normalized form of `batch`: one observation per event, each
/// `observe` of its event, and the encoded next cursor.
pub open spec fn normalized<C: TypedConnector>(batch: TypedPullBatch<C::Cursor, C::Event>, out: PullBatch) -> bool {
    &&& out.observations@.len() == batch.observations@.len()
    &&& C::obeys_connector_spec() ==> forall|i: int|
        0 <= i < out.observations@.len() ==> #[trigger] out.observations@[i] == C::spec_observe(
            batch.observations@[i],
        )
    &&& C::Cursor::obeys_codec_spec() ==> out.next_cursor@ == batch.next_cursor.spec_encode()
}

/// What an erased pull gives for the provider's answer `pulled`: the
/// normalized batch, or the provider's error under `key`, described.
pub open spec fn pull_outcome<C: TypedConnector>(
    key: ConnectorKey,
    pulled: Result<TypedPullBatch<C::Cursor, C::Event>, C::Error>,
    r: Result<PullBatch, ConnectorError>,
) -> bool {
    match pulled {
        Ok(batch) => r matches Ok(out) && normalized::<C>(batch, out),
        Err(e) => r matches Err(ConnectorError::Provider { connector, message }) && connector == key && (
        C::obeys_connector_spec() ==> message@ == C::spec_describe(e)),
    }
}

/// The steps of an erased pull of `c` from `cursor`: a token that does not
/// decode is the error; otherwise the connector, named by its descriptor's
/// key, is pulled with the decoded cursor and its answer `pulled` is
/// normalized.
pub open spec fn pull_steps<C: TypedConnector>(
    c: C,
    cursor: Option<&CursorToken>,
    decoded: Result<C::Cursor, ConnectorError>,
    key: ConnectorKey,
    pulled: Result<TypedPullBatch<C::Cursor, C::Event>, C::Error>,
    r: Result<PullBatch, ConnectorError>,
) -> bool {
    &&& match cursor {
        Some(t) => C::Cursor::obeys_codec_spec() ==> decoded == C::Cursor::spec_decode(t@),
        None => true,
    }
    &&& if cursor is Some && decoded is Err {
        r == Err::<PullBatch, ConnectorError>(decoded->Err_0)
    } else {
        &&& C::obeys_connector_spec() ==> key == c.spec_descriptor().key
        &&& pull_outcome::<C>(key, pulled, r)
    }
}

/// The steps of an erased effect on `c`: a verb the descriptor `d` does not
/// list is refused; a request that is not this provider's is the error of
/// `effect`; otherwise the native effect is applied and its answer `applied`
/// is returned, an error described under the descriptor's key.
pub open spec fn apply_steps<C: TypedConnector>(
    c: C,
    request: EffectRequest,
    d: ConnectorDescriptor,
    effect: Result<C::Effect, ConnectorError>,
    applied: Result<EffectOutcome, C::Error>,
    r: Result<EffectOutcome, ConnectorError>,
) -> bool {
    &&& C::obeys_connector_spec() ==> d == c.spec_descriptor()
    &&& if !d.spec_supports(request.verb) {
        r == Err::<EffectOutcome, ConnectorError>(
            ConnectorError::UnsupportedEffect { connector: d.key, verb: request.verb },
        )
    } else {
        &&& C::obeys_connector_spec() ==> effect == C::spec_effect(request)
        &&& match effect {
            Err(e) => r == Err::<EffectOutcome, ConnectorError>(e),
            Ok(_) => match applied {
                Ok(o) => r == Ok::<EffectOutcome, ConnectorError>(o),
                Err(e) => r matches Err(ConnectorError::Provider { connector, message }) && connector == d.key && (
                C::obeys_connector_spec() ==> message@ == C::spec_describe(e)),
            },
        }
    }
}

/// The runtime-polymorphic plugin vocabulary.
///
/// An impl whose `obeys_descriptor_spec` is `true` promises that `descriptor`
/// returns `spec_descriptor`; one that leaves it `false` promises nothing.
pub trait Connector {
    closed spec fn obeys_descriptor_spec(&self) -> bool {
        false
    }

    closed spec fn spec_descriptor(&self) -> ConnectorDescriptor {
        vstd::pervasive::arbitrary()
    }

    fn descriptor(&self) -> (d: ConnectorDescriptor)
        ensures
            self.obeys_descriptor_spec() ==> d == self.spec_descriptor(),
    ;

    fn pull(&mut self, cursor: Option<&CursorToken>) -> Result<PullBatch, ConnectorError>;

    fn apply(&mut self, effect: EffectRequest) -> Result<EffectOutcome, ConnectorError>;
}

/// An effect enters a connector only when its descriptor lists the verb.
pub fn admit_effect(descriptor: ConnectorDescriptor, verb: EffectVerb) -> (r: Result<(), ConnectorError>)
    ensures
        descriptor.spec_supports(verb) ==> r is Ok,
        !descriptor.spec_supports(verb) ==> (r matches Err(
            ConnectorError::UnsupportedEffect { connector, verb: v },
        ) && connector == descriptor.key && v == verb),
{
    if descriptor.supports(verb) {
        Ok(())
    } else {
        Err(ConnectorError::UnsupportedEffect { connector: descriptor.key, verb })
    }
}

pub struct ErasedConnector<C>(C);

impl<C> ErasedConnector<C> {
    pub closed spec fn inner(&self) -> C {
        self.0
    }

    pub fn new(connector: C) -> (r: Self)
        ensures
            r.inner() == connector,
    {
        ErasedConnector(connector)
    }

    pub fn into_inner(self) -> (c: C)
        ensures
            c == self.inner(),
    {
        self.0
    }
}

spec fn decoded_as_result<T>(decoded: Option<T>) -> Result<T, ConnectorError> {
    match decoded {
        Some(c) => Ok(c),
        None => arbitrary(),
    }
}

impl<C: TypedConnector> ErasedConnector<C> {
    /// Decode the cursor, pull, and normalize the batch.
    pub fn pull_typed(&mut self, cursor: Option<&CursorToken>) -> (r: Result<
        PullBatch,
        ConnectorError,
    >)
        ensures
            exists|decoded, key, pulled| #[trigger] pull_steps::<C>(old(self).inner(), cursor, decoded, key, pulled, r),
    {
        let ghost c0 = self.0;
        let decoded = match cursor {
            Some(token) => match C::Cursor::decode(token) {
                Ok(c) => Some(c),
                Err(e) => {
                    let ghost d: Result<C::Cursor, ConnectorError> = Err(e);
                    let ghost k: ConnectorKey = arbitrary();
                    let ghost p: Result<TypedPullBatch<C::Cursor, C::Event>, C::Error> = arbitrary();
                    assert(pull_steps::<C>(c0, cursor, d, k, p, Err::<PullBatch, ConnectorError>(e)));
                    assert(c0 == old(self).inner());
                    return Err(e);
                },
            },
            None => None,
        };
        let ghost dec = decoded_as_result(decoded);
        let key = self.0.descriptor().key;
        let pulled = match &decoded {
            Some(c) => self.0.pull(Some(c)),
            None => self.0.pull(None),
        };
        let ghost pulled_g = pulled;
        let batch = match pulled {
            Ok(batch) => batch,
            Err(error) => {
                let r = Err(ConnectorError::Provider { connector: key, message: C::describe(&error) });
                assert(pull_steps::<C>(c0, cursor, dec, key, pulled_g, r));
                assert(c0 == old(self).inner());
                return r;
            },
        };
        let ghost batch_g = batch;
        let TypedPullBatch { observations, next_cursor } = batch;
        let ghost events = observations@;
        let mut queue = crate::providers::common::into_queue(observations);
        let mut normalized_events: Vec<NormalizedObservation> = Vec::new();
        let ghost mut taken: int = 0;
        while queue.len() > 0
            invariant
                0 <= taken <= events.len(),
                queue@ == events.skip(taken),
                normalized_events@.len() == taken,
                C::obeys_connector_spec() ==> forall|i: int|
                    0 <= i < taken ==> #[trigger] normalized_events@[i] == C::spec_observe(events[i]),
            decreases queue@.len(),
        {
            let event = queue.pop_front().unwrap();
            assert(event == events[taken]);
            assert(events.skip(taken + 1) =~= events.skip(taken).drop_first());
            normalized_events.push(C::observe(event));
            proof {
                taken = taken + 1;
            }
        }
        let r = Ok(PullBatch { observations: normalized_events, next_cursor: next_cursor.encode() });
        assert(pull_steps::<C>(c0, cursor, dec, key, pulled_g, r));
        assert(c0 == old(self).inner());
        r
    }

    /// Refuse an effect the descriptor does not list, convert, and apply.
    pub fn apply_typed(&mut self, request: EffectRequest) -> (r: Result<
        EffectOutcome,
        ConnectorError,
    >)
        ensures
            exists|d, effect, applied| #[trigger] apply_steps::<C>(old(self).inner(), request, d, effect, applied, r),
    {
        let ghost c0 = self.0;
        let ghost req = request;
        let ghost no_effect: Result<C::Effect, ConnectorError> = arbitrary();
        let ghost no_answer: Result<EffectOutcome, C::Error> = arbitrary();
        let descriptor = self.0.descriptor();
        match admit_effect(descriptor, request.verb) {
            Ok(()) => {},
            Err(e) => {
                assert(apply_steps::<C>(c0, req, descriptor, no_effect, no_answer, Err::<EffectOutcome, ConnectorError>(e)));
                assert(c0 == old(self).inner());
                return Err(e);
            },
        }
        let effect = C::effect(request);
        let ghost effect_g = effect;
        let effect = match effect {
            Ok(effect) => effect,
            Err(e) => {
                assert(apply_steps::<C>(c0, req, descriptor, effect_g, no_answer, Err::<EffectOutcome, ConnectorError>(e)));
                assert(c0 == old(self).inner());
                return Err(e);
            },
        };
        let applied = self.0.apply(&effect);
        let ghost applied_g = applied;
        let r = match applied {
            Ok(outcome) => Ok(outcome),
            Err(error) => Err(
                ConnectorError::Provider { connector: descriptor.key, message: C::describe(&error) },
            ),
        };
        assert(apply_steps::<C>(c0, req, descriptor, effect_g, applied_g, r));
        assert(c0 == old(self).inner());
        r
    }
}

impl<C: TypedConnector> Connector for ErasedConnector<C> {
    open spec fn obeys_descriptor_spec(&self) -> bool {
        C::obeys_connector_spec()
    }

    open spec fn spec_descriptor(&self) -> ConnectorDescriptor {
        self.inner().spec_descriptor()
    }

    fn descriptor(&self) -> (d: ConnectorDescriptor)
        ensures
            C::obeys_connector_spec() ==> d == self.inner().spec_descriptor(),
    {
        self.0.descriptor()
    }

    fn pull(&mut self, cursor: Option<&CursorToken>) -> (r: Result<PullBatch, ConnectorError>)
        ensures
            exists|decoded, key, pulled| #[trigger] pull_steps::<C>(old(self).inner(), cursor, decoded, key, pulled, r),
    {
        self.pull_typed(cursor)
    }

    fn apply(&mut self, effect: EffectRequest) -> (r: Result<EffectOutcome, ConnectorError>)
        ensures
            exists|d, e, applied| #[trigger] apply_steps::<C>(old(self).inner(), effect, d, e, applied, r),
    {
        self.apply_typed(effect)
    }
}


/// One registered connector with the key it reported when it was registered.
/// A connector held by a registry. It passes every call on to the
/// connector it holds.
pub struct RegisteredConnector {
    connector: Box<dyn Connector>,
}

impl Connector for RegisteredConnector {
    fn descriptor(&self) -> (d: ConnectorDescriptor) {
        self.connector.descriptor()
    }

    fn pull(&mut self, cursor: Option<&CursorToken>) -> (r: Result<PullBatch, ConnectorError>) {
        self.connector.pull(cursor)
    }

    fn apply(&mut self, effect: EffectRequest) -> (r: Result<EffectOutcome, ConnectorError>) {
        self.connector.apply(effect)
    }
}

/// A registry entry: the connector and the descriptor it reported when it
/// was registered.
struct Registered {
    descriptor: ConnectorDescriptor,
    slot: RegisteredConnector,
}

/// `Vec::push`, stated element by element.
fn push_registered(v: &mut Vec<Registered>, e: Registered)
    ensures
        final(v)@.len() == old(v)@.len() + 1,
        final(v)@[old(v)@.len() as int] == e,
        forall|j: int| 0 <= j < old(v)@.len() ==> #[trigger] final(v)@[j] == old(v)@[j],
{
    v.push(e);
}

/// The registered connectors, each under a distinct key.
pub struct ConnectorRegistry {
    connectors: Vec<Registered>,
}

impl ConnectorRegistry {
    /// The descriptors that the connectors reported when they were
    /// registered, in registration order.
    pub closed spec fn registered(&self) -> Seq<ConnectorDescriptor> {
        self.connectors@.map_values(|c: Registered| c.descriptor)
    }

    /// The connector registered `i`-th, under the key `keys()[i]`.
    pub closed spec fn connector_at(&self, i: int) -> RegisteredConnector {
        self.connectors@[i].slot
    }

    /// Positions below `n` hold the same connectors in both registries.
    pub open spec fn same_connectors(&self, other: &Self, n: int) -> bool {
        forall|j: int| 0 <= j < n ==> #[trigger] self.connector_at(j) == other.connector_at(j)
    }

    /// The keys of the registered connectors, in registration order.
    pub closed spec fn keys(&self) -> Seq<Seq<char>> {
        self.connectors@.map_values(|c: Registered| c.descriptor.key@)
    }

    pub fn new() -> (r: Self)
        ensures
            r.keys() == Seq::<Seq<char>>::empty(),
            r.registered() == Seq::<ConnectorDescriptor>::empty(),
    {
        let r = ConnectorRegistry { connectors: Vec::new() };
        assert(r.keys() =~= Seq::<Seq<char>>::empty());
        assert(r.registered() =~= Seq::<ConnectorDescriptor>::empty());
        r
    }

    /// Erase a typed connector and register it.
    pub fn register<C: TypedConnector + 'static>(&mut self, connector: C) -> (r: Result<
        (),
        ConnectorError,
    >)
        ensures
            r matches Err(ConnectorError::DuplicateConnector(k)) ==> old(self).keys().contains(k@)
                && final(self).keys() == old(self).keys(),
            r is Err ==> r matches Err(ConnectorError::DuplicateConnector(_)),
            r is Ok ==> final(self).keys().len() == old(self).keys().len() + 1
                && final(self).keys().drop_last() == old(self).keys() && !old(self).keys().contains(
                final(self).keys().last(),
            ),
            old(self).keys().no_duplicates() ==> final(self).keys().no_duplicates(),
            final(self).same_connectors(old(self), old(self).keys().len() as int),
    {
        let erased = ErasedConnector::new(connector);
        self.register_erased(Box::new(erased))
    }

    /// Register a connector unless its key is already taken.
    pub fn register_erased(&mut self, connector: Box<dyn Connector>) -> (r: Result<
        (),
        ConnectorError,
    >)
        ensures
            r matches Err(ConnectorError::DuplicateConnector(k)) ==> old(self).keys().contains(k@)
                && final(self).keys() == old(self).keys() && final(self).registered() == old(
                self,
            ).registered() && (connector.obeys_descriptor_spec() ==> k
                == connector.spec_descriptor().key),
            r is Err ==> r matches Err(ConnectorError::DuplicateConnector(_)),
            r is Ok ==> final(self).keys().len() == old(self).keys().len() + 1
                && final(self).keys().drop_last() == old(self).keys() && !old(self).keys().contains(
                final(self).keys().last(),
            ) && final(self).registered().drop_last() == old(self).registered()
                && final(self).registered().len() == old(self).registered().len() + 1
                && final(self).keys().last() == final(self).registered().last().key@ && (
            connector.obeys_descriptor_spec() ==> final(self).registered().last()
                == connector.spec_descriptor()),
            old(self).keys().no_duplicates() ==> final(self).keys().no_duplicates(),
            final(self).same_connectors(old(self), old(self).keys().len() as int),
    {
        let described = connector.descriptor();
        assert(connector.obeys_descriptor_spec() ==> described == connector.spec_descriptor());
        let key = described.key;
        let mut i: usize = 0;
        while i < self.connectors.len()
            invariant
                i <= self.connectors@.len(),
                self.connectors@ == old(self).connectors@,
                forall|j: int| 0 <= j < i ==> #[trigger] self.keys()[j] != key@,
                connector.obeys_descriptor_spec() ==> key == connector.spec_descriptor().key,
            decreases self.connectors@.len() - i,
        {
            if self.connectors[i].descriptor.key.same(key) {
                proof {
                    assert(self.keys()[i as int] == key@);
                    assert(connector.obeys_descriptor_spec() ==> key == connector.spec_descriptor().key);
                }
                return Err(ConnectorError::DuplicateConnector(key));
            }
            i = i + 1;
        }
        let ghost before = self.keys();
        let ghost before_conns = self.connectors@;
        let ghost before_registered = self.registered();
        let entry = Registered { descriptor: described, slot: RegisteredConnector { connector } };
        let ghost added = entry;
        push_registered(&mut self.connectors, entry);
        proof {
            assert forall|j: int| 0 <= j < self.registered().len() implies #[trigger] self.registered()[j]
                == before_registered.push(described)[j] by {
                if j < before_conns.len() {
                    assert(self.connectors@[j] == before_conns[j]);
                }
            }
            assert(self.registered() =~= before_registered.push(described));
            assert forall|j: int| 0 <= j < before_conns.len() implies #[trigger] self.connector_at(j)
                == old(self).connector_at(j) by {
                assert(self.connectors@[j] == before_conns[j]);
            }
            assert(self.registered().drop_last() =~= before_registered);
            assert forall|j: int| 0 <= j < self.keys().len() implies #[trigger] self.keys()[j]
                == before.push(key@)[j] by {
                if j < before.len() {
                    assert(self.connectors@[j] == before_conns[j]);
                }
            }
            assert(self.keys() =~= before.push(key@));
            assert(self.keys().drop_last() =~= before);
            if before.contains(key@) {
                let j = choose|j: int| 0 <= j < before.len() && before[j] == key@;
                assert(self.keys()[j] != key@);
            }
            if before.no_duplicates() {
                assert forall|a: int, b: int|
                    0 <= a < self.keys().len() && 0 <= b < self.keys().len() && a != b implies
                    self.keys()[a] != self.keys()[b] by {
                    if a == before.len() {
                        assert(before[b] == self.keys()[b]);
                    } else if b == before.len() {
                        assert(before[a] == self.keys()[a]);
                    }
                }
            }
        }
        Ok(())
    }

    /// The connector registered under `key`.
    pub fn connector_mut(&mut self, key: ConnectorKey) -> (r: Result<
        &mut RegisteredConnector,
        ConnectorError,
    >)
        ensures
            old(self).keys().contains(key@) <==> r is Ok,
            !old(self).keys().contains(key@) ==> r == Err::<&mut RegisteredConnector, ConnectorError>(
                ConnectorError::UnknownConnector(key),
            ),
            final(self).keys() == old(self).keys(),
            final(self).registered() == old(self).registered(),
            match r {
                Ok(c) => exists|i: int|
                    0 <= i < old(self).keys().len() && #[trigger] old(self).keys()[i] == key@
                        && (forall|j: int| 0 <= j < i ==> old(self).keys()[j] != key@)
                        && *c == old(self).connector_at(i) && *final(c) == final(self).connector_at(i)
                        && (forall|j: int|
                        0 <= j < old(self).keys().len() && j != i ==> #[trigger] final(self).connector_at(j)
                            == old(self).connector_at(j)),
                Err(_) => final(self).same_connectors(old(self), old(self).keys().len() as int),
            },
    {
        let mut i: usize = 0;
        while i < self.connectors.len()
            invariant
                i <= self.connectors@.len(),
                self.connectors@ == old(self).connectors@,
                forall|j: int| 0 <= j < i ==> #[trigger] self.keys()[j] != key@,
            decreases self.connectors@.len() - i,
        {
            if self.connectors[i].descriptor.key.same(key) {
                proof {
                    assert(old(self).keys()[i as int] == key@);
                    assert(self.keys() == old(self).keys());
                }
                return Ok(&mut self.connectors[i].slot);
            }
            i = i + 1;
        }
        proof {
            if old(self).keys().contains(key@) {
                let j = choose|j: int| 0 <= j < self.keys().len() && self.keys()[j] == key@;
                assert(self.keys()[j] != key@);
            }
        }
        Err(ConnectorError::UnknownConnector(key))
    }

    /// The descriptors that the connectors reported when they were
    /// registered, in registration order. The registry keeps each one from
    /// registration on; a connector's key is fixed when it is registered.
    pub fn descriptors(&self) -> (d: Vec<ConnectorDescriptor>)
        ensures
            d@ == self.registered(),
    {
        let mut d: Vec<ConnectorDescriptor> = Vec::new();
        let mut i: usize = 0;
        while i < self.connectors.len()
            invariant
                i <= self.connectors@.len(),
                d@ == self.registered().take(i as int),
            decreases self.connectors@.len() - i,
        {
            d.push(self.connectors[i].descriptor);
            i = i + 1;
            assert(d@ =~= self.registered().take(i as int));
        }
        assert(self.registered().take(i as int) =~= self.registered());
        d
    }
}

#[derive(Debug, Clone, PartialEq, Eq)]
pub enum ConnectorError {
    EmptyCursor,
    InvalidCursor(&'static str),
    DuplicateConnector(ConnectorKey),
    UnknownConnector(ConnectorKey),
    UnsupportedEffect { connector: ConnectorKey, verb: EffectVerb },
    EffectForAnotherProvider,
    InvalidProviderLocator,
    Provider { connector: ConnectorKey, message: String },
}

/// The name of an effect verb as written in messages.
pub open spec fn verb_name(v: EffectVerb) -> Seq<char> {
    match v {
        EffectVerb::MarkRead => "MarkRead"@,
        EffectVerb::SendReadReceipt => "SendReadReceipt"@,
    }
}

/// What a connector error says.
pub open spec fn connector_message(e: ConnectorError) -> Seq<char> {
    match e {
        ConnectorError::EmptyCursor => "cursor is empty"@,
        ConnectorError::InvalidCursor(reason) => "invalid cursor: "@ + reason@,
        ConnectorError::DuplicateConnector(key) => "connector "@ + key@ + " is already registered"@,
        ConnectorError::UnknownConnector(key) => "connector "@ + key@ + " is not registered"@,
        ConnectorError::UnsupportedEffect { connector, verb } => "connector "@ + connector@ + " does not support "@
            + verb_name(verb),
        ConnectorError::EffectForAnotherProvider => "effect belongs to another provider"@,
        ConnectorError::InvalidProviderLocator => "provider locator is empty or invalid"@,
        ConnectorError::Provider { connector, message } => "connector "@ + connector@ + ": "@ + message@,
    }
}

impl ConnectorError {
    /// The error as a sentence.
    pub fn message(&self) -> (m: String)
        ensures
            m@ == connector_message(*self),
    {
        let mut s = String::new();
        match self {
            ConnectorError::EmptyCursor => crate::text::append(&mut s, "cursor is empty"),
            ConnectorError::InvalidCursor(reason) => {
                crate::text::append(&mut s, "invalid cursor: ");
                crate::text::append(&mut s, reason);
            },
            ConnectorError::DuplicateConnector(key) => {
                crate::text::append(&mut s, "connector ");
                crate::text::append(&mut s, key.as_str());
                crate::text::append(&mut s, " is already registered");
            },
            ConnectorError::UnknownConnector(key) => {
                crate::text::append(&mut s, "connector ");
                crate::text::append(&mut s, key.as_str());
                crate::text::append(&mut s, " is not registered");
            },
            ConnectorError::UnsupportedEffect { connector, verb } => {
                crate::text::append(&mut s, "connector ");
                crate::text::append(&mut s, connector.as_str());
                crate::text::append(&mut s, " does not support ");
                match verb {
                    EffectVerb::MarkRead => crate::text::append(&mut s, "MarkRead"),
                    EffectVerb::SendReadReceipt => crate::text::append(&mut s, "SendReadReceipt"),
                }
            },
            ConnectorError::EffectForAnotherProvider => crate::text::append(&mut s, "effect belongs to another provider"),
            ConnectorError::InvalidProviderLocator => crate::text::append(&mut s, "provider locator is empty or invalid"),
            ConnectorError::Provider { connector, message } => {
                crate::text::append(&mut s, "connector ");
                crate::text::append(&mut s, connector.as_str());
                crate::text::append(&mut s, ": ");
                crate::text::append(&mut s, message.as_str());
            },
        }
        assert(s@ =~= connector_message(*self));
        s
    }
}

} // verus!
