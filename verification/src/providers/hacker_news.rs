//! Hacker News through its Firebase API: `maxitem`, the top stories, and
//! one request per item.

use vstd::prelude::*;

use crate::connector::{
    Capability, ConnectorDescriptor, ConnectorError, ConnectorKey, EffectRequest, NormalizedObservation,
    ObservationKind, SourceClass, TypedPullBatch,
};
use crate::http::{get_parts, HttpRequest};
use crate::providers::common::{be64, be64_bytes, digest, digest_parts, millis_sat, seconds_to_millis, spec_digest, ProviderError};
use crate::text::{append, decimal, push_decimal};

verus! {

/// How many top stories a pull looks at unless told otherwise.
pub const DEFAULT_RANK_LIMIT: usize = 30;

/// What the next pull starts from: the highest item id seen, the ranked
/// snapshot, and the ids that came back null and are asked for again.
#[derive(Debug, Clone, PartialEq, Eq)]
pub struct HnCursor {
    pub max_item: u64,
    pub ranked: Vec<u64>,
    pub pending_null: Vec<u64>,
}

/// The cursor as a value.
pub open spec fn cursor_view(c: Option<&HnCursor>) -> Option<(u64, Seq<u64>, Seq<u64>)> {
    match c {
        Some(c) => Some((c.max_item, c.ranked@, c.pending_null@)),
        None => None,
    }
}

#[derive(Debug, Clone, PartialEq, Eq)]
pub struct HnItem {
    pub id: u64,
    pub deleted: bool,
    pub dead: bool,
    pub item_type: Option<String>,
    pub by: Option<String>,
    pub time: Option<i64>,
    pub title: Option<String>,
    pub text: Option<String>,
    pub url: Option<String>,
    pub score: Option<i64>,
    pub descendants: Option<u64>,
    pub parent: Option<u64>,
}

#[derive(Debug, Clone, PartialEq, Eq)]
pub struct HnEvent {
    pub item: HnItem,
    pub kind: ObservationKind,
}

/// Hacker News takes no effects: no value of this type is ever made.
#[derive(Debug)]
pub struct HnEffect {
    unmade: (),
}

impl HnEffect {
    /// No effect request is for Hacker News.
    pub fn from_request(request: EffectRequest) -> (r: Result<HnEffect, ConnectorError>)
        ensures
            r matches Err(ConnectorError::EffectForAnotherProvider),
    {
        Err(ConnectorError::EffectForAnotherProvider)
    }
}

/// The descriptor: key `hacker-news`, a public feed that only reconciles.
pub fn descriptor() -> (d: ConnectorDescriptor)
    ensures
        crate::rollout::BuiltinConnector::HackerNews.row_descriptor(d),
{
    proof {
        reveal_strlit("hacker-news");
    }
    let capabilities: &'static [Capability] = &[Capability::Reconcile];
    assert(capabilities@ =~= seq![Capability::Reconcile]);
    ConnectorDescriptor {
        key: ConnectorKey::new("hacker-news"),
        label: "Hacker News",
        class: SourceClass::PublicFeed,
        capabilities,
    }
}

pub struct HackerNewsConnector<T> {
    http: T,
    rank_limit: usize,
}

impl<T> HackerNewsConnector<T> {
    pub closed spec fn spec_http(&self) -> T {
        self.http
    }

    /// How many top stories a pull looks at.
    pub closed spec fn spec_rank_limit(&self) -> usize {
        self.rank_limit
    }

    pub fn new(http: T) -> (r: Self)
        ensures
            r.spec_http() == http,
            r.spec_rank_limit() == DEFAULT_RANK_LIMIT,
    {
        HackerNewsConnector { http, rank_limit: DEFAULT_RANK_LIMIT }
    }

    /// The same connector looking at `rank_limit` top stories, at least one.
    pub fn with_rank_limit(self, rank_limit: usize) -> (r: Self)
        ensures
            r.spec_http() == self.spec_http(),
            r.spec_rank_limit() == if rank_limit == 0 { 1 } else { rank_limit },
    {
        let rank_limit = if rank_limit == 0 { 1 } else { rank_limit };
        HackerNewsConnector { http: self.http, rank_limit }
    }

    pub fn rank_limit(&self) -> (n: usize)
        ensures
            n == self.spec_rank_limit(),
    {
        self.rank_limit
    }

    /// The transport, for performing the requests of a pull.
    pub fn transport(&mut self) -> (t: &mut T)
        ensures
            *t == old(self).spec_http(),
            final(self).spec_http() == *final(t),
            final(self).spec_rank_limit() == old(self).spec_rank_limit(),
    {
        &mut self.http
    }

    pub fn into_inner(self) -> (t: T)
        ensures
            t == self.spec_http(),
    {
        self.http
    }
}

/// The request for the highest item id.
pub fn maxitem_request() -> (r: HttpRequest)
    ensures
        r.spec_parts() == get_parts("/v0/maxitem.json"@),
{
    HttpRequest::get("/v0/maxitem.json")
}

/// The request for the ranked top stories.
pub fn topstories_request() -> (r: HttpRequest)
    ensures
        r.spec_parts() == get_parts("/v0/topstories.json"@),
{
    HttpRequest::get("/v0/topstories.json")
}

pub open spec fn item_path(id: u64) -> Seq<char> {
    "/v0/item/"@ + decimal(id as nat) + ".json"@
}

/// The request for item `id`.
pub fn item_request(id: u64) -> (r: HttpRequest)
    ensures
        r.spec_parts() == get_parts(item_path(id)),
{
    let mut path = String::new();
    append(&mut path, "/v0/item/");
    push_decimal(&mut path, id);
    append(&mut path, ".json");
    assert(path@ =~= item_path(id));
    HttpRequest::get(path.as_str())
}

/// `true` when some candidate has id `id`.
pub open spec fn has_id(c: Seq<(u64, ObservationKind)>, id: u64) -> bool {
    exists|j: int| 0 <= j < c.len() && #[trigger] c[j].0 == id
}

/// `c` followed by each id of `ids` with `kind`, in order, leaving out the
/// ids in `skip` and those already present.
pub open spec fn add_new(c: Seq<(u64, ObservationKind)>, ids: Seq<u64>, skip: Seq<u64>, kind: ObservationKind) -> Seq<(u64, ObservationKind)>
    decreases ids.len(),
{
    if ids.len() == 0 {
        c
    } else {
        let p = add_new(c, ids.drop_last(), skip, kind);
        let id = ids.last();
        if skip.contains(id) || has_id(p, id) {
            p
        } else {
            p.push((id, kind))
        }
    }
}

/// The ids `lo..=hi`.
pub open spec fn id_range(lo: u64, hi: u64) -> Seq<u64> {
    Seq::new(if lo <= hi { (hi - lo + 1) as nat } else { 0 }, |i: int| (lo + i) as u64)
}

/// `n + 1`, saturating.
pub open spec fn succ_sat(n: u64) -> u64 {
    if n == u64::MAX { n } else { (n + 1) as u64 }
}

/// The items a pull asks for, in order, each with the kind it is observed
/// as: without a cursor, the ranked stories as new; with one, first the
/// ids that came back null, then stories newly ranked, as updates, then
/// every id above the previous maximum, as new; each id once.
pub open spec fn spec_candidates(cursor: Option<(u64, Seq<u64>, Seq<u64>)>, max_item: u64, ranked: Seq<u64>) -> Seq<(u64, ObservationKind)> {
    match cursor {
        None => add_new(Seq::empty(), ranked, Seq::empty(), ObservationKind::Created),
        Some((previous_max, previous_ranked, pending)) => {
            let retried = add_new(Seq::empty(), pending, Seq::empty(), ObservationKind::Updated);
            let reranked = add_new(retried, ranked, previous_ranked, ObservationKind::Updated);
            add_new(reranked, id_range(succ_sat(previous_max), max_item), Seq::empty(), ObservationKind::Created)
        },
    }
}

/// No two candidates share an item id.
pub open spec fn distinct_ids(c: Seq<(u64, ObservationKind)>) -> bool {
    forall|i: int, j: int| 0 <= i < j < c.len() ==> c[i].0 != c[j].0
}

proof fn lemma_add_new_distinct(c: Seq<(u64, ObservationKind)>, ids: Seq<u64>, skip: Seq<u64>, kind: ObservationKind)
    requires
        distinct_ids(c),
    ensures
        distinct_ids(add_new(c, ids, skip, kind)),
    decreases ids.len(),
{
    if ids.len() > 0 {
        lemma_add_new_distinct(c, ids.drop_last(), skip, kind);
        let p = add_new(c, ids.drop_last(), skip, kind);
        let id = ids.last();
        if !(skip.contains(id) || has_id(p, id)) {
            let q = p.push((id, kind));
            assert forall|i: int, j: int| 0 <= i < j < q.len() implies q[i].0 != q[j].0 by {
                if j == q.len() - 1 {
                    assert(q[i] == p[i]);
                    assert(!has_id(p, id));
                } else {
                    assert(q[i] == p[i] && q[j] == p[j]);
                }
            }
        }
    }
}

/// A pull asks for each item at most once, whatever the cursor.
pub proof fn lemma_candidates_distinct(cursor: Option<(u64, Seq<u64>, Seq<u64>)>, max_item: u64, ranked: Seq<u64>)
    ensures
        distinct_ids(spec_candidates(cursor, max_item, ranked)),
{
    let empty = Seq::<(u64, ObservationKind)>::empty();
    match cursor {
        None => {
            lemma_add_new_distinct(empty, ranked, Seq::empty(), ObservationKind::Created);
        },
        Some((previous_max, previous_ranked, pending)) => {
            lemma_add_new_distinct(empty, pending, Seq::empty(), ObservationKind::Updated);
            let retried = add_new(empty, pending, Seq::empty(), ObservationKind::Updated);
            lemma_add_new_distinct(retried, ranked, previous_ranked, ObservationKind::Updated);
            let reranked = add_new(retried, ranked, previous_ranked, ObservationKind::Updated);
            lemma_add_new_distinct(
                reranked,
                id_range(succ_sat(previous_max), max_item),
                Seq::empty(),
                ObservationKind::Created,
            );
        },
    }
}

fn contains_u64(s: &[u64], x: u64) -> (r: bool)
    ensures
        r == s@.contains(x),
{
    let mut i: usize = 0;
    while i < s.len()
        invariant
            i <= s@.len(),
            forall|j: int| 0 <= j < i ==> s@[j] != x,
        decreases s@.len() - i,
    {
        if s[i] == x {
            return true;
        }
        i = i + 1;
    }
    false
}

fn contains_id(c: &Vec<(u64, ObservationKind)>, id: u64) -> (r: bool)
    ensures
        r == has_id(c@, id),
{
    let mut i: usize = 0;
    while i < c.len()
        invariant
            i <= c@.len(),
            forall|j: int| 0 <= j < i ==> #[trigger] c@[j].0 != id,
        decreases c@.len() - i,
    {
        if c[i].0 == id {
            return true;
        }
        i = i + 1;
    }
    false
}

fn add_ids(c: &mut Vec<(u64, ObservationKind)>, ids: &[u64], skip: &[u64], kind: ObservationKind)
    ensures
        final(c)@ == add_new(old(c)@, ids@, skip@, kind),
{
    let mut i: usize = 0;
    while i < ids.len()
        invariant
            i <= ids@.len(),
            c@ == add_new(old(c)@, ids@.take(i as int), skip@, kind),
        decreases ids@.len() - i,
    {
        let id = ids[i];
        assert(ids@.take(i + 1).drop_last() =~= ids@.take(i as int));
        if !contains_u64(skip, id) && !contains_id(c, id) {
            c.push((id, kind));
        }
        i = i + 1;
    }
    assert(ids@.take(ids@.len() as int) =~= ids@);
}

fn add_range(c: &mut Vec<(u64, ObservationKind)>, lo: u64, hi: u64, kind: ObservationKind)
    requires
        lo >= 1,
    ensures
        final(c)@ == add_new(old(c)@, id_range(lo, hi), Seq::empty(), kind),
{
    if lo > hi {
        assert(id_range(lo, hi) =~= Seq::<u64>::empty());
        return;
    }
    let count: u64 = hi - lo + 1;
    let ghost ids = id_range(lo, hi);
    let mut k: u64 = 0;
    while k < count
        invariant
            lo >= 1,
            lo <= hi,
            count == hi - lo + 1,
            ids == id_range(lo, hi),
            k <= count,
            c@ == add_new(old(c)@, ids.take(k as int), Seq::empty(), kind),
        decreases count - k,
    {
        let id = lo + k;
        assert(ids.take(k + 1).drop_last() =~= ids.take(k as int));
        assert(ids.take(k + 1).last() == id);
        if !contains_id(c, id) {
            c.push((id, kind));
        }
        k = k + 1;
    }
    assert(ids.take(count as int) =~= ids);
}

/// The first `n` elements of `s`, or all of them.
fn take_prefix(s: &[u64], n: usize) -> (r: Vec<u64>)
    ensures
        r@ == s@.take(if n < s@.len() { n as int } else { s@.len() as int }),
{
    let end = if n < s.len() { n } else { s.len() };
    let mut r: Vec<u64> = Vec::new();
    let mut i: usize = 0;
    while i < end
        invariant
            end <= s@.len(),
            i <= end,
            r@ == s@.take(i as int),
        decreases end - i,
    {
        r.push(s[i]);
        assert(s@.take(i + 1) =~= s@.take(i as int).push(s@[i as int]));
        i = i + 1;
    }
    r
}

fn copy_ids(s: &Vec<u64>) -> (r: Vec<u64>)
    ensures
        r@ == s@,
{
    let r = take_prefix(s.as_slice(), s.len());
    assert(s@.take(s@.len() as int) =~= s@);
    r
}

/// A pull in progress, after `maxitem` and the top stories came back.
pub struct HnPull {
    max_item: u64,
    ranked: Vec<u64>,
    candidates: Vec<(u64, ObservationKind)>,
    fetched: usize,
    observations: Vec<HnEvent>,
    pending_null: Vec<u64>,
}

impl HnPull {
    pub closed spec fn spec_max_item(&self) -> u64 {
        self.max_item
    }

    pub closed spec fn spec_ranked(&self) -> Seq<u64> {
        self.ranked@
    }

    /// The items to ask for, in order.
    pub closed spec fn spec_candidates(&self) -> Seq<(u64, ObservationKind)> {
        self.candidates@
    }

    /// How many of the candidates were asked for.
    pub closed spec fn spec_fetched(&self) -> nat {
        self.fetched as nat
    }

    pub closed spec fn spec_observations(&self) -> Seq<HnEvent> {
        self.observations@
    }

    /// The ids that came back null, in order.
    pub closed spec fn spec_pending(&self) -> Seq<u64> {
        self.pending_null@
    }

    /// Begin a pull from `cursor`, given the highest item id and the top
    /// stories; only the first `rank_limit` stories count.
    pub fn start(cursor: Option<&HnCursor>, rank_limit: usize, max_item: u64, top: &[u64]) -> (r: Self)
        ensures
            r.spec_max_item() == max_item,
            r.spec_ranked() == top@.take(if rank_limit < top@.len() { rank_limit as int } else { top@.len() as int }),
            r.spec_candidates() == spec_candidates(cursor_view(cursor), max_item, r.spec_ranked()),
            r.spec_fetched() == 0,
            r.spec_observations().len() == 0,
            r.spec_pending().len() == 0,
    {
        let ranked = take_prefix(top, rank_limit);
        let mut candidates: Vec<(u64, ObservationKind)> = Vec::new();
        match cursor {
            None => {
                let none: [u64; 0] = [];
                assert(none@ =~= Seq::<u64>::empty());
                add_ids(&mut candidates, ranked.as_slice(), &none, ObservationKind::Created);
            },
            Some(c) => {
                let none: [u64; 0] = [];
                assert(none@ =~= Seq::<u64>::empty());
                add_ids(&mut candidates, c.pending_null.as_slice(), &none, ObservationKind::Updated);
                add_ids(&mut candidates, ranked.as_slice(), c.ranked.as_slice(), ObservationKind::Updated);
                let lo = if c.max_item == u64::MAX { c.max_item } else { c.max_item + 1 };
                add_range(&mut candidates, lo, max_item, ObservationKind::Created);
            },
        }
        HnPull { max_item, ranked, candidates, fetched: 0, observations: Vec::new(), pending_null: Vec::new() }
    }

    /// The next item request, or `None` once every candidate was asked for.
    pub fn next_request(&self) -> (r: Option<HttpRequest>)
        ensures
            self.spec_fetched() < self.spec_candidates().len() ==> (r matches Some(q)
                && q.spec_parts() == get_parts(item_path(self.spec_candidates()[self.spec_fetched() as int].0))),
            self.spec_fetched() >= self.spec_candidates().len() ==> r is None,
    {
        if self.fetched < self.candidates.len() {
            Some(item_request(self.candidates[self.fetched].0))
        } else {
            None
        }
    }

    /// Take the reply to the last item request: a null item is kept for the
    /// next pull; an item of another id is an error; a deleted or dead item
    /// is observed as deleted.
    pub fn receive(&mut self, item: Option<HnItem>) -> (r: Result<(), ProviderError>)
        requires
            old(self).spec_fetched() < old(self).spec_candidates().len(),
        ensures
            final(self).spec_max_item() == old(self).spec_max_item(),
            final(self).spec_ranked() == old(self).spec_ranked(),
            final(self).spec_candidates() == old(self).spec_candidates(),
            final(self).spec_fetched() == old(self).spec_fetched() + 1,
            ({
                let (id, kind) = old(self).spec_candidates()[old(self).spec_fetched() as int];
                match item {
                    None => r is Ok && final(self).spec_pending() == old(self).spec_pending().push(id)
                        && final(self).spec_observations() == old(self).spec_observations(),
                    Some(it) => if it.id != id {
                        r matches Err(ProviderError::Protocol { provider, reason })
                            && provider@ == "hacker-news"@
                            && reason@ == "requested item "@ + decimal(id as nat) + ", received "@ + decimal(it.id as nat)
                    } else {
                        &&& r is Ok
                        &&& final(self).spec_pending() == old(self).spec_pending()
                        &&& final(self).spec_observations() == old(self).spec_observations().push(HnEvent {
                            item: it,
                            kind: if it.deleted || it.dead { ObservationKind::Deleted } else { kind },
                        })
                    },
                }
            }),
    {
        let n = self.candidates.len();
        let (id, kind) = self.candidates[self.fetched];
        assert(self.fetched < n);
        self.fetched = self.fetched + 1;
        match item {
            None => {
                self.pending_null.push(id);
                Ok(())
            },
            Some(item) => {
                if item.id != id {
                    let mut reason = String::new();
                    append(&mut reason, "requested item ");
                    push_decimal(&mut reason, id);
                    append(&mut reason, ", received ");
                    push_decimal(&mut reason, item.id);
                    return Err(ProviderError::Protocol { provider: "hacker-news", reason });
                }
                let kind = if item.deleted || item.dead { ObservationKind::Deleted } else { kind };
                self.observations.push(HnEvent { item, kind });
                Ok(())
            },
        }
    }

    /// The batch and the next cursor.
    pub fn finish(self) -> (r: TypedPullBatch<HnCursor, HnEvent>)
        ensures
            r.observations@ == self.spec_observations(),
            r.next_cursor.max_item == self.spec_max_item(),
            r.next_cursor.ranked@ == self.spec_ranked(),
            r.next_cursor.pending_null@ == self.spec_pending(),
    {
        TypedPullBatch {
            observations: self.observations,
            next_cursor: HnCursor { max_item: self.max_item, ranked: self.ranked, pending_null: self.pending_null },
        }
    }
}

pub open spec fn flag_byte(b: bool) -> u8 {
    if b { 1 } else { 0 }
}

pub open spec fn some_or_i64(o: Option<i64>) -> i64 {
    match o {
        Some(v) => v,
        None => 0,
    }
}

pub open spec fn some_or_u64(o: Option<u64>, d: u64) -> u64 {
    match o {
        Some(v) => v,
        None => d,
    }
}

/// The digests that name an event: the public account, the item, its
/// parent thread, and the item's visible state; `payload` is the item's
/// JSON document. A new item occurred at its time; others carry no time.
pub fn observation(event: &HnEvent, payload: &[u8]) -> (o: NormalizedObservation)
    ensures
        o.account.0@ == spec_digest("hn-account"@, seq![vstd::utf8::encode_utf8("public"@)]),
        o.object.0@ == spec_digest("hn-item"@, seq![be64(event.item.id as nat)]),
        o.thread.0@ == spec_digest("hn-thread"@, seq![be64(some_or_u64(event.item.parent, event.item.id) as nat)]),
        o.event.0@ == spec_digest("hn-event"@, seq![
            be64(event.item.id as nat),
            be64((some_or_i64(event.item.time) as u64) as nat),
            be64((some_or_i64(event.item.score) as u64) as nat),
            be64(some_or_u64(event.item.descendants, 0) as nat),
            seq![flag_byte(event.item.deleted), flag_byte(event.item.dead)],
        ]),
        o.payload.0@ == spec_digest("hn-payload"@, seq![payload@]),
        o.kind == event.kind,
        o.occurred_at == if event.kind == ObservationKind::Created { millis_sat(some_or_i64(event.item.time)) } else { 0 },
{
    let item = &event.item;
    let id = be64_bytes(item.id);
    let parent_id = match item.parent {
        Some(p) => p,
        None => item.id,
    };
    let parent = be64_bytes(parent_id);
    let t: i64 = match item.time {
        Some(t) => t,
        None => 0,
    };
    let s: i64 = match item.score {
        Some(s) => s,
        None => 0,
    };
    let d: u64 = match item.descendants {
        Some(d) => d,
        None => 0,
    };
    let time = be64_bytes(t as u64);
    let score = be64_bytes(s as u64);
    let descendants = be64_bytes(d);
    let status: [u8; 2] = [if item.deleted { 1 } else { 0 }, if item.dead { 1 } else { 0 }];
    let parts: [&[u8]; 5] = [&id, &time, &score, &descendants, &status];
    let event_key = digest_parts("hn-event", &parts);
    proof {
        assert(crate::providers::common::slices_view(parts@) =~= seq![
            be64(item.id as nat),
            be64((t as u64) as nat),
            be64((s as u64) as nat),
            be64(d as nat),
            seq![flag_byte(item.deleted), flag_byte(item.dead)],
        ]);
    }
    let occurred_at = if event.kind == ObservationKind::Created { seconds_to_millis(t) } else { 0 };
    NormalizedObservation {
        account: digest("hn-account", "public".as_bytes()),
        object: digest("hn-item", &id),
        thread: digest("hn-thread", &parent),
        event: event_key,
        payload: digest("hn-payload", payload),
        kind: event.kind,
        occurred_at,
    }
}

} // verus!
