//! The iMessage bridge protocol.
//!
//! The bridge is a separate service. This module is the contract it must
//! keep: monotonic event backfill, pushed events as hints, stable message
//! and conversation ids, explicit mutation variants, and idempotent read
//! receipts.

use vstd::prelude::*;

use std::collections::VecDeque;

use crate::connector::{
    Capability, ConnectorDescriptor, ConnectorError, ConnectorKey, EffectOutcome, EffectRequest, EffectVerb,
    ExternalKey, NormalizedObservation, ObservationKind, SourceClass, TypedPullBatch,
};
use crate::http::{get_parts, query_view, HttpMethod, HttpRequest};
use crate::providers::common::{
    digest, digest_parts, find_from, find_text, has_text, hex, hex_text, into_queue, millis_result, parse_millis,
    protocol_error, rfc3339_nanos, spec_digest, spec_millis, strip_prefix, strip_prefix_exec, ProviderError,
};
use crate::text::{append, decimal, same_text};

verus! {

/// The bridge protocol version this connector speaks.
pub const PROTOCOL_VERSION: u16 = 1;

/// Where the next pull resumes: the bridge's identity and the last event
/// sequence read.
#[derive(Debug, Clone, PartialEq, Eq)]
pub struct IMessageCursor {
    pub bridge_id: String,
    pub sequence: u64,
}

#[derive(Debug, Clone, PartialEq, Eq)]
pub struct BridgeInfo {
    pub bridge_id: String,
    pub protocol_version: u16,
    pub capabilities: BridgeCapabilities,
}

#[derive(Debug, Clone, Copy, PartialEq, Eq)]
pub struct BridgeCapabilities {
    pub event_backfill: bool,
    pub push_events: bool,
    pub read_receipts: bool,
    pub attachments: bool,
}

#[derive(Debug, Clone, PartialEq, Eq)]
pub struct BridgeEventPage {
    pub events: Vec<BridgeEvent>,
    pub next_sequence: u64,
    pub has_more: bool,
}

#[derive(Debug, Clone, PartialEq, Eq)]
pub struct BridgeEvent {
    pub sequence: u64,
    pub event_id: String,
    pub occurred_at: String,
    pub kind: BridgeEventKind,
}

#[derive(Debug, Clone, PartialEq, Eq)]
pub enum BridgeEventKind {
    MessageCreated { message: IMessage },
    MessageEdited { conversation_id: String, message_id: String, revision: u64, text: String },
    MessageUnsent { conversation_id: String, message_id: String },
    TapbackAdded { conversation_id: String, message_id: String, actor: String, reaction: Tapback },
    TapbackRemoved { conversation_id: String, message_id: String, actor: String, reaction: Tapback },
    AttachmentAvailable { conversation_id: String, message_id: String, attachment: Attachment },
    ReadReceiptObserved { conversation_id: String, reader: String, through_message_id: String },
}

#[derive(Debug, Clone, PartialEq, Eq)]
pub struct IMessage {
    pub id: String,
    pub conversation_id: String,
    pub sender: String,
    pub sent_at: String,
    pub text: String,
    pub attachments: Vec<Attachment>,
}

#[derive(Debug, Clone, PartialEq, Eq)]
pub struct Attachment {
    pub id: String,
    pub media_type: String,
    pub byte_count: u64,
    pub digest: String,
}

#[derive(Debug, Clone, Copy, PartialEq, Eq)]
pub enum Tapback {
    Love,
    Like,
    Dislike,
    Laugh,
    Emphasize,
    Question,
}

/// A bridge event with the bridge it came from and its time in
/// milliseconds.
#[derive(Debug, Clone, PartialEq, Eq)]
pub struct IMessageEvent {
    pub bridge_id: String,
    pub event: BridgeEvent,
    pub occurred_at: i64,
}

/// The conversation and message an event is about, and how it is observed:
/// a new message is created, an unsent one deleted, a read receipt a read
/// state change, anything else an update.
pub open spec fn spec_coordinates(kind: BridgeEventKind) -> (Seq<char>, Seq<char>, ObservationKind) {
    match kind {
        BridgeEventKind::MessageCreated { message } => (message.conversation_id@, message.id@, ObservationKind::Created),
        BridgeEventKind::MessageEdited { conversation_id, message_id, .. } => (conversation_id@, message_id@, ObservationKind::Updated),
        BridgeEventKind::TapbackAdded { conversation_id, message_id, .. } => (conversation_id@, message_id@, ObservationKind::Updated),
        BridgeEventKind::TapbackRemoved { conversation_id, message_id, .. } => (conversation_id@, message_id@, ObservationKind::Updated),
        BridgeEventKind::AttachmentAvailable { conversation_id, message_id, .. } => (conversation_id@, message_id@, ObservationKind::Updated),
        BridgeEventKind::MessageUnsent { conversation_id, message_id } => (conversation_id@, message_id@, ObservationKind::Deleted),
        BridgeEventKind::ReadReceiptObserved { conversation_id, through_message_id, .. } => (
            conversation_id@,
            through_message_id@,
            ObservationKind::ReadStateChanged,
        ),
    }
}

/// The conversation and message an event is about, and its kind.
pub fn event_coordinates(kind: &BridgeEventKind) -> (r: (&str, &str, ObservationKind))
    ensures
        (r.0@, r.1@, r.2) == spec_coordinates(*kind),
{
    match kind {
        BridgeEventKind::MessageCreated { message } => (
            message.conversation_id.as_str(),
            message.id.as_str(),
            ObservationKind::Created,
        ),
        BridgeEventKind::MessageEdited { conversation_id, message_id, .. } => (
            conversation_id.as_str(),
            message_id.as_str(),
            ObservationKind::Updated,
        ),
        BridgeEventKind::TapbackAdded { conversation_id, message_id, .. } => (
            conversation_id.as_str(),
            message_id.as_str(),
            ObservationKind::Updated,
        ),
        BridgeEventKind::TapbackRemoved { conversation_id, message_id, .. } => (
            conversation_id.as_str(),
            message_id.as_str(),
            ObservationKind::Updated,
        ),
        BridgeEventKind::AttachmentAvailable { conversation_id, message_id, .. } => (
            conversation_id.as_str(),
            message_id.as_str(),
            ObservationKind::Updated,
        ),
        BridgeEventKind::MessageUnsent { conversation_id, message_id } => (
            conversation_id.as_str(),
            message_id.as_str(),
            ObservationKind::Deleted,
        ),
        BridgeEventKind::ReadReceiptObserved { conversation_id, through_message_id, .. } => (
            conversation_id.as_str(),
            through_message_id.as_str(),
            ObservationKind::ReadStateChanged,
        ),
    }
}

/// The digests that name an event: the bridge; the message and the
/// conversation within it; the event id. `payload` is the JSON document of
/// the event's kind.
pub fn observation(value: &IMessageEvent, payload: &[u8]) -> (o: NormalizedObservation)
    ensures
        ({
            let (conversation, message, kind) = spec_coordinates(value.event.kind);
            let bridge = vstd::utf8::encode_utf8(value.bridge_id@);
            &&& o.account.0@ == spec_digest("imessage-bridge"@, seq![bridge])
            &&& o.object.0@ == spec_digest("imessage-message"@, seq![bridge, vstd::utf8::encode_utf8(message)])
            &&& o.thread.0@ == spec_digest("imessage-conversation"@, seq![bridge, vstd::utf8::encode_utf8(conversation)])
            &&& o.event.0@ == spec_digest("imessage-event"@, seq![vstd::utf8::encode_utf8(value.event.event_id@)])
            &&& o.payload.0@ == spec_digest("imessage-payload"@, seq![payload@])
            &&& o.kind == kind
            &&& o.occurred_at == value.occurred_at
        }),
{
    let (conversation, message, kind) = event_coordinates(&value.event.kind);
    let bridge = value.bridge_id.as_str().as_bytes();
    let message_bytes = message.as_bytes();
    let conversation_bytes = conversation.as_bytes();
    let object_parts: [&[u8]; 2] = [bridge, message_bytes];
    let thread_parts: [&[u8]; 2] = [bridge, conversation_bytes];
    proof {
        assert(crate::providers::common::slices_view(object_parts@) =~= seq![bridge@, message_bytes@]);
        assert(crate::providers::common::slices_view(thread_parts@) =~= seq![bridge@, conversation_bytes@]);
    }
    NormalizedObservation {
        account: digest("imessage-bridge", bridge),
        object: digest_parts("imessage-message", &object_parts),
        thread: digest_parts("imessage-conversation", &thread_parts),
        event: digest("imessage-event", value.event.event_id.as_str().as_bytes()),
        payload: digest("imessage-payload", payload),
        kind,
        occurred_at: value.occurred_at,
    }
}

/// A read receipt to send: the conversation, the message read through,
/// and the key that makes a repeat harmless.
#[derive(Debug, Clone, PartialEq, Eq)]
pub struct IMessageReadReceipt {
    pub conversation_id: String,
    pub through_message_id: String,
    pub idempotency: ExternalKey,
}

/// The target of a locator `imessage:conversation:<c>:message:<m>` with
/// both parts nonempty, split at the first `:message:`.
pub open spec fn receipt_target(locator: Seq<char>) -> Option<(Seq<char>, Seq<char>)> {
    match strip_prefix(locator, "imessage:conversation:"@) {
        None => None,
        Some(rest) => {
            let k = find_from(rest, ":message:"@, 0);
            if k < 0 {
                None
            } else if k == 0 || k + 9 >= rest.len() {
                None
            } else {
                Some((rest.take(k), rest.skip(k + 9)))
            }
        },
    }
}

impl IMessageReadReceipt {
    /// The read receipt a request asks for; a request of another verb or
    /// another provider's locator is refused.
    pub fn from_request(request: EffectRequest) -> (r: Result<Self, ConnectorError>)
        ensures
            request.verb != EffectVerb::SendReadReceipt ==> (r matches Err(ConnectorError::EffectForAnotherProvider)),
            request.verb == EffectVerb::SendReadReceipt ==> match receipt_target(request.target.locator@) {
                None => r matches Err(ConnectorError::EffectForAnotherProvider),
                Some((c, m)) => r matches Ok(e) && e.conversation_id@ == c && e.through_message_id@ == m
                    && e.idempotency == request.idempotency,
            },
    {
        if request.verb != EffectVerb::SendReadReceipt {
            return Err(ConnectorError::EffectForAnotherProvider);
        }
        proof {
            reveal_strlit(":message:");
        }
        let locator = request.target.locator.as_str();
        let rest = match strip_prefix_exec(locator, "imessage:conversation:") {
            Some(rest) => rest,
            None => {
                return Err(ConnectorError::EffectForAnotherProvider);
            },
        };
        let k = match find_text(rest, ":message:") {
            Some(k) => k,
            None => {
                return Err(ConnectorError::EffectForAnotherProvider);
            },
        };
        let n = rest.unicode_len();
        if k == 0 || k + 9 >= n {
            return Err(ConnectorError::EffectForAnotherProvider);
        }
        let conversation = rest.substring_char(0, k);
        let message = rest.substring_char(k + 9, n);
        assert(conversation@ =~= rest@.take(k as int));
        assert(message@ =~= rest@.skip(k + 9));
        Ok(IMessageReadReceipt {
            conversation_id: conversation.to_owned(),
            through_message_id: message.to_owned(),
            idempotency: request.idempotency,
        })
    }
}

/// The body of a read receipt request.
#[derive(Debug, Clone, PartialEq, Eq)]
pub struct ReadReceiptRequest {
    pub through_message_id: String,
    pub idempotency_key: String,
}

#[derive(Debug, Clone, Copy, PartialEq, Eq)]
pub enum ReceiptStatus {
    Applied,
    AlreadyApplied,
}

#[derive(Debug, Clone, PartialEq, Eq)]
pub struct ReadReceiptResponse {
    pub receipt_id: String,
    pub status: ReceiptStatus,
    pub applied_at: String,
}

/// What to send for a receipt: the message read through and the
/// idempotency key in lowercase hexadecimal.
pub fn receipt_body(effect: &IMessageReadReceipt) -> (b: ReadReceiptRequest)
    ensures
        b.through_message_id@ == effect.through_message_id@,
        b.idempotency_key@ == hex_text(effect.idempotency.0@),
{
    ReadReceiptRequest {
        through_message_id: effect.through_message_id.clone(),
        idempotency_key: hex(&effect.idempotency.0),
    }
}

pub open spec fn receipt_path(conversation: Seq<char>) -> Seq<char> {
    "/bridge/v1/conversations/"@ + conversation + "/read-receipts"@
}

/// The read receipt request, with `body` the JSON document of
/// [`receipt_body`].
pub fn receipt_request(effect: &IMessageReadReceipt, body: Vec<u8>) -> (r: HttpRequest)
    ensures
        r.spec_parts() == (HttpMethod::Post, receipt_path(effect.conversation_id@), Seq::<(Seq<char>, Seq<char>)>::empty(), Some(body@)),
{
    let mut path = String::new();
    append(&mut path, "/bridge/v1/conversations/");
    append(&mut path, effect.conversation_id.as_str());
    append(&mut path, "/read-receipts");
    assert(path@ =~= receipt_path(effect.conversation_id@));
    HttpRequest::post_json(path.as_str(), body)
}

/// The outcome the bridge reports, with a receipt named by its receipt id.
pub fn receipt_outcome(response: &ReadReceiptResponse) -> (o: EffectOutcome)
    ensures
        ({
            let receipt = spec_digest("imessage-receipt"@, seq![vstd::utf8::encode_utf8(response.receipt_id@)]);
            match response.status {
                ReceiptStatus::Applied => o matches EffectOutcome::Applied { receipt: k } && k.0@ == receipt,
                ReceiptStatus::AlreadyApplied => o matches EffectOutcome::AlreadyApplied { receipt: k } && k.0@ == receipt,
            }
        }),
{
    let receipt = digest("imessage-receipt", response.receipt_id.as_str().as_bytes());
    match response.status {
        ReceiptStatus::Applied => EffectOutcome::Applied { receipt },
        ReceiptStatus::AlreadyApplied => EffectOutcome::AlreadyApplied { receipt },
    }
}

/// The descriptor, as the iMessage row of the rollout matrix gives it: key
/// `imessage-smserver`, personal messaging that reconciles and sends read
/// receipts.
pub fn descriptor() -> (d: ConnectorDescriptor)
    ensures
        crate::rollout::BuiltinConnector::IMessage.row_descriptor(d),
{
    proof {
        reveal_strlit("imessage-smserver");
    }
    let capabilities: &'static [Capability] = &[Capability::Reconcile, Capability::Effect(EffectVerb::SendReadReceipt)];
    ConnectorDescriptor {
        key: ConnectorKey::new("imessage-smserver"),
        label: "iMessage via SMServer",
        class: SourceClass::PersonalMessaging,
        capabilities,
    }
}

/// The request for the bridge's identity and capabilities.
pub fn info_request() -> (r: HttpRequest)
    ensures
        r.spec_parts() == get_parts("/bridge/v1/info"@),
{
    HttpRequest::get("/bridge/v1/info")
}

/// `events` with `e` placed after every event whose sequence is not
/// greater than its own.
pub open spec fn insert_by_sequence(events: Seq<BridgeEvent>, e: BridgeEvent) -> Seq<BridgeEvent>
    decreases events.len(),
{
    if events.len() == 0 {
        seq![e]
    } else if events[0].sequence <= e.sequence {
        seq![events[0]] + insert_by_sequence(events.drop_first(), e)
    } else {
        seq![e] + events
    }
}

/// `events` ordered by sequence, equal sequences in their first order.
pub open spec fn by_sequence(events: Seq<BridgeEvent>) -> Seq<BridgeEvent>
    decreases events.len(),
{
    if events.len() == 0 {
        Seq::empty()
    } else {
        insert_by_sequence(by_sequence(events.drop_last()), events.last())
    }
}

/// Events ordered by sequence.
pub open spec fn sequence_ordered(s: Seq<BridgeEvent>) -> bool {
    forall|i: int, j: int| 0 <= i <= j < s.len() ==> s[i].sequence <= s[j].sequence
}

proof fn insert_position(v: Seq<BridgeEvent>, e: BridgeEvent) -> (k: int)
    ensures
        0 <= k <= v.len(),
        insert_by_sequence(v, e) == v.insert(k, e),
        forall|j: int| 0 <= j < k ==> (#[trigger] v[j]).sequence <= e.sequence,
        k < v.len() ==> e.sequence < v[k].sequence,
    decreases v.len(),
{
    if v.len() == 0 {
        assert(seq![e] =~= v.insert(0, e));
        0
    } else if v[0].sequence <= e.sequence {
        let w = v.drop_first();
        let k = insert_position(w, e);
        assert(seq![v[0]] + w.insert(k, e) =~= v.insert(k + 1, e));
        assert forall|j: int| 0 <= j < k + 1 implies (#[trigger] v[j]).sequence <= e.sequence by {
            if j > 0 {
                assert(v[j] == w[j - 1]);
            }
        }
        if k + 1 < v.len() {
            assert(v[k + 1] == w[k]);
        }
        k + 1
    } else {
        assert(seq![e] + v =~= v.insert(0, e));
        0
    }
}

/// Pull results are in sequence order, and hold exactly the events kept.
pub proof fn lemma_by_sequence_ordered(events: Seq<BridgeEvent>)
    ensures
        sequence_ordered(by_sequence(events)),
        by_sequence(events).to_multiset() == events.to_multiset(),
    decreases events.len(),
{
    broadcast use vstd::seq_lib::group_to_multiset_ensures;

    if events.len() == 0 {
        assert(by_sequence(events) =~= Seq::<BridgeEvent>::empty());
    } else {
        let rest = events.drop_last();
        let e = events.last();
        lemma_by_sequence_ordered(rest);
        let v = by_sequence(rest);
        let k = insert_position(v, e);
        let w = v.insert(k, e);
        assert forall|i: int, j: int| 0 <= i <= j < w.len() implies w[i].sequence <= w[j].sequence by {
            if i < k && j < k {
                assert(w[i] == v[i] && w[j] == v[j]);
            } else if i < k && j == k {
                assert(w[i] == v[i]);
            } else if i < k {
                assert(w[i] == v[i] && w[j] == v[j - 1]);
            } else if i == k && j > k {
                assert(w[j] == v[j - 1]);
                assert(v[k].sequence <= v[j - 1].sequence);
            } else if i > k {
                assert(w[i] == v[i - 1] && w[j] == v[j - 1]);
            }
        }
        vstd::seq_lib::to_multiset_insert(v, k, e);
        assert(events =~= rest.push(e));
    }
}

proof fn lemma_insert_prefix(v: Seq<BridgeEvent>, i: int, e: BridgeEvent)
    requires
        0 <= i <= v.len(),
        forall|j: int| 0 <= j < i ==> (#[trigger] v[j]).sequence <= e.sequence,
    ensures
        insert_by_sequence(v, e) == v.take(i) + insert_by_sequence(v.skip(i), e),
    decreases i,
{
    if i == 0 {
        assert(v.take(0) =~= Seq::<BridgeEvent>::empty());
        assert(v.skip(0) =~= v);
    } else {
        let w = v.drop_first();
        assert forall|j: int| 0 <= j < i - 1 implies (#[trigger] w[j]).sequence <= e.sequence by {
            assert(w[j] == v[j + 1]);
        }
        lemma_insert_prefix(w, i - 1, e);
        assert(w.skip(i - 1) =~= v.skip(i));
        assert(seq![v[0]] + w.take(i - 1) =~= v.take(i));
    }
}

fn insert_event(events: &mut Vec<BridgeEvent>, e: BridgeEvent)
    ensures
        final(events)@ == insert_by_sequence(old(events)@, e),
{
    let mut i: usize = 0;
    while i < events.len() && events[i].sequence <= e.sequence
        invariant
            events@ == old(events)@,
            i <= events@.len(),
            forall|j: int| 0 <= j < i ==> (#[trigger] events@[j]).sequence <= e.sequence,
        decreases events@.len() - i,
    {
        i = i + 1;
    }
    proof {
        lemma_insert_prefix(events@, i as int, e);
        if i < events@.len() {
            assert(events@.skip(i as int)[0] == events@[i as int]);
        } else {
            assert(events@.skip(i as int) =~= Seq::<BridgeEvent>::empty());
        }
    }
    let ghost before = events@;
    events.insert(i, e);
    assert(events@ =~= before.take(i as int) + insert_by_sequence(before.skip(i as int), e));
}

/// The pushed events a pull keeps: those past `start` whose id was not
/// kept before, in order.
pub open spec fn admit_pushed(st: (Seq<Seq<char>>, Seq<BridgeEvent>), start: u64, pushed: Seq<BridgeEvent>) -> (Seq<Seq<char>>, Seq<BridgeEvent>)
    decreases pushed.len(),
{
    if pushed.len() == 0 {
        st
    } else {
        let (seen, kept) = admit_pushed(st, start, pushed.drop_last());
        let e = pushed.last();
        if e.sequence > start && !seen.contains(e.event_id@) {
            (seen.push(e.event_id@), kept.push(e))
        } else {
            (seen, kept)
        }
    }
}

/// The page events a pull keeps: those whose id was not kept before.
pub open spec fn admit_page(st: (Seq<Seq<char>>, Seq<BridgeEvent>), events: Seq<BridgeEvent>) -> (Seq<Seq<char>>, Seq<BridgeEvent>)
    decreases events.len(),
{
    if events.len() == 0 {
        st
    } else {
        let (seen, kept) = admit_page(st, events.drop_last());
        let e = events.last();
        if !seen.contains(e.event_id@) {
            (seen.push(e.event_id@), kept.push(e))
        } else {
            (seen, kept)
        }
    }
}

/// The kept events carry the seen ids, one each, none twice.
pub open spec fn ids_match(st: (Seq<Seq<char>>, Seq<BridgeEvent>)) -> bool {
    &&& st.0.len() == st.1.len()
    &&& forall|i: int| 0 <= i < st.1.len() ==> #[trigger] st.0[i] == st.1[i].event_id@
    &&& forall|i: int, j: int| 0 <= i < j < st.0.len() ==> st.0[i] != st.0[j]
}

/// Pushed events never repeat an event id.
pub proof fn lemma_admit_pushed_unique(st: (Seq<Seq<char>>, Seq<BridgeEvent>), start: u64, pushed: Seq<BridgeEvent>)
    requires
        ids_match(st),
    ensures
        ids_match(admit_pushed(st, start, pushed)),
    decreases pushed.len(),
{
    if pushed.len() > 0 {
        lemma_admit_pushed_unique(st, start, pushed.drop_last());
        let (seen, kept) = admit_pushed(st, start, pushed.drop_last());
        let e = pushed.last();
        if e.sequence > start && !seen.contains(e.event_id@) {
            lemma_push_unique(seen, kept, e);
        }
    }
}

/// A page never repeats an event id already kept.
pub proof fn lemma_admit_page_unique(st: (Seq<Seq<char>>, Seq<BridgeEvent>), events: Seq<BridgeEvent>)
    requires
        ids_match(st),
    ensures
        ids_match(admit_page(st, events)),
    decreases events.len(),
{
    if events.len() > 0 {
        lemma_admit_page_unique(st, events.drop_last());
        let (seen, kept) = admit_page(st, events.drop_last());
        let e = events.last();
        if !seen.contains(e.event_id@) {
            lemma_push_unique(seen, kept, e);
        }
    }
}

proof fn lemma_push_unique(seen: Seq<Seq<char>>, kept: Seq<BridgeEvent>, e: BridgeEvent)
    requires
        ids_match((seen, kept)),
        !seen.contains(e.event_id@),
    ensures
        ids_match((seen.push(e.event_id@), kept.push(e))),
{
    let s = seen.push(e.event_id@);
    assert forall|i: int, j: int| 0 <= i < j < s.len() implies s[i] != s[j] by {
        assert(s[i] == seen[i]);
        if j < seen.len() {
            assert(s[j] == seen[j]);
        }
    }
    assert forall|i: int| 0 <= i < kept.push(e).len() implies #[trigger] s[i] == kept.push(e)[i].event_id@ by {
        if i < kept.len() {
            assert(s[i] == seen[i]);
        }
    }
}

pub open spec fn events_parts(after: u64) -> (HttpMethod, Seq<char>, Seq<(Seq<char>, Seq<char>)>, Option<Seq<u8>>) {
    (
        HttpMethod::Get,
        "/bridge/v1/events"@,
        seq![("after"@, decimal(after as nat)), ("limit"@, "500"@)],
        None,
    )
}

/// The iMessage connector of one bridge.
pub struct IMessageConnector<T> {
    http: T,
    pushed: VecDeque<BridgeEvent>,
    seen_events: Vec<String>,
}

/// The characters of each text.
pub open spec fn texts_view(v: Seq<String>) -> Seq<Seq<char>> {
    v.map_values(|s: String| s@)
}

impl<T> IMessageConnector<T> {
    pub closed spec fn spec_http(&self) -> T {
        self.http
    }

    /// The pushed events waiting for the next pull.
    pub closed spec fn spec_pushed(&self) -> Seq<BridgeEvent> {
        self.pushed@
    }

    /// The ids of every pushed event accepted.
    pub closed spec fn spec_seen_events(&self) -> Seq<Seq<char>> {
        self.seen_events@.map_values(|s: String| s@)
    }

    pub fn new(http: T) -> (r: Self)
        ensures
            r.spec_http() == http,
            r.spec_pushed().len() == 0,
            r.spec_seen_events().len() == 0,
    {
        let r = IMessageConnector { http, pushed: VecDeque::new(), seen_events: Vec::new() };
        assert(r.spec_seen_events() =~= Seq::empty());
        r
    }

    /// Accept a pushed event; an id seen before is dropped.
    pub fn push_event(&mut self, event: BridgeEvent)
        ensures
            final(self).spec_http() == old(self).spec_http(),
            if old(self).spec_seen_events().contains(event.event_id@) {
                final(self).spec_pushed() == old(self).spec_pushed() && final(self).spec_seen_events()
                    == old(self).spec_seen_events()
            } else {
                final(self).spec_pushed() == old(self).spec_pushed().push(event) && final(self).spec_seen_events()
                    == old(self).spec_seen_events().push(event.event_id@)
            },
    {
        let seen = has_text(&self.seen_events, event.event_id.as_str());
        proof {
            if old(self).spec_seen_events().contains(event.event_id@) {
                let j = choose|j: int| 0 <= j < old(self).spec_seen_events().len() && old(self).spec_seen_events()[j] == event.event_id@;
                assert(self.seen_events@[j]@ == event.event_id@);
            }
            if seen {
                let j = choose|j: int| 0 <= j < self.seen_events@.len() && (#[trigger] self.seen_events@[j])@ == event.event_id@;
                assert(self.spec_seen_events()[j] == event.event_id@);
            }
        }
        if !seen {
            let ghost before = self.seen_events@;
            self.seen_events.push(event.event_id.clone());
            assert(self.spec_seen_events() =~= old(self).spec_seen_events().push(event.event_id@)) by {
                assert(self.seen_events@ =~= before.push(self.seen_events@.last()));
            }
            self.pushed.push_back(event);
        }
    }

    /// The transport, for performing the requests of a pull or an effect.
    pub fn transport(&mut self) -> (t: &mut T)
        ensures
            *t == old(self).spec_http(),
            final(self).spec_http() == *final(t),
            final(self).spec_pushed() == old(self).spec_pushed(),
            final(self).spec_seen_events() == old(self).spec_seen_events(),
    {
        &mut self.http
    }

    pub fn into_inner(self) -> (t: T)
        ensures
            t == self.spec_http(),
    {
        self.http
    }

    /// Begin a pull from `cursor`, given the bridge's info: the bridge must
    /// speak this protocol with backfill and be the bridge of the cursor;
    /// then the pushed events past the cursor are taken.
    pub fn begin_pull(&mut self, cursor: Option<&IMessageCursor>, info: BridgeInfo) -> (r: Result<IMessagePull, ProviderError>)
        ensures
            final(self).spec_http() == old(self).spec_http(),
            final(self).spec_seen_events() == old(self).spec_seen_events(),
            (info.protocol_version != PROTOCOL_VERSION || !info.capabilities.event_backfill) ==> (r matches Err(
                ProviderError::Protocol { provider, reason },
            ) && provider@ == "imessage"@ && reason@ == "bridge protocol version or backfill capability is incompatible"@
                && final(self).spec_pushed() == old(self).spec_pushed()),
            (info.protocol_version == PROTOCOL_VERSION && info.capabilities.event_backfill && cursor is Some
                && cursor->Some_0.bridge_id@ != info.bridge_id@) ==> (r matches Err(
                ProviderError::Cursor { provider, reason },
            ) && provider@ == "imessage"@ && reason@ == "bridge identity changed"@
                && final(self).spec_pushed() == old(self).spec_pushed()),
            (info.protocol_version == PROTOCOL_VERSION && info.capabilities.event_backfill && (cursor is None
                || cursor->Some_0.bridge_id@ == info.bridge_id@)) ==> ({
                let start: u64 = match cursor {
                    Some(c) => c.sequence,
                    None => 0,
                };
                r matches Ok(p) && p.wf() && p.spec_bridge() == info.bridge_id@ && p.spec_after() == start
                    && !p.spec_done() && (p.spec_seen(), p.spec_kept()) == admit_pushed(
                    (Seq::empty(), Seq::empty()),
                    start,
                    old(self).spec_pushed(),
                ) && final(self).spec_pushed().len() == 0
            }),
    {
        proof {
            reveal_strlit("imessage");
        }
        if info.protocol_version != PROTOCOL_VERSION || !info.capabilities.event_backfill {
            return Err(protocol_error("imessage", "bridge protocol version or backfill capability is incompatible"));
        }
        let start: u64 = match cursor {
            Some(c) => {
                if !same_text(c.bridge_id.as_str(), info.bridge_id.as_str()) {
                    return Err(ProviderError::Cursor { provider: "imessage", reason: "bridge identity changed" });
                }
                c.sequence
            },
            None => 0,
        };
        let mut seen: Vec<String> = Vec::new();
        let mut events: Vec<BridgeEvent> = Vec::new();
        let ghost mut kept: Seq<BridgeEvent> = Seq::empty();
        let ghost queue = self.pushed@;
        let ghost mut taken: int = 0;
        assert(queue.take(0) =~= Seq::<BridgeEvent>::empty());
        assert(texts_view(seen@) =~= Seq::<Seq<char>>::empty());
        while self.pushed.len() > 0
            invariant
                0 <= taken <= queue.len(),
                self.pushed@ == queue.skip(taken),
                self.http == old(self).http,
                self.seen_events == old(self).seen_events,
                (texts_view(seen@), kept) == admit_pushed((Seq::empty(), Seq::empty()), start, queue.take(taken)),
                events@ == by_sequence(kept),
            decreases self.pushed@.len(),
        {
            let event = self.pushed.pop_front().unwrap();
            assert(event == queue[taken]);
            assert(queue.take(taken + 1).drop_last() =~= queue.take(taken));
            assert(queue.skip(taken + 1) =~= queue.skip(taken).drop_first());
            if event.sequence > start && !has_text_view(&seen, event.event_id.as_str()) {
                let ghost before = seen@;
                seen.push(event.event_id.clone());
                assert(texts_view(seen@) =~= texts_view(before).push(event.event_id@));
                proof {
                    assert(by_sequence(kept.push(event)) == insert_by_sequence(by_sequence(kept), event)) by {
                        assert(kept.push(event).drop_last() =~= kept);
                    }
                    kept = kept.push(event);
                }
                insert_event(&mut events, event);
            }
            proof {
                taken = taken + 1;
            }
        }
        assert(queue.take(taken) =~= queue);
        Ok(IMessagePull { bridge_id: info.bridge_id, events, kept: Ghost(kept), seen, after: start, done: false })
    }
}

fn has_text_view(v: &Vec<String>, s: &str) -> (r: bool)
    ensures
        r == texts_view(v@).contains(s@),
{
    let r = has_text(v, s);
    proof {
        if r {
            let j = choose|j: int| 0 <= j < v@.len() && (#[trigger] v@[j])@ == s@;
            assert(texts_view(v@)[j] == s@);
        }
        if texts_view(v@).contains(s@) {
            let j = choose|j: int| 0 <= j < texts_view(v@).len() && texts_view(v@)[j] == s@;
            assert(v@[j]@ == s@);
        }
    }
    r
}

/// The milliseconds of each event in turn, stopping at the first that is
/// unusable.
pub open spec fn first_bad_time(events: Seq<BridgeEvent>) -> int
    decreases events.len(),
{
    if events.len() == 0 {
        -1
    } else {
        let i = first_bad_time(events.drop_last());
        if i >= 0 {
            i
        } else if spec_millis(rfc3339_nanos(events.last().occurred_at@), "event time"@) is Err {
            events.len() - 1
        } else {
            -1
        }
    }
}

proof fn lemma_first_bad(events: Seq<BridgeEvent>, i: int)
    requires
        0 <= i <= events.len(),
        first_bad_time(events.take(i)) == -1,
    ensures
        forall|j: int| 0 <= j < i ==> #[trigger] spec_millis(rfc3339_nanos(events[j].occurred_at@), "event time"@) is Ok,
    decreases i,
{
    if i > 0 {
        assert(events.take(i).drop_last() =~= events.take(i - 1));
        lemma_first_bad(events, i - 1);
    }
}

/// An iMessage pull in progress: pushed events are taken; event pages are
/// read from the cursor's sequence until the bridge has no more.
pub struct IMessagePull {
    bridge_id: String,
    events: Vec<BridgeEvent>,
    kept: Ghost<Seq<BridgeEvent>>,
    seen: Vec<String>,
    after: u64,
    done: bool,
}

impl IMessagePull {
    /// The events held are the kept events ordered by sequence.
    pub closed spec fn wf(&self) -> bool {
        self.events@ == by_sequence(self.kept@)
    }

    pub closed spec fn spec_bridge(&self) -> Seq<char> {
        self.bridge_id@
    }

    /// The events kept, in the order they were taken.
    pub closed spec fn spec_kept(&self) -> Seq<BridgeEvent> {
        self.kept@
    }

    pub closed spec fn spec_seen(&self) -> Seq<Seq<char>> {
        texts_view(self.seen@)
    }

    /// The sequence the next page starts after.
    pub closed spec fn spec_after(&self) -> u64 {
        self.after
    }

    /// The bridge said it has no more events.
    pub closed spec fn spec_done(&self) -> bool {
        self.done
    }

    /// The next page request, or `None` once the bridge has no more.
    pub fn next_request(&self) -> (r: Option<HttpRequest>)
        ensures
            !self.spec_done() ==> (r matches Some(q) && q.spec_parts() == events_parts(self.spec_after())),
            self.spec_done() ==> r is None,
    {
        if self.done {
            return None;
        }
        let after = crate::text::to_decimal(self.after);
        let q = HttpRequest::get("/bridge/v1/events").query("after", after.as_str()).query("limit", "500");
        assert(query_view(q.query@) =~= seq![("after"@, decimal(self.after as nat)), ("limit"@, "500"@)]);
        Some(q)
    }

    /// Take one page: every event must come after the page's start; events
    /// seen before are dropped.
    pub fn receive(&mut self, page: BridgeEventPage) -> (r: Result<(), ProviderError>)
        requires
            old(self).wf(),
        ensures
            (exists|i: int| 0 <= i < page.events@.len() && (#[trigger] page.events@[i]).sequence <= old(self).spec_after())
                ==> (r matches Err(ProviderError::Protocol { provider, reason }) && provider@ == "imessage"@
                && reason@ == "event sequence did not advance"@),
            !(exists|i: int| 0 <= i < page.events@.len() && (#[trigger] page.events@[i]).sequence <= old(self).spec_after())
                ==> {
                &&& r is Ok
                &&& final(self).wf()
                &&& final(self).spec_bridge() == old(self).spec_bridge()
                &&& (final(self).spec_seen(), final(self).spec_kept()) == admit_page(
                    (old(self).spec_seen(), old(self).spec_kept()),
                    page.events@,
                )
                &&& final(self).spec_after() == page.next_sequence
                &&& final(self).spec_done() == !page.has_more
            },
    {
        proof {
            reveal_strlit("imessage");
        }
        let mut i: usize = 0;
        while i < page.events.len()
            invariant
                i <= page.events@.len(),
                forall|j: int| 0 <= j < i ==> (#[trigger] page.events@[j]).sequence > self.after,
            decreases page.events@.len() - i,
        {
            if page.events[i].sequence <= self.after {
                return Err(protocol_error("imessage", "event sequence did not advance"));
            }
            i = i + 1;
        }
        let BridgeEventPage { events: page_events, next_sequence, has_more } = page;
        let mut queue: VecDeque<BridgeEvent> = into_queue(page_events);
        let ghost all = queue@;
        let ghost start = (texts_view(self.seen@), self.kept@);
        let ghost mut taken: int = 0;
        assert(all.take(0) =~= Seq::<BridgeEvent>::empty());
        while queue.len() > 0
            invariant
                0 <= taken <= all.len(),
                queue@ == all.skip(taken),
                self.bridge_id == old(self).bridge_id,
                self.wf(),
                (texts_view(self.seen@), self.kept@) == admit_page(start, all.take(taken)),
            decreases queue@.len(),
        {
            let event = queue.pop_front().unwrap();
            assert(event == all[taken]);
            assert(all.take(taken + 1).drop_last() =~= all.take(taken));
            assert(all.skip(taken + 1) =~= all.skip(taken).drop_first());
            if !has_text_view(&self.seen, event.event_id.as_str()) {
                let ghost before = self.seen@;
                self.seen.push(event.event_id.clone());
                assert(texts_view(self.seen@) =~= texts_view(before).push(event.event_id@));
                proof {
                    assert(by_sequence(self.kept@.push(event)) == insert_by_sequence(by_sequence(self.kept@), event)) by {
                        assert(self.kept@.push(event).drop_last() =~= self.kept@);
                    }
                    self.kept@ = self.kept@.push(event);
                }
                insert_event(&mut self.events, event);
            }
            proof {
                taken = taken + 1;
            }
        }
        assert(all.take(taken) =~= all);
        self.after = next_sequence;
        self.done = !has_more;
        Ok(())
    }

    /// The batch, ordered by sequence, each event with its time in
    /// milliseconds, and the next cursor; an event whose time is unusable
    /// fails the pull.
    pub fn finish(self) -> (r: Result<TypedPullBatch<IMessageCursor, IMessageEvent>, ProviderError>)
        requires
            self.wf(),
        ensures
            finish_result(self.spec_kept(), self.spec_bridge(), self.spec_after(), r),
    {
        let ghost kept_all = self.spec_kept();
        let after = self.after;
        let IMessagePull { bridge_id, events, kept, .. } = self;
        let ghost all = events@;
        let mut queue = into_queue(events);
        let mut observations: Vec<IMessageEvent> = Vec::new();
        let ghost mut taken: int = 0;
        assert(all.take(0) =~= Seq::<BridgeEvent>::empty());
        while queue.len() > 0
            invariant
                0 <= taken <= all.len(),
                queue@ == all.skip(taken),
                all == by_sequence(kept@),
                kept_all == kept@,
                kept_all == self.spec_kept(),
                first_bad_time(all.take(taken)) == -1,
                observations@.len() == taken,
                forall|i: int| 0 <= i < taken ==> {
                    let o = #[trigger] observations@[i];
                    &&& o.event == all[i]
                    &&& o.bridge_id@ == bridge_id@
                    &&& Ok::<i64, Seq<char>>(o.occurred_at) == spec_millis(rfc3339_nanos(all[i].occurred_at@), "event time"@)
                },
            decreases queue@.len(),
        {
            let event = queue.pop_front().unwrap();
            assert(event == all[taken]);
            assert(all.take(taken + 1).drop_last() =~= all.take(taken));
            assert(all.skip(taken + 1) =~= all.skip(taken).drop_first());
            let parsed = parse_millis(event.occurred_at.as_str(), "imessage", "event time");
            let occurred_at = match parsed {
                Ok(ms) => ms,
                Err(e) => {
                    proof {
                        assert(first_bad_time(all.take(taken + 1)) == taken);
                        lemma_first_bad_prefix(all, taken + 1);
                    }
                    return Err(e);
                },
            };
            observations.push(IMessageEvent { bridge_id: bridge_id.clone(), event, occurred_at });
            proof {
                taken = taken + 1;
            }
        }
        assert(all.take(taken) =~= all);
        Ok(TypedPullBatch { observations, next_cursor: IMessageCursor { bridge_id, sequence: after } })
    }
}

/// `r` is what a pull that kept `kept` from bridge `bridge`, reading up to
/// sequence `after`, ends in: the events ordered by sequence, each with its
/// time in milliseconds, or the error of the first whose time is unusable.
pub open spec fn finish_result(
    kept: Seq<BridgeEvent>,
    bridge: Seq<char>,
    after: u64,
    r: Result<TypedPullBatch<IMessageCursor, IMessageEvent>, ProviderError>,
) -> bool {
    let events = by_sequence(kept);
    let bad = first_bad_time(events);
    if bad >= 0 {
        &&& r is Err
        &&& millis_result(
            match r {
                Ok(_) => Ok(0),
                Err(e) => Err(e),
            },
            spec_millis(rfc3339_nanos(events[bad].occurred_at@), "event time"@),
            "imessage",
        )
    } else {
        r matches Ok(batch) && batch.observations@.len() == events.len() && batch.next_cursor.bridge_id@ == bridge
            && batch.next_cursor.sequence == after && forall|i: int|
            0 <= i < events.len() ==> {
                let o = #[trigger] batch.observations@[i];
                &&& o.event == events[i]
                &&& o.bridge_id@ == bridge
                &&& Ok::<i64, Seq<char>>(o.occurred_at) == spec_millis(rfc3339_nanos(events[i].occurred_at@), "event time"@)
            }
    }
}

proof fn lemma_first_bad_prefix(events: Seq<BridgeEvent>, i: int)
    requires
        0 <= i <= events.len(),
        first_bad_time(events.take(i)) >= 0,
    ensures
        first_bad_time(events) == first_bad_time(events.take(i)),
    decreases events.len() - i,
{
    if i < events.len() {
        assert(events.take(i + 1).drop_last() =~= events.take(i));
        lemma_first_bad_prefix(events, i + 1);
    } else {
        assert(events.take(i) =~= events);
    }
}

} // verus!
