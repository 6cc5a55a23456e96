//! Slack: Socket Mode envelopes are wake-up hints; `conversations.history`
//! from each channel's watermark is the reliable path.

use vstd::prelude::*;

use std::collections::VecDeque;

use crate::connector::{
    Capability, ConnectorDescriptor, ConnectorError, ConnectorKey, EffectRequest, NormalizedObservation,
    ObservationKind, SourceClass, TypedPullBatch,
};
use crate::http::{query_view, HttpMethod, HttpRequest};
use crate::providers::common::{
    digest, digest_parts, has_text, i64_or_zero, keys_ordered, lemma_upsert_ordered, mark_of, mark_or, millis_sat,
    nonempty_or, nonempty_or_exec, pairs_view, parse_i64, protocol_error, seconds_to_millis, spec_digest, upsert,
    upsert_mark, ProviderError,
};
use crate::text::{append, same_text};

verus! {

#[derive(Debug, Clone, PartialEq, Eq)]
pub struct SlackWatermark {
    pub channel: String,
    pub timestamp: String,
}

/// The newest message timestamp seen in each channel, ordered by channel.
#[derive(Debug, Clone, PartialEq, Eq)]
pub struct SlackCursor {
    pub watermarks: Vec<SlackWatermark>,
}

/// Watermarks as (channel, timestamp) pairs.
pub open spec fn watermarks_view(w: Seq<SlackWatermark>) -> Seq<(Seq<char>, Seq<char>)> {
    w.map_values(|m: SlackWatermark| (m.channel@, m.timestamp@))
}

#[derive(Debug, Clone, PartialEq, Eq)]
pub struct SlackSocketEnvelope {
    pub envelope_id: String,
    pub payload: SlackEventPayload,
}

#[derive(Debug, Clone, PartialEq, Eq)]
pub struct SlackEventPayload {
    pub event_id: String,
    pub team_id: String,
    pub event: SlackMessageEvent,
}

#[derive(Debug, Clone, PartialEq, Eq)]
pub enum SlackMessageEvent {
    Changed(SlackChangedEvent),
    Deleted(SlackDeletedEvent),
    Posted(SlackPostedEvent),
}

#[derive(Debug, Clone, PartialEq, Eq)]
pub struct SlackPostedEvent {
    pub event_type: String,
    pub channel: String,
    pub user: String,
    pub text: String,
    pub ts: String,
    pub thread_ts: String,
    pub event_ts: String,
}

#[derive(Debug, Clone, PartialEq, Eq)]
pub struct SlackChangedEvent {
    pub event_type: String,
    pub subtype: String,
    pub channel: String,
    pub ts: String,
    pub message: SlackChangedMessage,
    pub event_ts: String,
}

#[derive(Debug, Clone, PartialEq, Eq)]
pub struct SlackChangedMessage {
    pub user: String,
    pub text: String,
    pub ts: String,
    pub thread_ts: String,
    pub edited: SlackEdited,
}

#[derive(Debug, Clone, PartialEq, Eq)]
pub struct SlackEdited {
    pub user: String,
    pub ts: String,
}

#[derive(Debug, Clone, PartialEq, Eq)]
pub struct SlackDeletedEvent {
    pub event_type: String,
    pub subtype: String,
    pub channel: String,
    pub deleted_ts: String,
    pub ts: String,
    pub event_ts: String,
}

/// `text` holds a user mention, `<@`.
pub open spec fn has_mention(text: Seq<char>) -> bool {
    exists|i: int| 0 <= i && i + 1 < text.len() && #[trigger] text[i] == '<' && text[i + 1] == '@'
}

fn contains_mention(text: &str) -> (r: bool)
    ensures
        r == has_mention(text@),
{
    let n = text.unicode_len();
    if n < 2 {
        return false;
    }
    let mut i: usize = 0;
    while i < n - 1
        invariant
            n == text@.len(),
            n >= 2,
            forall|j: int| 0 <= j < i && j + 1 < n ==> !(#[trigger] text@[j] == '<' && text@[j + 1] == '@'),
        decreases n - i,
    {
        if text.get_char(i) == '<' && text.get_char(i + 1) == '@' {
            return true;
        }
        i = i + 1;
    }
    false
}

impl SlackMessageEvent {
    pub open spec fn spec_channel(self) -> Seq<char> {
        match self {
            SlackMessageEvent::Posted(e) => e.channel@,
            SlackMessageEvent::Changed(e) => e.channel@,
            SlackMessageEvent::Deleted(e) => e.channel@,
        }
    }

    /// The timestamp that names the message itself.
    pub open spec fn spec_object_timestamp(self) -> Seq<char> {
        match self {
            SlackMessageEvent::Posted(e) => e.ts@,
            SlackMessageEvent::Changed(e) => e.message.ts@,
            SlackMessageEvent::Deleted(e) => e.deleted_ts@,
        }
    }

    /// The timestamp of the thread root.
    pub open spec fn spec_thread_timestamp(self) -> Seq<char> {
        match self {
            SlackMessageEvent::Posted(e) => nonempty_or(e.thread_ts@, e.ts@),
            SlackMessageEvent::Changed(e) => nonempty_or(e.message.thread_ts@, e.message.ts@),
            SlackMessageEvent::Deleted(e) => e.deleted_ts@,
        }
    }

    /// The time of the event.
    pub open spec fn spec_event_timestamp(self) -> Seq<char> {
        match self {
            SlackMessageEvent::Posted(e) => nonempty_or(e.event_ts@, e.ts@),
            SlackMessageEvent::Changed(e) => nonempty_or(e.event_ts@, e.ts@),
            SlackMessageEvent::Deleted(e) => nonempty_or(e.event_ts@, e.ts@),
        }
    }

    /// A post that mentions someone is a mention; an edit an update.
    pub open spec fn spec_kind(self) -> ObservationKind {
        match self {
            SlackMessageEvent::Posted(e) => if has_mention(e.text@) {
                ObservationKind::Mentioned
            } else {
                ObservationKind::Created
            },
            SlackMessageEvent::Changed(_) => ObservationKind::Updated,
            SlackMessageEvent::Deleted(_) => ObservationKind::Deleted,
        }
    }

    /// What distinguishes one revision of the message from another.
    pub open spec fn spec_revision(self) -> Seq<char> {
        match self {
            SlackMessageEvent::Posted(e) => e.ts@,
            SlackMessageEvent::Changed(e) => e.message.edited.ts@,
            SlackMessageEvent::Deleted(_) => self.spec_event_timestamp(),
        }
    }

    pub fn channel(&self) -> (r: &str)
        ensures
            r@ == self.spec_channel(),
    {
        match self {
            SlackMessageEvent::Posted(e) => e.channel.as_str(),
            SlackMessageEvent::Changed(e) => e.channel.as_str(),
            SlackMessageEvent::Deleted(e) => e.channel.as_str(),
        }
    }

    pub fn object_timestamp(&self) -> (r: &str)
        ensures
            r@ == self.spec_object_timestamp(),
    {
        match self {
            SlackMessageEvent::Posted(e) => e.ts.as_str(),
            SlackMessageEvent::Changed(e) => e.message.ts.as_str(),
            SlackMessageEvent::Deleted(e) => e.deleted_ts.as_str(),
        }
    }

    pub fn thread_timestamp(&self) -> (r: &str)
        ensures
            r@ == self.spec_thread_timestamp(),
    {
        match self {
            SlackMessageEvent::Posted(e) => nonempty_or_exec(e.thread_ts.as_str(), e.ts.as_str()),
            SlackMessageEvent::Changed(e) => nonempty_or_exec(e.message.thread_ts.as_str(), e.message.ts.as_str()),
            SlackMessageEvent::Deleted(e) => e.deleted_ts.as_str(),
        }
    }

    pub fn event_timestamp(&self) -> (r: &str)
        ensures
            r@ == self.spec_event_timestamp(),
    {
        match self {
            SlackMessageEvent::Posted(e) => nonempty_or_exec(e.event_ts.as_str(), e.ts.as_str()),
            SlackMessageEvent::Changed(e) => nonempty_or_exec(e.event_ts.as_str(), e.ts.as_str()),
            SlackMessageEvent::Deleted(e) => nonempty_or_exec(e.event_ts.as_str(), e.ts.as_str()),
        }
    }

    pub fn kind(&self) -> (k: ObservationKind)
        ensures
            k == self.spec_kind(),
    {
        match self {
            SlackMessageEvent::Posted(e) => if contains_mention(e.text.as_str()) {
                ObservationKind::Mentioned
            } else {
                ObservationKind::Created
            },
            SlackMessageEvent::Changed(_) => ObservationKind::Updated,
            SlackMessageEvent::Deleted(_) => ObservationKind::Deleted,
        }
    }

    pub fn semantic_revision(&self) -> (r: &str)
        ensures
            r@ == self.spec_revision(),
    {
        match self {
            SlackMessageEvent::Posted(e) => e.ts.as_str(),
            SlackMessageEvent::Changed(e) => e.message.edited.ts.as_str(),
            SlackMessageEvent::Deleted(_) => self.event_timestamp(),
        }
    }
}

#[derive(Debug, Clone, PartialEq, Eq)]
pub struct SlackHistoryResponse {
    pub ok: bool,
    pub messages: Vec<SlackHistoryMessage>,
    pub response_metadata: SlackResponseMetadata,
}

#[derive(Debug, Clone, PartialEq, Eq)]
pub struct SlackResponseMetadata {
    pub next_cursor: String,
}

impl Default for SlackResponseMetadata {
    fn default() -> (r: Self)
        ensures
            r.next_cursor@.len() == 0,
    {
        SlackResponseMetadata { next_cursor: String::new() }
    }
}

#[derive(Debug, Clone, PartialEq, Eq)]
pub struct SlackHistoryMessage {
    pub message_type: String,
    pub user: String,
    pub text: String,
    pub ts: String,
    pub thread_ts: String,
    pub subtype: String,
}

/// One Slack message event of a workspace.
#[derive(Debug, Clone, PartialEq, Eq)]
pub struct SlackEvent {
    pub event_id: String,
    pub team_id: String,
    pub message: SlackMessageEvent,
}

/// The position of the first `.` in `s`, at or after `from`, or its length.
pub open spec fn dot_at(s: Seq<char>, from: int) -> int
    decreases s.len() - from,
{
    if from >= s.len() {
        s.len() as int
    } else if s[from] == '.' {
        from
    } else {
        dot_at(s, from + 1)
    }
}

/// `a + b`, saturating at the bounds of `i64`.
pub open spec fn add_sat(a: i64, b: i64) -> i64 {
    if a + b > i64::MAX {
        i64::MAX
    } else if a + b < i64::MIN {
        i64::MIN
    } else {
        (a + b) as i64
    }
}

/// `x / 1000`, rounded toward zero.
pub open spec fn div_1000(x: i64) -> i64 {
    if x >= 0 { (x / 1000) as i64 } else { -((-x) / 1000) as i64 }
}

/// Milliseconds of a Slack timestamp `seconds.micros`: whole seconds and
/// the first six fraction digits, each read as an `i64` or zero.
pub open spec fn slack_millis(ts: Seq<char>) -> i64 {
    let k = dot_at(ts, 0);
    let seconds = ts.take(k);
    let micros = if k < ts.len() { ts.skip(k + 1) } else { "0"@ };
    let micros6 = micros.take(if micros.len() < 6 { micros.len() as int } else { 6 });
    add_sat(millis_sat(i64_or_zero(seconds)), div_1000(i64_or_zero(micros6)))
}

/// The milliseconds of a Slack timestamp.
pub fn slack_millis_exec(ts: &str) -> (m: i64)
    ensures
        m == slack_millis(ts@),
{
    let n = ts.unicode_len();
    let mut k: usize = 0;
    while k < n && ts.get_char(k) != '.'
        invariant
            n == ts@.len(),
            k <= n,
            dot_at(ts@, 0) == dot_at(ts@, k as int),
        decreases n - k,
    {
        k = k + 1;
    }
    let seconds = ts.substring_char(0, k);
    proof {
        reveal_strlit("0");
    }
    let micros = if k < n { ts.substring_char(k + 1, n) } else { "0" };
    let m = micros.unicode_len();
    let micros6 = micros.substring_char(0, if m < 6 { m } else { 6 });
    let s: i64 = match parse_i64(seconds) {
        Some(v) => v,
        None => 0,
    };
    let u: i64 = match parse_i64(micros6) {
        Some(v) => v,
        None => 0,
    };
    let a = seconds_to_millis(s);
    let b: i64 = if u >= 0 {
        u / 1000
    } else {
        let magnitude: u64 = (-(u + 1)) as u64 + 1;
        -((magnitude / 1000) as i64)
    };
    if b > 0 && a > i64::MAX - b {
        i64::MAX
    } else if b < 0 && a < i64::MIN - b {
        i64::MIN
    } else {
        a + b
    }
}

/// What names a message: workspace, channel, message timestamp.
pub open spec fn object_values(team: Seq<char>, m: SlackMessageEvent) -> Seq<Seq<u8>> {
    seq![
        vstd::utf8::encode_utf8(team),
        vstd::utf8::encode_utf8(m.spec_channel()),
        vstd::utf8::encode_utf8(m.spec_object_timestamp()),
    ]
}

/// What names one revision of a message: the message and its revision.
pub open spec fn event_values(team: Seq<char>, m: SlackMessageEvent) -> Seq<Seq<u8>> {
    object_values(team, m).push(vstd::utf8::encode_utf8(m.spec_revision()))
}

/// An edit names the same message as the post it edits.
pub proof fn lemma_edit_keeps_message(team: Seq<char>, posted: SlackPostedEvent, changed: SlackChangedEvent)
    requires
        posted.channel@ == changed.channel@,
        posted.ts@ == changed.message.ts@,
    ensures
        spec_digest("slack-message"@, object_values(team, SlackMessageEvent::Posted(posted)))
            == spec_digest("slack-message"@, object_values(team, SlackMessageEvent::Changed(changed))),
{
}

/// An edit is another event than the post it edits: when the edit time
/// differs from the post's timestamp, the two event keys are hashed from
/// different bytes.
pub proof fn lemma_edit_changes_event(team: Seq<char>, posted: SlackPostedEvent, changed: SlackChangedEvent)
    requires
        posted.channel@ == changed.channel@,
        posted.ts@ == changed.message.ts@,
        changed.message.edited.ts@ != posted.ts@,
        forall|i: int| 0 <= i < 4 ==> (#[trigger] event_values(team, SlackMessageEvent::Posted(posted))[i]).len() < 0x1_0000_0000_0000_0000,
        forall|i: int| 0 <= i < 4 ==> (#[trigger] event_values(team, SlackMessageEvent::Changed(changed))[i]).len() < 0x1_0000_0000_0000_0000,
    ensures
        crate::providers::common::framed(vstd::utf8::encode_utf8("slack-event"@), event_values(team, SlackMessageEvent::Posted(posted)))
            != crate::providers::common::framed(vstd::utf8::encode_utf8("slack-event"@), event_values(team, SlackMessageEvent::Changed(changed))),
{
    let a = event_values(team, SlackMessageEvent::Posted(posted));
    let b = event_values(team, SlackMessageEvent::Changed(changed));
    vstd::utf8::encode_utf8_decode_utf8(posted.ts@);
    vstd::utf8::encode_utf8_decode_utf8(changed.message.edited.ts@);
    assert(a[3] != b[3]);
    crate::providers::common::lemma_framing_unambiguous(vstd::utf8::encode_utf8("slack-event"@), a, b);
}

/// The digests that name a Slack event: the workspace; the message by
/// workspace, channel and message timestamp; its thread; and the revision,
/// so that an edit keeps the message and changes the event. `payload` is
/// the JSON document of the message and event id.
pub fn observation(event: &SlackEvent, payload: &[u8]) -> (o: NormalizedObservation)
    ensures
        o.account.0@ == spec_digest("slack-team"@, seq![vstd::utf8::encode_utf8(event.team_id@)]),
        o.object.0@ == spec_digest("slack-message"@, object_values(event.team_id@, event.message)),
        o.thread.0@ == spec_digest("slack-thread"@, seq![
            vstd::utf8::encode_utf8(event.team_id@),
            vstd::utf8::encode_utf8(event.message.spec_channel()),
            vstd::utf8::encode_utf8(event.message.spec_thread_timestamp()),
        ]),
        o.event.0@ == spec_digest("slack-event"@, event_values(event.team_id@, event.message)),
        o.payload.0@ == spec_digest("slack-payload"@, seq![payload@]),
        o.kind == event.message.spec_kind(),
        o.occurred_at == slack_millis(event.message.spec_event_timestamp()),
{
    let team = event.team_id.as_str().as_bytes();
    let channel = event.message.channel().as_bytes();
    let object_ts = event.message.object_timestamp().as_bytes();
    let thread_ts = event.message.thread_timestamp().as_bytes();
    let revision = event.message.semantic_revision().as_bytes();
    let object_parts: [&[u8]; 3] = [team, channel, object_ts];
    let thread_parts: [&[u8]; 3] = [team, channel, thread_ts];
    let event_parts: [&[u8]; 4] = [team, channel, object_ts, revision];
    proof {
        assert(crate::providers::common::slices_view(object_parts@) =~= object_values(event.team_id@, event.message));
        assert(crate::providers::common::slices_view(thread_parts@) =~= seq![team@, channel@, thread_ts@]);
        assert(crate::providers::common::slices_view(event_parts@) =~= event_values(event.team_id@, event.message));
    }
    NormalizedObservation {
        account: digest("slack-team", team),
        object: digest_parts("slack-message", &object_parts),
        thread: digest_parts("slack-thread", &thread_parts),
        event: digest_parts("slack-event", &event_parts),
        payload: digest("slack-payload", payload),
        kind: event.message.kind(),
        occurred_at: slack_millis_exec(event.message.event_timestamp()),
    }
}

/// Slack takes no effects: no value of this type is ever made.
#[derive(Debug)]
pub struct SlackEffect {
    unmade: (),
}

impl SlackEffect {
    /// No effect request is for Slack.
    pub fn from_request(request: EffectRequest) -> (r: Result<SlackEffect, ConnectorError>)
        ensures
            r matches Err(ConnectorError::EffectForAnotherProvider),
    {
        Err(ConnectorError::EffectForAnotherProvider)
    }
}

/// The descriptor: key `slack`, a workspace chat that only reconciles.
pub fn descriptor() -> (d: ConnectorDescriptor)
    ensures
        crate::rollout::BuiltinConnector::Slack.row_descriptor(d),
{
    proof {
        reveal_strlit("slack");
    }
    let capabilities: &'static [Capability] = &[Capability::Reconcile];
    assert(capabilities@ =~= seq![Capability::Reconcile]);
    ConnectorDescriptor { key: ConnectorKey::new("slack"), label: "Slack", class: SourceClass::WorkspaceChat, capabilities }
}

/// The deduplication key of a message revision: channel, message
/// timestamp, revision.
pub open spec fn keys_view(v: Seq<(String, String, String)>) -> Seq<(Seq<char>, Seq<char>, Seq<char>)> {
    v.map_values(|k: (String, String, String)| (k.0@, k.1@, k.2@))
}

fn has_key(v: &Vec<(String, String, String)>, a: &str, b: &str, c: &str) -> (r: bool)
    ensures
        r == keys_view(v@).contains((a@, b@, c@)),
{
    let mut i: usize = 0;
    while i < v.len()
        invariant
            i <= v@.len(),
            forall|j: int| 0 <= j < i ==> keys_view(v@)[j] != (a@, b@, c@),
        decreases v@.len() - i,
    {
        if same_text(v[i].0.as_str(), a) && same_text(v[i].1.as_str(), b) && same_text(v[i].2.as_str(), c) {
            assert(keys_view(v@)[i as int] == (a@, b@, c@));
            return true;
        }
        i = i + 1;
    }
    false
}

/// Where an observation of a pull came from: a Socket Mode payload, or a
/// history message of the configured channel with that index.
#[derive(Debug, Clone, PartialEq, Eq)]
pub enum Origin {
    Socket(SlackEventPayload),
    History(usize, SlackHistoryMessage),
}

/// `e` is the observation that `o` gives in workspace `team`.
pub open spec fn from_origin(e: SlackEvent, o: Origin, team: Seq<char>, channels: Seq<String>) -> bool {
    match o {
        Origin::Socket(p) => e == SlackEvent { event_id: p.event_id, team_id: p.team_id, message: p.event },
        Origin::History(ci, m) => {
            &&& e.event_id@ == "history:"@ + channels[ci as int]@ + ":"@ + m.ts@
            &&& e.team_id@ == team
            &&& e.message matches SlackMessageEvent::Posted(p) && p.event_type == m.message_type
                && p.channel@ == channels[ci as int]@ && p.user == m.user && p.text == m.text && p.ts == m.ts
                && p.thread_ts == m.thread_ts && p.event_ts@.len() == 0
        },
    }
}

/// Seen keys, watermarks and origins of a pull.
pub type PullState = (Seq<(Seq<char>, Seq<char>, Seq<char>)>, Seq<(Seq<char>, Seq<char>)>, Seq<Origin>);

/// The state after the Socket Mode envelopes `envs`, in order: each new
/// revision raises its channel's watermark to the event time and is kept.
pub open spec fn absorb_socket(st: PullState, envs: Seq<SlackSocketEnvelope>) -> PullState
    decreases envs.len(),
{
    if envs.len() == 0 {
        st
    } else {
        let (seen, marks, origins) = absorb_socket(st, envs.drop_last());
        let p = envs.last().payload;
        let key = (p.event.spec_channel(), p.event.spec_object_timestamp(), p.event.spec_revision());
        if seen.contains(key) {
            (seen, marks, origins)
        } else {
            (
                seen.push(key),
                upsert(marks, p.event.spec_channel(), p.event.spec_event_timestamp(), false),
                origins.push(Origin::Socket(p)),
            )
        }
    }
}

/// The state after the history messages `msgs` of configured channel `ci`:
/// each message not yet seen raises the watermark to its timestamp and is
/// kept.
pub open spec fn absorb_history(st: PullState, ci: usize, channel: Seq<char>, msgs: Seq<SlackHistoryMessage>) -> PullState
    decreases msgs.len(),
{
    if msgs.len() == 0 {
        st
    } else {
        let (seen, marks, origins) = absorb_history(st, ci, channel, msgs.drop_last());
        let m = msgs.last();
        let key = (channel, m.ts@, m.ts@);
        if seen.contains(key) {
            (seen, marks, origins)
        } else {
            (seen.push(key), upsert(marks, channel, m.ts@, false), origins.push(Origin::History(ci, m)))
        }
    }
}

/// The watermarks of a cursor; a later mark of a channel replaces an earlier.
pub open spec fn load_marks(w: Seq<SlackWatermark>) -> Seq<(Seq<char>, Seq<char>)>
    decreases w.len(),
{
    if w.len() == 0 {
        Seq::empty()
    } else {
        upsert(load_marks(w.drop_last()), w.last().channel@, w.last().timestamp@, true)
    }
}

/// No key is seen twice, and each observation added one key.
pub open spec fn keys_unique(st: PullState) -> bool {
    forall|i: int, j: int| 0 <= i < j < st.0.len() ==> st.0[i] != st.0[j]
}

/// A message revision is observed at most once in a pull, whether it came
/// through the socket or the history, however often it came.
pub proof fn lemma_absorb_unique(st: PullState, envs: Seq<SlackSocketEnvelope>, ci: usize, channel: Seq<char>, msgs: Seq<SlackHistoryMessage>)
    requires
        keys_unique(st),
    ensures
        keys_unique(absorb_socket(st, envs)),
        keys_unique(absorb_history(st, ci, channel, msgs)),
        absorb_socket(st, envs).0.len() - st.0.len() == absorb_socket(st, envs).2.len() - st.2.len(),
        absorb_history(st, ci, channel, msgs).0.len() - st.0.len() == absorb_history(st, ci, channel, msgs).2.len()
            - st.2.len(),
    decreases envs.len() + msgs.len(),
{
    if envs.len() > 0 {
        lemma_absorb_unique(st, envs.drop_last(), ci, channel, msgs);
        let (seen, marks, origins) = absorb_socket(st, envs.drop_last());
        let p = envs.last().payload;
        let key = (p.event.spec_channel(), p.event.spec_object_timestamp(), p.event.spec_revision());
        if !seen.contains(key) {
            lemma_push_key(seen, key);
        }
    }
    if msgs.len() > 0 {
        lemma_absorb_unique(st, Seq::empty(), ci, channel, msgs.drop_last());
        let (seen, marks, origins) = absorb_history(st, ci, channel, msgs.drop_last());
        let m = msgs.last();
        let key = (channel, m.ts@, m.ts@);
        if !seen.contains(key) {
            lemma_push_key(seen, key);
        }
    }
}

proof fn lemma_push_key(seen: Seq<(Seq<char>, Seq<char>, Seq<char>)>, key: (Seq<char>, Seq<char>, Seq<char>))
    requires
        forall|i: int, j: int| 0 <= i < j < seen.len() ==> seen[i] != seen[j],
        !seen.contains(key),
    ensures
        forall|i: int, j: int| 0 <= i < j < seen.push(key).len() ==> seen.push(key)[i] != seen.push(key)[j],
{
    let s = seen.push(key);
    assert forall|i: int, j: int| 0 <= i < j < s.len() implies s[i] != s[j] by {
        assert(s[i] == seen[i]);
        if j < seen.len() {
            assert(s[j] == seen[j]);
        }
    }
}

/// A cursor's watermarks, once loaded, are ordered by channel.
pub proof fn lemma_load_marks_ordered(w: Seq<SlackWatermark>)
    ensures
        keys_ordered(load_marks(w)),
    decreases w.len(),
{
    if w.len() > 0 {
        lemma_load_marks_ordered(w.drop_last());
        lemma_upsert_ordered(load_marks(w.drop_last()), w.last().channel@, w.last().timestamp@, true);
    }
}

/// Socket envelopes keep the watermarks ordered by channel.
pub proof fn lemma_absorb_socket_ordered(st: PullState, envs: Seq<SlackSocketEnvelope>)
    requires
        keys_ordered(st.1),
    ensures
        keys_ordered(absorb_socket(st, envs).1),
    decreases envs.len(),
{
    if envs.len() > 0 {
        lemma_absorb_socket_ordered(st, envs.drop_last());
        let (seen, marks, origins) = absorb_socket(st, envs.drop_last());
        let p = envs.last().payload;
        lemma_upsert_ordered(marks, p.event.spec_channel(), p.event.spec_event_timestamp(), false);
    }
}

/// History messages keep the watermarks ordered by channel.
pub proof fn lemma_absorb_history_ordered(st: PullState, ci: usize, channel: Seq<char>, msgs: Seq<SlackHistoryMessage>)
    requires
        keys_ordered(st.1),
    ensures
        keys_ordered(absorb_history(st, ci, channel, msgs).1),
    decreases msgs.len(),
{
    if msgs.len() > 0 {
        lemma_absorb_history_ordered(st, ci, channel, msgs.drop_last());
        let (seen, marks, origins) = absorb_history(st, ci, channel, msgs.drop_last());
        lemma_upsert_ordered(marks, channel, msgs.last().ts@, false);
    }
}

/// The history request of `channel` from `oldest`, continuing at `page`
/// when it is not empty.
pub open spec fn history_parts(channel: Seq<char>, oldest: Seq<char>, page: Seq<char>) -> (
    HttpMethod,
    Seq<char>,
    Seq<(Seq<char>, Seq<char>)>,
    Option<Seq<u8>>,
) {
    let base = seq![
        ("channel"@, channel),
        ("oldest"@, oldest),
        ("inclusive"@, "false"@),
        ("limit"@, "200"@),
    ];
    (
        HttpMethod::Get,
        "/api/conversations.history"@,
        if page.len() == 0 { base } else { base.push(("cursor"@, page)) },
        None,
    )
}

/// The Slack connector of one workspace and its selected channels.
pub struct SlackConnector<T> {
    http: T,
    team_id: String,
    channels: Vec<String>,
    socket: VecDeque<SlackSocketEnvelope>,
    seen_events: Vec<String>,
}

impl<T> SlackConnector<T> {
    pub closed spec fn spec_http(&self) -> T {
        self.http
    }

    pub closed spec fn spec_team(&self) -> Seq<char> {
        self.team_id@
    }

    pub closed spec fn spec_channels(&self) -> Seq<Seq<char>> {
        self.channels@.map_values(|c: String| c@)
    }

    /// The envelopes waiting for the next pull, in arrival order.
    pub closed spec fn spec_socket(&self) -> Seq<SlackSocketEnvelope> {
        self.socket@
    }

    /// The event ids of every envelope accepted.
    pub closed spec fn spec_seen_events(&self) -> Seq<Seq<char>> {
        self.seen_events@.map_values(|e: String| e@)
    }

    /// A connector for workspace `team_id` reading `channels`; both must
    /// be nonempty, and so must every channel.
    pub fn new(http: T, team_id: &str, channels: &[&str]) -> (r: Result<Self, ProviderError>)
        ensures
            (team_id@.len() > 0 && channels@.len() > 0 && forall|i: int| 0 <= i < channels@.len() ==> (#[trigger] channels@[i])@.len() > 0)
                ==> (r matches Ok(c) && c.spec_http() == http && c.spec_team() == team_id@
                    && c.spec_channels() == channels@.map_values(|s: &str| s@)
                    && c.spec_socket().len() == 0 && c.spec_seen_events().len() == 0),
            !(team_id@.len() > 0 && channels@.len() > 0 && forall|i: int| 0 <= i < channels@.len() ==> (#[trigger] channels@[i])@.len() > 0)
                ==> (r matches Err(ProviderError::Protocol { provider, reason }) && provider@ == "slack"@
                    && reason@ == "team and selected channels must be nonempty"@),
    {
        let mut owned: Vec<String> = Vec::new();
        let mut all_nonempty = true;
        let mut i: usize = 0;
        while i < channels.len()
            invariant
                i <= channels@.len(),
                owned@.map_values(|c: String| c@) == channels@.take(i as int).map_values(|s: &str| s@),
                all_nonempty == forall|j: int| 0 <= j < i ==> (#[trigger] channels@[j])@.len() > 0,
            decreases channels@.len() - i,
        {
            let c: &str = channels[i];
            if c.unicode_len() == 0 {
                all_nonempty = false;
            }
            let ghost before = owned@;
            owned.push(c.to_owned());
            assert(owned@.map_values(|c: String| c@) =~= channels@.take(i + 1).map_values(|s: &str| s@)) by {
                assert(owned@ =~= before.push(owned@.last()));
                assert(owned@.map_values(|c: String| c@) =~= before.map_values(|c: String| c@).push(c@));
                assert(channels@.take(i + 1) =~= channels@.take(i as int).push(c));
                assert(channels@.take(i + 1).map_values(|s: &str| s@) =~= channels@.take(i as int).map_values(
                    |s: &str| s@,
                ).push(c@));
            }
            i = i + 1;
        }
        assert(channels@.take(channels@.len() as int) =~= channels@);
        if team_id.unicode_len() == 0 || channels.len() == 0 || !all_nonempty {
            return Err(protocol_error("slack", "team and selected channels must be nonempty"));
        }
        let r = SlackConnector {
            http,
            team_id: team_id.to_owned(),
            channels: owned,
            socket: VecDeque::new(),
            seen_events: Vec::new(),
        };
        assert(r.spec_seen_events() =~= Seq::empty());
        Ok(r)
    }

    /// Accept a Socket Mode envelope of this workspace; an event id seen
    /// before is dropped.
    pub fn push_socket(&mut self, envelope: SlackSocketEnvelope) -> (r: Result<(), ProviderError>)
        ensures
            final(self).spec_http() == old(self).spec_http(),
            final(self).spec_team() == old(self).spec_team(),
            final(self).spec_channels() == old(self).spec_channels(),
            envelope.payload.team_id@ != old(self).spec_team() ==> (r matches Err(ProviderError::Protocol { provider, reason })
                && provider@ == "slack"@ && reason@ == "Socket Mode event belongs to another workspace"@
                && final(self).spec_socket() == old(self).spec_socket()
                && final(self).spec_seen_events() == old(self).spec_seen_events()),
            envelope.payload.team_id@ == old(self).spec_team() ==> r is Ok && (if old(self).spec_seen_events().contains(
                envelope.payload.event_id@,
            ) {
                final(self).spec_socket() == old(self).spec_socket() && final(self).spec_seen_events()
                    == old(self).spec_seen_events()
            } else {
                final(self).spec_socket() == old(self).spec_socket().push(envelope) && final(self).spec_seen_events()
                    == old(self).spec_seen_events().push(envelope.payload.event_id@)
            }),
    {
        if !same_text(envelope.payload.team_id.as_str(), self.team_id.as_str()) {
            return Err(protocol_error("slack", "Socket Mode event belongs to another workspace"));
        }
        let seen = has_text(&self.seen_events, envelope.payload.event_id.as_str());
        proof {
            if old(self).spec_seen_events().contains(envelope.payload.event_id@) {
                let j = choose|j: int| 0 <= j < old(self).spec_seen_events().len() && old(self).spec_seen_events()[j] == envelope.payload.event_id@;
                assert(self.seen_events@[j]@ == envelope.payload.event_id@);
            }
            if seen {
                let j = choose|j: int| 0 <= j < self.seen_events@.len() && (#[trigger] self.seen_events@[j])@ == envelope.payload.event_id@;
                assert(self.spec_seen_events()[j] == envelope.payload.event_id@);
            }
        }
        if !seen {
            let ghost before = self.seen_events@;
            self.seen_events.push(envelope.payload.event_id.clone());
            assert(self.spec_seen_events() =~= old(self).spec_seen_events().push(envelope.payload.event_id@)) by {
                assert(self.seen_events@ =~= before.push(self.seen_events@.last()));
            }
            self.socket.push_back(envelope);
        }
        Ok(())
    }

    /// The transport, for performing the requests of a pull.
    pub fn transport(&mut self) -> (t: &mut T)
        ensures
            *t == old(self).spec_http(),
            final(self).spec_http() == *final(t),
            final(self).spec_team() == old(self).spec_team(),
            final(self).spec_channels() == old(self).spec_channels(),
            final(self).spec_socket() == old(self).spec_socket(),
            final(self).spec_seen_events() == old(self).spec_seen_events(),
    {
        &mut self.http
    }

    pub fn into_inner(self) -> (t: T)
        ensures
            t == self.spec_http(),
    {
        self.http
    }

    /// Begin a pull from `cursor`: take every waiting envelope, then read
    /// each selected channel's history from its watermark.
    pub fn begin_pull(&mut self, cursor: Option<&SlackCursor>) -> (p: SlackPull)
        ensures
            final(self).spec_http() == old(self).spec_http(),
            final(self).spec_team() == old(self).spec_team(),
            final(self).spec_channels() == old(self).spec_channels(),
            final(self).spec_socket().len() == 0,
            final(self).spec_seen_events() == old(self).spec_seen_events(),
            p.wf(),
            p.spec_team() == old(self).spec_team(),
            p.spec_channels().map_values(|c: String| c@) == old(self).spec_channels(),
            (p.spec_seen(), p.spec_marks(), p.spec_origins()) == absorb_socket(
                (
                    Seq::empty(),
                    match cursor {
                        Some(c) => load_marks(c.watermarks@),
                        None => Seq::empty(),
                    },
                    Seq::empty(),
                ),
                old(self).spec_socket(),
            ),
            keys_ordered(p.spec_marks()),
            p.spec_channel() == 0,
            old(self).spec_channels().len() > 0 ==> p.spec_oldest() == match mark_of(p.spec_marks(), old(self).spec_channels()[0]) {
                Some(m) => m,
                None => "0"@,
            },
            p.spec_page().len() == 0,
    {
        let mut marks: Vec<(String, String)> = Vec::new();
        match cursor {
            Some(c) => {
                let mut i: usize = 0;
                assert(pairs_view(marks@) =~= load_marks(c.watermarks@.take(0)));
                while i < c.watermarks.len()
                    invariant
                        i <= c.watermarks@.len(),
                        pairs_view(marks@) == load_marks(c.watermarks@.take(i as int)),
                    decreases c.watermarks@.len() - i,
                {
                    upsert_mark(&mut marks, c.watermarks[i].channel.as_str(), c.watermarks[i].timestamp.as_str(), true);
                    assert(c.watermarks@.take(i + 1).drop_last() =~= c.watermarks@.take(i as int));
                    i = i + 1;
                }
                assert(c.watermarks@.take(c.watermarks@.len() as int) =~= c.watermarks@);
            },
            None => {
                assert(pairs_view(marks@) =~= Seq::<(Seq<char>, Seq<char>)>::empty());
            },
        }
        let mut seen: Vec<(String, String, String)> = Vec::new();
        let mut observations: Vec<SlackEvent> = Vec::new();
        let ghost mut origins: Seq<Origin> = Seq::empty();
        let ghost queue = self.socket@;
        let ghost start: PullState = (Seq::empty(), pairs_view(marks@), Seq::empty());
        let ghost channels = self.channels@;
        let ghost mut taken: int = 0;
        assert(keys_view(seen@) =~= Seq::<(Seq<char>, Seq<char>, Seq<char>)>::empty());
        assert(queue.take(0) =~= Seq::<SlackSocketEnvelope>::empty());
        while self.socket.len() > 0
            invariant
                0 <= taken <= queue.len(),
                self.socket@ == queue.skip(taken),
                self.channels@ == channels,
                self.http == old(self).http,
                self.team_id == old(self).team_id,
                self.seen_events == old(self).seen_events,
                (keys_view(seen@), pairs_view(marks@), origins) == absorb_socket(start, queue.take(taken)),
                observations@.len() == origins.len(),
                forall|i: int| 0 <= i < origins.len() ==> from_origin(#[trigger] observations@[i], origins[i], self.team_id@, channels),
            decreases self.socket@.len(),
        {
            let envelope = self.socket.pop_front().unwrap();
            assert(envelope == queue[taken]);
            assert(queue.take(taken + 1).drop_last() =~= queue.take(taken));
            assert(queue.skip(taken + 1) =~= queue.skip(taken).drop_first());
            let payload = envelope.payload;
            let fresh = !has_key(&seen, payload.event.channel(), payload.event.object_timestamp(), payload.event.semantic_revision());
            if fresh {
                let ghost before = seen@;
                seen.push((
                    payload.event.channel().to_owned(),
                    payload.event.object_timestamp().to_owned(),
                    payload.event.semantic_revision().to_owned(),
                ));
                assert(keys_view(seen@) =~= keys_view(before).push(
                    (payload.event.spec_channel(), payload.event.spec_object_timestamp(), payload.event.spec_revision()),
                ));
                upsert_mark(&mut marks, payload.event.channel(), payload.event.event_timestamp(), false);
                proof {
                    origins = origins.push(Origin::Socket(payload));
                }
                let SlackEventPayload { event_id, team_id, event } = payload;
                observations.push(SlackEvent { event_id, team_id, message: event });
            }
            proof {
                taken = taken + 1;
            }
        }
        assert(queue.take(taken) =~= queue);
        proof {
            match cursor {
                Some(c) => lemma_load_marks_ordered(c.watermarks@),
                None => {},
            }
            lemma_absorb_socket_ordered(start, queue);
        }
        let first = if self.channels.len() > 0 {
            mark_or(&marks, self.channels[0].as_str(), "0")
        } else {
            "0".to_owned()
        };
        SlackPull {
            team_id: self.team_id.clone(),
            channels: clone_texts(&self.channels),
            marks,
            seen,
            observations,
            origins: Ghost(origins),
            channel: 0,
            oldest: first,
            page: String::new(),
        }
    }
}

fn clone_texts(v: &Vec<String>) -> (r: Vec<String>)
    ensures
        r@ == v@,
{
    let mut r: Vec<String> = Vec::new();
    let mut i: usize = 0;
    while i < v.len()
        invariant
            i <= v@.len(),
            r@ == v@.take(i as int),
        decreases v@.len() - i,
    {
        r.push(v[i].clone());
        assert(v@.take(i + 1) =~= v@.take(i as int).push(v@[i as int]));
        i = i + 1;
    }
    assert(v@.take(v@.len() as int) =~= v@);
    r
}

/// A Slack pull in progress: the Socket Mode part is done; the history of
/// each selected channel is read page by page.
pub struct SlackPull {
    team_id: String,
    channels: Vec<String>,
    marks: Vec<(String, String)>,
    seen: Vec<(String, String, String)>,
    observations: Vec<SlackEvent>,
    origins: Ghost<Seq<Origin>>,
    channel: usize,
    oldest: String,
    page: String,
}

impl SlackPull {
    /// The observations so far come from their origins, and the channel
    /// index is in range.
    pub closed spec fn wf(&self) -> bool {
        &&& self.channel <= self.channels@.len()
        &&& self.observations@.len() == self.origins@.len()
        &&& forall|i: int|
            0 <= i < self.origins@.len() ==> from_origin(
                #[trigger] self.observations@[i],
                self.origins@[i],
                self.team_id@,
                self.channels@,
            )
    }

    pub closed spec fn spec_team(&self) -> Seq<char> {
        self.team_id@
    }

    pub closed spec fn spec_channels(&self) -> Seq<String> {
        self.channels@
    }

    pub closed spec fn spec_marks(&self) -> Seq<(Seq<char>, Seq<char>)> {
        pairs_view(self.marks@)
    }

    pub closed spec fn spec_seen(&self) -> Seq<(Seq<char>, Seq<char>, Seq<char>)> {
        keys_view(self.seen@)
    }

    pub closed spec fn spec_origins(&self) -> Seq<Origin> {
        self.origins@
    }

    pub closed spec fn spec_observations(&self) -> Seq<SlackEvent> {
        self.observations@
    }

    /// The index of the channel being read.
    pub closed spec fn spec_channel(&self) -> nat {
        self.channel as nat
    }

    /// The watermark the current channel is read from.
    pub closed spec fn spec_oldest(&self) -> Seq<char> {
        self.oldest@
    }

    /// The page token of the next request, empty for the first page.
    pub closed spec fn spec_page(&self) -> Seq<char> {
        self.page@
    }

    /// The next history request, or `None` once every channel was read.
    pub fn next_request(&self) -> (r: Option<HttpRequest>)
        requires
            self.wf(),
        ensures
            self.spec_channel() < self.spec_channels().len() ==> (r matches Some(q) && q.spec_parts() == history_parts(
                self.spec_channels()[self.spec_channel() as int]@,
                self.spec_oldest(),
                self.spec_page(),
            )),
            self.spec_channel() >= self.spec_channels().len() ==> r is None,
    {
        if self.channel >= self.channels.len() {
            return None;
        }
        let channel = self.channels[self.channel].as_str();
        let q = HttpRequest::get("/api/conversations.history")
            .query("channel", channel)
            .query("oldest", self.oldest.as_str())
            .query("inclusive", "false")
            .query("limit", "200");
        let ghost base = seq![
            ("channel"@, channel@),
            ("oldest"@, self.oldest@),
            ("inclusive"@, "false"@),
            ("limit"@, "200"@),
        ];
        assert(query_view(q.query@) =~= base);
        if self.page.unicode_len() == 0 {
            Some(q)
        } else {
            let q = q.query("cursor", self.page.as_str());
            Some(q)
        }
    }

    /// Take one page of the current channel's history; a response that is
    /// not `ok` ends the pull with an error.
    pub fn receive(&mut self, response: SlackHistoryResponse) -> (r: Result<(), ProviderError>)
        requires
            old(self).wf(),
            old(self).spec_channel() < old(self).spec_channels().len(),
        ensures
            !response.ok ==> (r matches Err(ProviderError::Protocol { provider, reason }) && provider@ == "slack"@
                && reason@ == "conversations.history returned ok=false"@),
            response.ok ==> {
                let ci = old(self).spec_channel();
                let next = response.response_metadata.next_cursor@;
                &&& r is Ok
                &&& final(self).wf()
                &&& final(self).spec_team() == old(self).spec_team()
                &&& final(self).spec_channels() == old(self).spec_channels()
                &&& keys_ordered(old(self).spec_marks()) ==> keys_ordered(final(self).spec_marks())
                &&& (final(self).spec_seen(), final(self).spec_marks(), final(self).spec_origins()) == absorb_history(
                    (old(self).spec_seen(), old(self).spec_marks(), old(self).spec_origins()),
                    ci as usize,
                    old(self).spec_channels()[ci as int]@,
                    response.messages@,
                )
                &&& next.len() > 0 ==> final(self).spec_channel() == ci && final(self).spec_page() == next
                    && final(self).spec_oldest() == old(self).spec_oldest()
                &&& next.len() == 0 ==> final(self).spec_channel() == ci + 1 && final(self).spec_page().len() == 0
                    && (ci + 1 < old(self).spec_channels().len() ==> final(self).spec_oldest() == match mark_of(
                        final(self).spec_marks(),
                        old(self).spec_channels()[(ci + 1) as int]@,
                    ) {
                        Some(m) => m,
                        None => "0"@,
                    })
            },
    {
        if !response.ok {
            return Err(protocol_error("slack", "conversations.history returned ok=false"));
        }
        let ci = self.channel;
        let ghost channel = self.channels@[ci as int]@;
        let ghost start: PullState = (keys_view(self.seen@), pairs_view(self.marks@), self.origins@);
        let ghost msgs = response.messages@;
        let mut i: usize = 0;
        assert(msgs.take(0) =~= Seq::<SlackHistoryMessage>::empty());
        while i < response.messages.len()
            invariant
                msgs == response.messages@,
                i <= msgs.len(),
                ci == old(self).channel,
                ci < self.channels@.len(),
                channel == self.channels@[ci as int]@,
                self.channels@ == old(self).channels@,
                self.team_id == old(self).team_id,
                self.channel == old(self).channel,
                self.oldest == old(self).oldest,
                self.page == old(self).page,
                self.wf(),
                (keys_view(self.seen@), pairs_view(self.marks@), self.origins@) == absorb_history(
                    start,
                    ci,
                    channel,
                    msgs.take(i as int),
                ),
            decreases msgs.len() - i,
        {
            let m = &response.messages[i];
            let channel_text = self.channels[ci].as_str();
            assert(msgs.take(i + 1).drop_last() =~= msgs.take(i as int));
            if !has_key(&self.seen, channel_text, m.ts.as_str(), m.ts.as_str()) {
                let ghost before = self.seen@;
                self.seen.push((self.channels[ci].clone(), m.ts.clone(), m.ts.clone()));
                assert(keys_view(self.seen@) =~= keys_view(before).push((channel, m.ts@, m.ts@)));
                upsert_mark(&mut self.marks, self.channels[ci].as_str(), m.ts.as_str(), false);
                let mut event_id = String::new();
                append(&mut event_id, "history:");
                append(&mut event_id, self.channels[ci].as_str());
                append(&mut event_id, ":");
                append(&mut event_id, m.ts.as_str());
                let event = SlackEvent {
                    event_id,
                    team_id: self.team_id.clone(),
                    message: SlackMessageEvent::Posted(SlackPostedEvent {
                        event_type: m.message_type.clone(),
                        channel: self.channels[ci].clone(),
                        user: m.user.clone(),
                        text: m.text.clone(),
                        ts: m.ts.clone(),
                        thread_ts: m.thread_ts.clone(),
                        event_ts: String::new(),
                    }),
                };
                let ghost origin = Origin::History(ci, *m);
                assert(from_origin(event, origin, self.team_id@, self.channels@));
                self.observations.push(event);
                proof {
                    self.origins@ = self.origins@.push(origin);
                }
            }
            i = i + 1;
        }
        assert(msgs.take(msgs.len() as int) =~= msgs);
        proof {
            if keys_ordered(start.1) {
                lemma_absorb_history_ordered(start, ci, channel, msgs);
            }
        }
        let next = response.response_metadata.next_cursor;
        if next.unicode_len() > 0 {
            self.page = next;
        } else {
            let n = self.channels.len();
            assert(ci < n);
            self.channel = ci + 1;
            self.page = String::new();
            if ci + 1 < self.channels.len() {
                self.oldest = mark_or(&self.marks, self.channels[ci + 1].as_str(), "0");
            }
        }
        Ok(())
    }

    /// The batch and the next cursor: every observation, and the
    /// watermarks ordered by channel.
    pub fn finish(self) -> (r: TypedPullBatch<SlackCursor, SlackEvent>)
        requires
            self.wf(),
        ensures
            r.observations@.len() == self.spec_origins().len(),
            forall|i: int| 0 <= i < r.observations@.len() ==> from_origin(
                #[trigger] r.observations@[i],
                self.spec_origins()[i],
                self.spec_team(),
                self.spec_channels(),
            ),
            watermarks_view(r.next_cursor.watermarks@) == self.spec_marks(),
    {
        let mut watermarks: Vec<SlackWatermark> = Vec::new();
        let mut i: usize = 0;
        while i < self.marks.len()
            invariant
                i <= self.marks@.len(),
                watermarks_view(watermarks@) == pairs_view(self.marks@).take(i as int),
            decreases self.marks@.len() - i,
        {
            let ghost before = watermarks@;
            watermarks.push(SlackWatermark { channel: self.marks[i].0.clone(), timestamp: self.marks[i].1.clone() });
            assert(watermarks_view(watermarks@) =~= pairs_view(self.marks@).take(i + 1)) by {
                assert(watermarks@ =~= before.push(watermarks@.last()));
                assert(watermarks_view(watermarks@) =~= watermarks_view(before).push(
                    (self.marks@[i as int].0@, self.marks@[i as int].1@),
                ));
                assert(pairs_view(self.marks@).take(i + 1) =~= pairs_view(self.marks@).take(i as int).push(
                    pairs_view(self.marks@)[i as int],
                ));
            }
            i = i + 1;
        }
        assert(pairs_view(self.marks@).take(self.marks@.len() as int) =~= pairs_view(self.marks@));
        let observations = self.observations;
        TypedPullBatch { observations, next_cursor: SlackCursor { watermarks } }
    }
}

} // verus!
