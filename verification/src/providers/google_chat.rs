//! Google Chat: `spaceEvents.list` reconciliation per selected space.

use vstd::prelude::*;

use std::collections::VecDeque;

use crate::connector::{
    Capability, ConnectorDescriptor, ConnectorError, ConnectorKey, EffectRequest, NormalizedObservation,
    ObservationKind, SourceClass, TypedPullBatch,
};
use crate::http::{query_view, HttpMethod, HttpRequest};
use crate::providers::common::{
    digest, into_queue, keys_ordered, lemma_upsert_ordered, mark_of, mark_or, millis_result, pairs_view, parse_millis,
    protocol_error, rfc3339_nanos, spec_digest, spec_millis, upsert, upsert_mark, ProviderError,
};
use crate::text::{append, same_text};

verus! {

#[derive(Debug, Clone, PartialEq, Eq)]
pub struct ChatWatermark {
    pub space: String,
    pub event_time: String,
}

/// The newest event time seen in each space, ordered by space.
#[derive(Debug, Clone, PartialEq, Eq)]
pub struct GoogleChatCursor {
    pub watermarks: Vec<ChatWatermark>,
}

/// Watermarks as (space, event time) pairs.
pub open spec fn chat_marks_view(w: Seq<ChatWatermark>) -> Seq<(Seq<char>, Seq<char>)> {
    w.map_values(|m: ChatWatermark| (m.space@, m.event_time@))
}

#[derive(Debug, Clone, PartialEq, Eq)]
pub struct SpaceEventsResponse {
    pub space_events: Vec<ChatSpaceEvent>,
    pub next_page_token: String,
}

#[derive(Debug, Clone, PartialEq, Eq)]
pub struct ChatSpaceEvent {
    pub name: String,
    pub event_time: String,
    pub event_type: String,
    pub message: ChatMessage,
}

#[derive(Debug, Clone, PartialEq, Eq)]
pub struct ChatMessage {
    pub name: String,
    pub thread: ChatThread,
    pub sender: ChatUser,
    pub create_time: String,
    pub last_update_time: String,
    pub text: String,
    pub argument_text: String,
}

#[derive(Debug, Clone, PartialEq, Eq)]
pub struct ChatThread {
    pub name: String,
}

#[derive(Debug, Clone, PartialEq, Eq)]
pub struct ChatUser {
    pub name: String,
    pub display_name: String,
}

/// A space event seen by a user, with its time in milliseconds.
#[derive(Debug, Clone, PartialEq, Eq)]
pub struct GoogleChatEvent {
    pub user: String,
    pub event: ChatSpaceEvent,
    pub occurred_at: i64,
}

/// An update event is an update, a deletion a deletion; any other event
/// is a mention when its message has argument text, else a new message.
pub open spec fn spec_kind(event: ChatSpaceEvent) -> ObservationKind {
    if event.event_type@ == "google.workspace.chat.message.v1.updated"@ {
        ObservationKind::Updated
    } else if event.event_type@ == "google.workspace.chat.message.v1.deleted"@ {
        ObservationKind::Deleted
    } else if event.message.argument_text@.len() > 0 {
        ObservationKind::Mentioned
    } else {
        ObservationKind::Created
    }
}

/// The digests that name a chat event: the user, the message, its thread
/// and the event. `payload` is the message's JSON document.
pub fn observation(event: &GoogleChatEvent, payload: &[u8]) -> (o: NormalizedObservation)
    ensures
        o.account.0@ == spec_digest("gchat-user"@, seq![vstd::utf8::encode_utf8(event.user@)]),
        o.object.0@ == spec_digest("gchat-message"@, seq![vstd::utf8::encode_utf8(event.event.message.name@)]),
        o.thread.0@ == spec_digest("gchat-thread"@, seq![vstd::utf8::encode_utf8(event.event.message.thread.name@)]),
        o.event.0@ == spec_digest("gchat-event"@, seq![vstd::utf8::encode_utf8(event.event.name@)]),
        o.payload.0@ == spec_digest("gchat-payload"@, seq![payload@]),
        o.kind == spec_kind(event.event),
        o.occurred_at == event.occurred_at,
{
    let t = event.event.event_type.as_str();
    let kind = if same_text(t, "google.workspace.chat.message.v1.updated") {
        ObservationKind::Updated
    } else if same_text(t, "google.workspace.chat.message.v1.deleted") {
        ObservationKind::Deleted
    } else if event.event.message.argument_text.unicode_len() > 0 {
        ObservationKind::Mentioned
    } else {
        ObservationKind::Created
    };
    NormalizedObservation {
        account: digest("gchat-user", event.user.as_str().as_bytes()),
        object: digest("gchat-message", event.event.message.name.as_str().as_bytes()),
        thread: digest("gchat-thread", event.event.message.thread.name.as_str().as_bytes()),
        event: digest("gchat-event", event.event.name.as_str().as_bytes()),
        payload: digest("gchat-payload", payload),
        kind,
        occurred_at: event.occurred_at,
    }
}

/// Google Chat takes no effects: no value of this type is ever made.
#[derive(Debug)]
pub struct GoogleChatEffect {
    unmade: (),
}

impl GoogleChatEffect {
    /// No effect request is for Google Chat.
    pub fn from_request(request: EffectRequest) -> (r: Result<GoogleChatEffect, ConnectorError>)
        ensures
            r matches Err(ConnectorError::EffectForAnotherProvider),
    {
        Err(ConnectorError::EffectForAnotherProvider)
    }
}

/// The descriptor: key `google-chat`, a workspace chat that only
/// reconciles.
pub fn descriptor() -> (d: ConnectorDescriptor)
    ensures
        crate::rollout::BuiltinConnector::GoogleChat.row_descriptor(d),
{
    proof {
        reveal_strlit("google-chat");
    }
    let capabilities: &'static [Capability] = &[Capability::Reconcile];
    assert(capabilities@ =~= seq![Capability::Reconcile]);
    ConnectorDescriptor {
        key: ConnectorKey::new("google-chat"),
        label: "Google Chat",
        class: SourceClass::WorkspaceChat,
        capabilities,
    }
}

/// The event types a pull asks for.
pub open spec fn event_types() -> Seq<char> {
    "google.workspace.chat.message.v1.created,google.workspace.chat.message.v1.updated,google.workspace.chat.message.v1.deleted"@
}

/// The request for the events of `space` after `after`, continuing at
/// `page` when it is not empty.
pub open spec fn space_events_parts(space: Seq<char>, after: Seq<char>, page: Seq<char>) -> (
    HttpMethod,
    Seq<char>,
    Seq<(Seq<char>, Seq<char>)>,
    Option<Seq<u8>>,
) {
    let base = seq![
        ("filter"@, "eventTime > \""@ + after + "\""@),
        ("eventTypes"@, event_types()),
        ("pageSize"@, "1000"@),
    ];
    (
        HttpMethod::Get,
        "/chat/v1/"@ + space + "/spaceEvents"@,
        if page.len() == 0 { base } else { base.push(("pageToken"@, page)) },
        None,
    )
}

/// The watermarks of a cursor; a later mark of a space replaces an earlier.
pub open spec fn load_chat_marks(w: Seq<ChatWatermark>) -> Seq<(Seq<char>, Seq<char>)>
    decreases w.len(),
{
    if w.len() == 0 {
        Seq::empty()
    } else {
        upsert(load_chat_marks(w.drop_last()), w.last().space@, w.last().event_time@, true)
    }
}

/// The position of the first event whose time is unusable, or -1.
pub open spec fn first_bad_event(events: Seq<ChatSpaceEvent>) -> int
    decreases events.len(),
{
    if events.len() == 0 {
        -1
    } else {
        let i = first_bad_event(events.drop_last());
        if i >= 0 {
            i
        } else if spec_millis(rfc3339_nanos(events.last().event_time@), "eventTime"@) is Err {
            events.len() - 1
        } else {
            -1
        }
    }
}

/// The marks after raising `space` to each event's time in turn.
pub open spec fn raise_all(marks: Seq<(Seq<char>, Seq<char>)>, space: Seq<char>, events: Seq<ChatSpaceEvent>) -> Seq<(Seq<char>, Seq<char>)>
    decreases events.len(),
{
    if events.len() == 0 {
        marks
    } else {
        upsert(raise_all(marks, space, events.drop_last()), space, events.last().event_time@, false)
    }
}

/// A cursor's watermarks, once loaded, are ordered by space.
pub proof fn lemma_load_chat_marks_ordered(w: Seq<ChatWatermark>)
    ensures
        keys_ordered(load_chat_marks(w)),
    decreases w.len(),
{
    if w.len() > 0 {
        lemma_load_chat_marks_ordered(w.drop_last());
        lemma_upsert_ordered(load_chat_marks(w.drop_last()), w.last().space@, w.last().event_time@, true);
    }
}

/// Space events keep the watermarks ordered by space.
pub proof fn lemma_raise_all_ordered(marks: Seq<(Seq<char>, Seq<char>)>, space: Seq<char>, events: Seq<ChatSpaceEvent>)
    requires
        keys_ordered(marks),
    ensures
        keys_ordered(raise_all(marks, space, events)),
    decreases events.len(),
{
    if events.len() > 0 {
        lemma_raise_all_ordered(marks, space, events.drop_last());
        lemma_upsert_ordered(raise_all(marks, space, events.drop_last()), space, events.last().event_time@, false);
    }
}

/// The time of an event whose time is usable.
pub open spec fn event_millis(e: ChatSpaceEvent) -> i64 {
    spec_millis(rfc3339_nanos(e.event_time@), "eventTime"@)->Ok_0
}

/// The Google Chat connector of one user and the spaces selected.
pub struct GoogleChatConnector<T> {
    http: T,
    user: String,
    spaces: Vec<String>,
}

impl<T> GoogleChatConnector<T> {
    pub closed spec fn spec_http(&self) -> T {
        self.http
    }

    pub closed spec fn spec_user(&self) -> String {
        self.user
    }

    pub closed spec fn spec_spaces(&self) -> Seq<String> {
        self.spaces@
    }

    /// A connector for `user` reading `spaces`; both must be nonempty, and
    /// so must every space.
    pub fn new(http: T, user: &str, spaces: &[&str]) -> (r: Result<Self, ProviderError>)
        ensures
            (user@.len() > 0 && spaces@.len() > 0 && forall|i: int| 0 <= i < spaces@.len() ==> (#[trigger] spaces@[i])@.len() > 0)
                ==> (r matches Ok(c) && c.spec_http() == http && c.spec_user()@ == user@
                    && c.spec_spaces().map_values(|s: String| s@) == spaces@.map_values(|s: &str| s@)),
            !(user@.len() > 0 && spaces@.len() > 0 && forall|i: int| 0 <= i < spaces@.len() ==> (#[trigger] spaces@[i])@.len() > 0)
                ==> (r matches Err(ProviderError::Protocol { provider, reason }) && provider@ == "google-chat"@
                    && reason@ == "user and selected spaces must be nonempty"@),
    {
        let mut owned: Vec<String> = Vec::new();
        let mut all_nonempty = true;
        let mut i: usize = 0;
        while i < spaces.len()
            invariant
                i <= spaces@.len(),
                owned@.map_values(|c: String| c@) == spaces@.take(i as int).map_values(|s: &str| s@),
                all_nonempty == forall|j: int| 0 <= j < i ==> (#[trigger] spaces@[j])@.len() > 0,
            decreases spaces@.len() - i,
        {
            let c: &str = spaces[i];
            if c.unicode_len() == 0 {
                all_nonempty = false;
            }
            let ghost before = owned@;
            owned.push(c.to_owned());
            assert(owned@.map_values(|c: String| c@) =~= spaces@.take(i + 1).map_values(|s: &str| s@)) by {
                assert(owned@ =~= before.push(owned@.last()));
                assert(owned@.map_values(|c: String| c@) =~= before.map_values(|c: String| c@).push(c@));
                assert(spaces@.take(i + 1) =~= spaces@.take(i as int).push(c));
                assert(spaces@.take(i + 1).map_values(|s: &str| s@) =~= spaces@.take(i as int).map_values(
                    |s: &str| s@,
                ).push(c@));
            }
            i = i + 1;
        }
        assert(spaces@.take(spaces@.len() as int) =~= spaces@);
        if user.unicode_len() == 0 || spaces.len() == 0 || !all_nonempty {
            return Err(protocol_error("google-chat", "user and selected spaces must be nonempty"));
        }
        Ok(GoogleChatConnector { http, user: user.to_owned(), spaces: owned })
    }

    /// The transport, for performing the requests of a pull.
    pub fn transport(&mut self) -> (t: &mut T)
        ensures
            *t == old(self).spec_http(),
            final(self).spec_http() == *final(t),
            final(self).spec_user() == old(self).spec_user(),
            final(self).spec_spaces() == old(self).spec_spaces(),
    {
        &mut self.http
    }

    pub fn into_inner(self) -> (t: T)
        ensures
            t == self.spec_http(),
    {
        self.http
    }

    /// Begin a pull from `cursor`: each selected space is read from its
    /// watermark, or from the epoch.
    pub fn begin_pull(&self, cursor: Option<&GoogleChatCursor>) -> (p: GoogleChatPull)
        ensures
            p.spec_user() == self.spec_user(),
            p.spec_spaces() == self.spec_spaces(),
            p.spec_marks() == match cursor {
                Some(c) => load_chat_marks(c.watermarks@),
                None => Seq::empty(),
            },
            keys_ordered(p.spec_marks()),
            p.spec_observations().len() == 0,
            p.spec_space() == 0,
            p.spec_page().len() == 0,
            self.spec_spaces().len() > 0 ==> p.spec_after() == match mark_of(p.spec_marks(), self.spec_spaces()[0]@) {
                Some(m) => m,
                None => "1970-01-01T00:00:00Z"@,
            },
    {
        let mut marks: Vec<(String, String)> = Vec::new();
        match cursor {
            Some(c) => {
                let mut i: usize = 0;
                assert(pairs_view(marks@) =~= load_chat_marks(c.watermarks@.take(0)));
                while i < c.watermarks.len()
                    invariant
                        i <= c.watermarks@.len(),
                        pairs_view(marks@) == load_chat_marks(c.watermarks@.take(i as int)),
                    decreases c.watermarks@.len() - i,
                {
                    upsert_mark(&mut marks, c.watermarks[i].space.as_str(), c.watermarks[i].event_time.as_str(), true);
                    assert(c.watermarks@.take(i + 1).drop_last() =~= c.watermarks@.take(i as int));
                    i = i + 1;
                }
                assert(c.watermarks@.take(c.watermarks@.len() as int) =~= c.watermarks@);
            },
            None => {
                assert(pairs_view(marks@) =~= Seq::<(Seq<char>, Seq<char>)>::empty());
            },
        }
        proof {
            match cursor {
                Some(c) => lemma_load_chat_marks_ordered(c.watermarks@),
                None => {},
            }
        }
        let after = if self.spaces.len() > 0 {
            mark_or(&marks, self.spaces[0].as_str(), "1970-01-01T00:00:00Z")
        } else {
            "1970-01-01T00:00:00Z".to_owned()
        };
        GoogleChatPull {
            user: self.user.clone(),
            spaces: clone_spaces(&self.spaces),
            marks,
            observations: Vec::new(),
            space: 0,
            after,
            page: String::new(),
        }
    }
}

fn clone_spaces(v: &Vec<String>) -> (r: Vec<String>)
    ensures
        r@ == v@,
{
    let mut r: Vec<String> = Vec::new();
    let mut i: usize = 0;
    while i < v.len()
        invariant
            i <= v@.len(),
            r@ == v@.take(i as int),
        decreases v@.len() - i,
    {
        r.push(v[i].clone());
        assert(v@.take(i + 1) =~= v@.take(i as int).push(v@[i as int]));
        i = i + 1;
    }
    assert(v@.take(v@.len() as int) =~= v@);
    r
}

/// A Google Chat pull in progress.
pub struct GoogleChatPull {
    user: String,
    spaces: Vec<String>,
    marks: Vec<(String, String)>,
    observations: Vec<GoogleChatEvent>,
    space: usize,
    after: String,
    page: String,
}

impl GoogleChatPull {
    pub closed spec fn spec_user(&self) -> String {
        self.user
    }

    pub closed spec fn spec_spaces(&self) -> Seq<String> {
        self.spaces@
    }

    pub closed spec fn spec_marks(&self) -> Seq<(Seq<char>, Seq<char>)> {
        pairs_view(self.marks@)
    }

    pub closed spec fn spec_observations(&self) -> Seq<GoogleChatEvent> {
        self.observations@
    }

    /// The index of the space being read.
    pub closed spec fn spec_space(&self) -> nat {
        self.space as nat
    }

    /// The event time the current space is read after.
    pub closed spec fn spec_after(&self) -> Seq<char> {
        self.after@
    }

    pub closed spec fn spec_page(&self) -> Seq<char> {
        self.page@
    }

    /// The next request, or `None` once every space was read.
    pub fn next_request(&self) -> (r: Option<HttpRequest>)
        ensures
            self.spec_space() < self.spec_spaces().len() ==> (r matches Some(q) && q.spec_parts() == space_events_parts(
                self.spec_spaces()[self.spec_space() as int]@,
                self.spec_after(),
                self.spec_page(),
            )),
            self.spec_space() >= self.spec_spaces().len() ==> r is None,
    {
        if self.space >= self.spaces.len() {
            return None;
        }
        let space = self.spaces[self.space].as_str();
        let mut path = String::new();
        append(&mut path, "/chat/v1/");
        append(&mut path, space);
        append(&mut path, "/spaceEvents");
        let mut filter = String::new();
        append(&mut filter, "eventTime > \"");
        append(&mut filter, self.after.as_str());
        append(&mut filter, "\"");
        let q = HttpRequest::get(path.as_str()).query("filter", filter.as_str()).query(
            "eventTypes",
            "google.workspace.chat.message.v1.created,google.workspace.chat.message.v1.updated,google.workspace.chat.message.v1.deleted",
        ).query("pageSize", "1000");
        assert(query_view(q.query@) =~= seq![
            ("filter"@, "eventTime > \""@ + self.after@ + "\""@),
            ("eventTypes"@, event_types()),
            ("pageSize"@, "1000"@),
        ]);
        assert(path@ =~= "/chat/v1/"@ + space@ + "/spaceEvents"@);
        if self.page.unicode_len() == 0 {
            Some(q)
        } else {
            Some(q.query("pageToken", self.page.as_str()))
        }
    }

    /// Take one page of the current space's events: each event's time must
    /// be RFC 3339; each raises the space's watermark and is observed.
    pub fn receive(&mut self, response: SpaceEventsResponse) -> (r: Result<(), ProviderError>)
        requires
            old(self).spec_space() < old(self).spec_spaces().len(),
        ensures
            ({
                let events = response.space_events@;
                let bad = first_bad_event(events);
                let si = old(self).spec_space();
                let space = old(self).spec_spaces()[si as int]@;
                let next = response.next_page_token@;
                &&& bad >= 0 ==> r is Err && millis_result(
                    match r {
                        Ok(_) => Ok(0),
                        Err(e) => Err(e),
                    },
                    spec_millis(rfc3339_nanos(events[bad].event_time@), "eventTime"@),
                    "google-chat",
                )
                &&& bad < 0 ==> {
                    &&& r is Ok
                    &&& final(self).spec_user() == old(self).spec_user()
                    &&& final(self).spec_spaces() == old(self).spec_spaces()
                    &&& final(self).spec_marks() == raise_all(old(self).spec_marks(), space, events)
                    &&& keys_ordered(old(self).spec_marks()) ==> keys_ordered(final(self).spec_marks())
                    &&& final(self).spec_observations() == old(self).spec_observations() + events.map_values(
                        |e: ChatSpaceEvent| GoogleChatEvent { user: old(self).spec_user(), event: e, occurred_at: event_millis(e) },
                    )
                    &&& next.len() > 0 ==> final(self).spec_space() == si && final(self).spec_page() == next
                        && final(self).spec_after() == old(self).spec_after()
                    &&& next.len() == 0 ==> final(self).spec_space() == si + 1 && final(self).spec_page().len() == 0
                        && (si + 1 < old(self).spec_spaces().len() ==> final(self).spec_after() == match mark_of(
                            final(self).spec_marks(),
                            old(self).spec_spaces()[(si + 1) as int]@,
                        ) {
                            Some(m) => m,
                            None => "1970-01-01T00:00:00Z"@,
                        })
                }
            }),
    {
        let si = self.space;
        let ghost space = self.spaces@[si as int]@;
        let ghost start_marks = pairs_view(self.marks@);
        let ghost start_obs = self.observations@;
        let SpaceEventsResponse { space_events, next_page_token } = response;
        let ghost all = space_events@;
        let mut queue: VecDeque<ChatSpaceEvent> = into_queue(space_events);
        let ghost mut taken: int = 0;
        assert(all.take(0) =~= Seq::<ChatSpaceEvent>::empty());
        while queue.len() > 0
            invariant
                0 <= taken <= all.len(),
                queue@ == all.skip(taken),
                all == response.space_events@,
                si == old(self).space,
                si < self.spaces@.len(),
                space == self.spaces@[si as int]@,
                self.spaces@ == old(self).spaces@,
                self.user == old(self).user,
                self.space == old(self).space,
                self.after == old(self).after,
                self.page == old(self).page,
                start_marks == pairs_view(old(self).marks@),
                start_obs == old(self).observations@,
                first_bad_event(all.take(taken)) == -1,
                pairs_view(self.marks@) == raise_all(start_marks, space, all.take(taken)),
                self.observations@ == start_obs + all.take(taken).map_values(
                    |e: ChatSpaceEvent| GoogleChatEvent { user: self.user, event: e, occurred_at: event_millis(e) },
                ),
            decreases queue@.len(),
        {
            let event = queue.pop_front().unwrap();
            assert(event == all[taken]);
            assert(all.take(taken + 1).drop_last() =~= all.take(taken));
            assert(all.skip(taken + 1) =~= all.skip(taken).drop_first());
            let parsed = parse_millis(event.event_time.as_str(), "google-chat", "eventTime");
            let occurred_at = match parsed {
                Ok(ms) => ms,
                Err(e) => {
                    proof {
                        assert(first_bad_event(all.take(taken + 1)) == taken);
                        lemma_first_bad_event_prefix(all, taken + 1);
                    }
                    return Err(e);
                },
            };
            upsert_mark(&mut self.marks, self.spaces[si].as_str(), event.event_time.as_str(), false);
            let ghost before = self.observations@;
            self.observations.push(GoogleChatEvent { user: self.user.clone(), event, occurred_at });
            proof {
                let f = |e: ChatSpaceEvent| GoogleChatEvent { user: self.user, event: e, occurred_at: event_millis(e) };
                assert(all.take(taken + 1).map_values(f) =~= all.take(taken).map_values(f).push(f(all[taken])));
                assert(self.observations@ =~= start_obs + all.take(taken + 1).map_values(f));
                taken = taken + 1;
            }
        }
        assert(all.take(taken) =~= all);
        assert(first_bad_event(all) == -1);
        proof {
            if keys_ordered(start_marks) {
                lemma_raise_all_ordered(start_marks, space, all);
            }
        }
        if next_page_token.unicode_len() > 0 {
            self.page = next_page_token;
        } else {
            let n = self.spaces.len();
            assert(si < n);
            self.space = si + 1;
            self.page = String::new();
            if si + 1 < self.spaces.len() {
                self.after = mark_or(&self.marks, self.spaces[si + 1].as_str(), "1970-01-01T00:00:00Z");
            }
        }
        Ok(())
    }

    /// The batch and the next cursor, its watermarks ordered by space.
    pub fn finish(self) -> (r: TypedPullBatch<GoogleChatCursor, GoogleChatEvent>)
        ensures
            r.observations@ == self.spec_observations(),
            chat_marks_view(r.next_cursor.watermarks@) == self.spec_marks(),
    {
        let mut watermarks: Vec<ChatWatermark> = Vec::new();
        let mut i: usize = 0;
        while i < self.marks.len()
            invariant
                i <= self.marks@.len(),
                chat_marks_view(watermarks@) == pairs_view(self.marks@).take(i as int),
            decreases self.marks@.len() - i,
        {
            let ghost before = watermarks@;
            watermarks.push(ChatWatermark { space: self.marks[i].0.clone(), event_time: self.marks[i].1.clone() });
            assert(chat_marks_view(watermarks@) =~= pairs_view(self.marks@).take(i + 1)) by {
                assert(watermarks@ =~= before.push(watermarks@.last()));
                assert(chat_marks_view(watermarks@) =~= chat_marks_view(before).push(
                    (self.marks@[i as int].0@, self.marks@[i as int].1@),
                ));
                assert(pairs_view(self.marks@).take(i + 1) =~= pairs_view(self.marks@).take(i as int).push(
                    pairs_view(self.marks@)[i as int],
                ));
            }
            i = i + 1;
        }
        assert(pairs_view(self.marks@).take(self.marks@.len() as int) =~= pairs_view(self.marks@));
        TypedPullBatch { observations: self.observations, next_cursor: GoogleChatCursor { watermarks } }
    }
}

proof fn lemma_first_bad_event_prefix(events: Seq<ChatSpaceEvent>, i: int)
    requires
        0 <= i <= events.len(),
        first_bad_event(events.take(i)) >= 0,
    ensures
        first_bad_event(events) == first_bad_event(events.take(i)),
    decreases events.len() - i,
{
    if i < events.len() {
        assert(events.take(i + 1).drop_last() =~= events.take(i));
        lemma_first_bad_event_prefix(events, i + 1);
    } else {
        assert(events.take(i) =~= events);
    }
}

} // verus!
