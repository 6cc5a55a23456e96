//! Gmail: a bounded initial sync, `historyId` reconciliation, and
//! idempotent removal of the `UNREAD` label.

use vstd::prelude::*;

use crate::connector::{
    has_control, Capability, ConnectorDescriptor, ConnectorError, ConnectorKey, EffectOutcome, EffectRequest,
    EffectVerb, ExternalKey, NormalizedObservation, ObservationKind, SourceClass, TypedPullBatch, control_char,
};
use crate::http::{get_parts, query_view, HttpMethod, HttpRequest};
use crate::providers::common::{
    digest, digest_parts, i64_or_zero, parse_i64, protocol_error, spec_digest, strip_prefix, strip_prefix_exec,
    ProviderError,
};
use crate::text::{append, same_text};

verus! {

/// How many inbox messages an initial sync reads.
pub const INITIAL_LIMIT: u16 = 25;

/// A mailbox address: it holds `@` and no control character.
#[derive(Debug, Clone, PartialEq, Eq)]
pub struct GmailAccount(String);

pub open spec fn valid_account(s: Seq<char>) -> bool {
    s.contains('@') && !(exists|i: int| 0 <= i < s.len() && control_char(#[trigger] s[i]))
}

fn has_at(s: &str) -> (r: bool)
    ensures
        r == s@.contains('@'),
{
    let n = s.unicode_len();
    let mut i: usize = 0;
    while i < n
        invariant
            n == s@.len(),
            i <= n,
            forall|j: int| 0 <= j < i ==> s@[j] != '@',
        decreases n - i,
    {
        if s.get_char(i) == '@' {
            return true;
        }
        i = i + 1;
    }
    false
}

impl GmailAccount {
    pub closed spec fn view(&self) -> Seq<char> {
        self.0@
    }

    pub fn parse(value: &str) -> (r: Result<Self, ProviderError>)
        ensures
            valid_account(value@) ==> (r matches Ok(a) && a@ == value@),
            !valid_account(value@) ==> (r matches Err(ProviderError::Protocol { provider, reason }) && provider@ == "gmail"@
                && reason@ == "account is not an email address"@),
    {
        if has_at(value) && !has_control(value) {
            Ok(GmailAccount(value.to_owned()))
        } else {
            Err(protocol_error("gmail", "account is not an email address"))
        }
    }

    pub fn as_str(&self) -> (s: &str)
        ensures
            s@ == self@,
    {
        self.0.as_str()
    }

    fn copy(&self) -> (c: Self)
        ensures
            c@ == self@,
    {
        GmailAccount(self.0.clone())
    }
}

/// The mailbox history id the next pull starts from.
#[derive(Debug, Clone, PartialEq, Eq)]
pub struct GmailCursor {
    pub history_id: String,
}

impl GmailCursor {
    /// A decoded cursor is usable only with a history id.
    pub fn check(self) -> (r: Result<Self, ConnectorError>)
        ensures
            self.history_id@.len() > 0 ==> r == Ok::<Self, ConnectorError>(self),
            self.history_id@.len() == 0 ==> (r matches Err(ConnectorError::InvalidCursor(m)) && m@
                == "Gmail historyId must not be empty"@),
    {
        if self.history_id.unicode_len() == 0 {
            return Err(ConnectorError::InvalidCursor("Gmail historyId must not be empty"));
        }
        Ok(self)
    }
}

#[derive(Debug, Clone, PartialEq, Eq)]
pub struct GmailProfile {
    pub email_address: String,
    pub history_id: String,
}

#[derive(Debug, Clone, PartialEq, Eq)]
pub struct GmailMessageList {
    pub messages: Vec<GmailMessageRef>,
}

#[derive(Debug, Clone, PartialEq, Eq)]
pub struct GmailHistoryResponse {
    pub history: Vec<GmailHistory>,
    pub history_id: String,
    pub next_page_token: Option<String>,
}

#[derive(Debug, Clone, PartialEq, Eq)]
pub struct GmailHistory {
    pub id: String,
    pub messages_added: Vec<GmailMessageAdded>,
}

#[derive(Debug, Clone, PartialEq, Eq)]
pub struct GmailMessageAdded {
    pub message: GmailMessageRef,
}

#[derive(Debug, Clone, PartialEq, Eq)]
pub struct GmailMessageRef {
    pub id: String,
    pub thread_id: String,
}

#[derive(Debug, Clone, PartialEq, Eq)]
pub struct GmailMessage {
    pub id: String,
    pub thread_id: String,
    pub label_ids: Vec<String>,
    pub internal_date: String,
    pub snippet: String,
    pub payload: GmailPayload,
}

#[derive(Debug, Clone, PartialEq, Eq)]
pub struct GmailPayload {
    pub headers: Vec<GmailHeader>,
}

#[derive(Debug, Clone, PartialEq, Eq)]
pub struct GmailHeader {
    pub name: String,
    pub value: String,
}

/// A message of a mailbox, with the history record it was added in.
#[derive(Debug, Clone, PartialEq, Eq)]
pub struct GmailEvent {
    pub account: GmailAccount,
    pub history_id: String,
    pub message: GmailMessage,
}

/// The digests that name a mail event: the mailbox; the message and its
/// thread within it; the history record and message. `payload` is the
/// message's JSON document. Every mail event is a new message, at its
/// internal date.
pub fn observation(event: &GmailEvent, payload: &[u8]) -> (o: NormalizedObservation)
    ensures
        ({
            let account = vstd::utf8::encode_utf8(event.account@);
            &&& o.account.0@ == spec_digest("gmail-account"@, seq![account])
            &&& o.object.0@ == spec_digest("gmail-message"@, seq![account, vstd::utf8::encode_utf8(event.message.id@)])
            &&& o.thread.0@ == spec_digest("gmail-thread"@, seq![account, vstd::utf8::encode_utf8(event.message.thread_id@)])
            &&& o.event.0@ == spec_digest("gmail-event"@, seq![
                vstd::utf8::encode_utf8(event.history_id@),
                vstd::utf8::encode_utf8(event.message.id@),
            ])
            &&& o.payload.0@ == spec_digest("gmail-payload"@, seq![payload@])
            &&& o.kind == ObservationKind::Created
            &&& o.occurred_at == i64_or_zero(event.message.internal_date@)
        }),
{
    let account = event.account.as_str().as_bytes();
    let id = event.message.id.as_str().as_bytes();
    let thread = event.message.thread_id.as_str().as_bytes();
    let history = event.history_id.as_str().as_bytes();
    let object_parts: [&[u8]; 2] = [account, id];
    let thread_parts: [&[u8]; 2] = [account, thread];
    let event_parts: [&[u8]; 2] = [history, id];
    proof {
        assert(crate::providers::common::slices_view(object_parts@) =~= seq![account@, id@]);
        assert(crate::providers::common::slices_view(thread_parts@) =~= seq![account@, thread@]);
        assert(crate::providers::common::slices_view(event_parts@) =~= seq![history@, id@]);
    }
    let occurred_at: i64 = match parse_i64(event.message.internal_date.as_str()) {
        Some(v) => v,
        None => 0,
    };
    NormalizedObservation {
        account: digest("gmail-account", account),
        object: digest_parts("gmail-message", &object_parts),
        thread: digest_parts("gmail-thread", &thread_parts),
        event: digest_parts("gmail-event", &event_parts),
        payload: digest("gmail-payload", payload),
        kind: ObservationKind::Created,
        occurred_at,
    }
}

/// Mark one message read.
#[derive(Debug, Clone, PartialEq, Eq)]
pub struct GmailEffect {
    pub message_id: String,
    pub idempotency: ExternalKey,
}

impl GmailEffect {
    /// The effect a request asks for: `MarkRead` of a locator
    /// `gmail:message:<id>` with a nonempty id.
    pub fn from_request(request: EffectRequest) -> (r: Result<Self, ConnectorError>)
        ensures
            request.verb != EffectVerb::MarkRead ==> (r matches Err(ConnectorError::EffectForAnotherProvider)),
            request.verb == EffectVerb::MarkRead ==> match strip_prefix(request.target.locator@, "gmail:message:"@) {
                Some(id) => if id.len() > 0 {
                    r matches Ok(e) && e.message_id@ == id && e.idempotency == request.idempotency
                } else {
                    r matches Err(ConnectorError::EffectForAnotherProvider)
                },
                None => r matches Err(ConnectorError::EffectForAnotherProvider),
            },
    {
        if request.verb != EffectVerb::MarkRead {
            return Err(ConnectorError::EffectForAnotherProvider);
        }
        match strip_prefix_exec(request.target.locator.as_str(), "gmail:message:") {
            Some(id) => {
                if id.unicode_len() == 0 {
                    return Err(ConnectorError::EffectForAnotherProvider);
                }
                Ok(GmailEffect { message_id: id.to_owned(), idempotency: request.idempotency })
            },
            None => Err(ConnectorError::EffectForAnotherProvider),
        }
    }
}

/// The body that removes labels from a message.
#[derive(Debug, Clone, PartialEq, Eq)]
pub struct ModifyMessage {
    pub remove_label_ids: [&'static str; 1],
}

/// The body that removes `UNREAD`.
pub fn mark_read_body() -> (b: ModifyMessage)
    ensures
        b.remove_label_ids@[0]@ == "UNREAD"@,
{
    ModifyMessage { remove_label_ids: ["UNREAD"] }
}

pub open spec fn modify_path(id: Seq<char>) -> Seq<char> {
    "/gmail/v1/users/me/messages/"@ + id + "/modify"@
}

/// The mark-read request, with `body` the JSON document of
/// [`mark_read_body`].
pub fn mark_read_request(effect: &GmailEffect, body: Vec<u8>) -> (r: HttpRequest)
    ensures
        r.spec_parts() == (HttpMethod::Post, modify_path(effect.message_id@), Seq::<(Seq<char>, Seq<char>)>::empty(), Some(body@)),
{
    let mut path = String::new();
    append(&mut path, "/gmail/v1/users/me/messages/");
    append(&mut path, effect.message_id.as_str());
    append(&mut path, "/modify");
    assert(path@ =~= modify_path(effect.message_id@));
    HttpRequest::post_json(path.as_str(), body)
}

/// The outcome of marking read: applied, with a receipt named by the
/// idempotency key and the message id Gmail returned.
pub fn mark_read_outcome(effect: &GmailEffect, message: &GmailMessage) -> (o: EffectOutcome)
    ensures
        o matches EffectOutcome::Applied { receipt } && receipt.0@ == spec_digest(
            "gmail-mark-read"@,
            seq![effect.idempotency.0@, vstd::utf8::encode_utf8(message.id@)],
        ),
{
    let id = message.id.as_str().as_bytes();
    let parts: [&[u8]; 2] = [&effect.idempotency.0, id];
    assert(crate::providers::common::slices_view(parts@) =~= seq![effect.idempotency.0@, id@]);
    EffectOutcome::Applied { receipt: digest_parts("gmail-mark-read", &parts) }
}

/// The descriptor: key `gmail`, mail that reconciles and marks read.
pub fn descriptor() -> (d: ConnectorDescriptor)
    ensures
        crate::rollout::BuiltinConnector::Gmail.row_descriptor(d),
{
    proof {
        reveal_strlit("gmail");
    }
    let capabilities: &'static [Capability] = &[Capability::Reconcile, Capability::Effect(EffectVerb::MarkRead)];
    ConnectorDescriptor { key: ConnectorKey::new("gmail"), label: "Gmail", class: SourceClass::Mail, capabilities }
}

/// The Gmail connector of one mailbox.
pub struct GmailConnector<T> {
    http: T,
    account: GmailAccount,
}

impl<T> GmailConnector<T> {
    pub closed spec fn spec_http(&self) -> T {
        self.http
    }

    pub closed spec fn spec_account(&self) -> Seq<char> {
        self.account@
    }

    pub fn new(http: T, account: GmailAccount) -> (r: Self)
        ensures
            r.spec_http() == http,
            r.spec_account() == account@,
    {
        GmailConnector { http, account }
    }

    /// The transport, for performing the requests of a pull or an effect.
    pub fn transport(&mut self) -> (t: &mut T)
        ensures
            *t == old(self).spec_http(),
            final(self).spec_http() == *final(t),
            final(self).spec_account() == old(self).spec_account(),
    {
        &mut self.http
    }

    pub fn into_inner(self) -> (t: T)
        ensures
            t == self.spec_http(),
    {
        self.http
    }

    /// Begin a pull: from the cursor's history id, or an initial sync.
    pub fn begin_pull(&self, cursor: Option<&GmailCursor>) -> (p: GmailPull)
        ensures
            p.spec_account() == self.spec_account(),
            p.spec_targets().len() == 0,
            p.spec_events().len() == 0,
            match cursor {
                None => p.spec_stage() == GmailStage::Profile,
                Some(c) => p.spec_stage() == GmailStage::History && p.spec_start() == c.history_id@
                    && p.spec_page().is_none(),
            },
    {
        let (stage, start) = match cursor {
            None => (GmailStage::Profile, String::new()),
            Some(c) => (GmailStage::History, c.history_id.clone()),
        };
        let p = GmailPull {
            account: self.account.copy(),
            stage,
            start,
            page: None,
            history_id: String::new(),
            targets: Vec::new(),
            fetched: 0,
            events: Vec::new(),
        };
        assert(pairs_of(p.targets@) =~= Seq::empty());
        p
    }
}

/// Where a Gmail pull stands.
#[derive(Debug, Clone, Copy, PartialEq, Eq, Structural)]
pub enum GmailStage {
    /// Waiting for the mailbox profile.
    Profile,
    /// Waiting for the inbox listing.
    List,
    /// Waiting for a page of history.
    History,
    /// Fetching the messages found.
    Messages,
}

pub open spec fn pairs_of(v: Seq<(String, String)>) -> Seq<(Seq<char>, Seq<char>)> {
    v.map_values(|p: (String, String)| (p.0@, p.1@))
}

/// The (history record, message id) pairs a history page adds, in order.
pub open spec fn added_pairs(history: Seq<GmailHistory>) -> Seq<(Seq<char>, Seq<char>)>
    decreases history.len(),
{
    if history.len() == 0 {
        Seq::empty()
    } else {
        let h = history.last();
        added_pairs(history.drop_last()) + h.messages_added@.map_values(|a: GmailMessageAdded| (h.id@, a.message.id@))
    }
}

/// `targets` followed by the pairs whose message id is not yet present.
pub open spec fn add_targets(targets: Seq<(Seq<char>, Seq<char>)>, pairs: Seq<(Seq<char>, Seq<char>)>) -> Seq<(Seq<char>, Seq<char>)>
    decreases pairs.len(),
{
    if pairs.len() == 0 {
        targets
    } else {
        let t = add_targets(targets, pairs.drop_last());
        let p = pairs.last();
        if exists|j: int| 0 <= j < t.len() && (#[trigger] t[j]).1 == p.1 {
            t
        } else {
            t.push(p)
        }
    }
}

/// No two targets name the same message.
pub open spec fn targets_distinct(t: Seq<(Seq<char>, Seq<char>)>) -> bool {
    forall|i: int, j: int| 0 <= i < j < t.len() ==> t[i].1 != t[j].1
}

/// A reconciliation fetches each added message once, however many history
/// records name it.
pub proof fn lemma_add_targets_distinct(targets: Seq<(Seq<char>, Seq<char>)>, pairs: Seq<(Seq<char>, Seq<char>)>)
    requires
        targets_distinct(targets),
    ensures
        targets_distinct(add_targets(targets, pairs)),
    decreases pairs.len(),
{
    if pairs.len() > 0 {
        lemma_add_targets_distinct(targets, pairs.drop_last());
        let t = add_targets(targets, pairs.drop_last());
        let p = pairs.last();
        if !(exists|j: int| 0 <= j < t.len() && (#[trigger] t[j]).1 == p.1) {
            let u = t.push(p);
            assert forall|i: int, j: int| 0 <= i < j < u.len() implies u[i].1 != u[j].1 by {
                assert(u[i] == t[i]);
                if j < t.len() {
                    assert(u[j] == t[j]);
                }
            }
        }
    }
}

pub open spec fn message_parts(id: Seq<char>) -> (HttpMethod, Seq<char>, Seq<(Seq<char>, Seq<char>)>, Option<Seq<u8>>) {
    (
        HttpMethod::Get,
        "/gmail/v1/users/me/messages/"@ + id,
        seq![
            ("format"@, "metadata"@),
            ("metadataHeaders"@, "From"@),
            ("metadataHeaders"@, "Subject"@),
            ("metadataHeaders"@, "Date"@),
        ],
        None,
    )
}

pub open spec fn list_parts() -> (HttpMethod, Seq<char>, Seq<(Seq<char>, Seq<char>)>, Option<Seq<u8>>) {
    (HttpMethod::Get, "/gmail/v1/users/me/messages"@, seq![("labelIds"@, "INBOX"@), ("maxResults"@, "25"@)], None)
}

pub open spec fn history_parts(start: Seq<char>, page: Option<Seq<char>>) -> (
    HttpMethod,
    Seq<char>,
    Seq<(Seq<char>, Seq<char>)>,
    Option<Seq<u8>>,
) {
    let base = seq![("startHistoryId"@, start), ("historyTypes"@, "messageAdded"@), ("labelId"@, "INBOX"@)];
    (
        HttpMethod::Get,
        "/gmail/v1/users/me/history"@,
        match page {
            Some(t) => base.push(("pageToken"@, t)),
            None => base,
        },
        None,
    )
}

/// A Gmail pull in progress.
pub struct GmailPull {
    account: GmailAccount,
    stage: GmailStage,
    start: String,
    page: Option<String>,
    history_id: String,
    targets: Vec<(String, String)>,
    fetched: usize,
    events: Vec<GmailEvent>,
}

impl GmailPull {
    pub closed spec fn spec_account(&self) -> Seq<char> {
        self.account@
    }

    pub closed spec fn spec_stage(&self) -> GmailStage {
        self.stage
    }

    /// The history id a reconciliation starts from.
    pub closed spec fn spec_start(&self) -> Seq<char> {
        self.start@
    }

    /// The page token of the next history request.
    pub closed spec fn spec_page(&self) -> Option<Seq<char>> {
        match self.page {
            Some(t) => Some(t@),
            None => None,
        }
    }

    /// The history id of the next cursor.
    pub closed spec fn spec_history_id(&self) -> Seq<char> {
        self.history_id@
    }

    /// The messages to fetch, each with the history record that names it.
    pub closed spec fn spec_targets(&self) -> Seq<(Seq<char>, Seq<char>)> {
        pairs_of(self.targets@)
    }

    pub closed spec fn spec_fetched(&self) -> nat {
        self.fetched as nat
    }

    pub closed spec fn spec_events(&self) -> Seq<GmailEvent> {
        self.events@
    }

    /// Where the pull stands.
    pub fn stage(&self) -> (s: GmailStage)
        ensures
            s == self.spec_stage(),
    {
        self.stage
    }

    /// The next request, or `None` once every message was fetched.
    pub fn next_request(&self) -> (r: Option<HttpRequest>)
        ensures
            self.spec_stage() == GmailStage::Profile ==> (r matches Some(q) && q.spec_parts() == get_parts(
                "/gmail/v1/users/me/profile"@,
            )),
            self.spec_stage() == GmailStage::List ==> (r matches Some(q) && q.spec_parts() == list_parts()),
            self.spec_stage() == GmailStage::History ==> (r matches Some(q) && q.spec_parts() == history_parts(
                self.spec_start(),
                self.spec_page(),
            )),
            self.spec_stage() == GmailStage::Messages ==> (if self.spec_fetched() < self.spec_targets().len() {
                r matches Some(q) && q.spec_parts() == message_parts(self.spec_targets()[self.spec_fetched() as int].1)
            } else {
                r is None
            }),
    {
        match self.stage {
            GmailStage::Profile => Some(HttpRequest::get("/gmail/v1/users/me/profile")),
            GmailStage::List => {
                let q = HttpRequest::get("/gmail/v1/users/me/messages").query("labelIds", "INBOX").query(
                    "maxResults",
                    "25",
                );
                assert(query_view(q.query@) =~= seq![("labelIds"@, "INBOX"@), ("maxResults"@, "25"@)]);
                Some(q)
            },
            GmailStage::History => {
                let q = HttpRequest::get("/gmail/v1/users/me/history").query("startHistoryId", self.start.as_str()).query(
                    "historyTypes",
                    "messageAdded",
                ).query("labelId", "INBOX");
                assert(query_view(q.query@) =~= seq![
                    ("startHistoryId"@, self.start@),
                    ("historyTypes"@, "messageAdded"@),
                    ("labelId"@, "INBOX"@),
                ]);
                match &self.page {
                    Some(t) => Some(q.query("pageToken", t.as_str())),
                    None => Some(q),
                }
            },
            GmailStage::Messages => {
                if self.fetched >= self.targets.len() {
                    return None;
                }
                let mut path = String::new();
                append(&mut path, "/gmail/v1/users/me/messages/");
                append(&mut path, self.targets[self.fetched].1.as_str());
                let q = HttpRequest::get(path.as_str()).query("format", "metadata").query("metadataHeaders", "From").query(
                    "metadataHeaders",
                    "Subject",
                ).query("metadataHeaders", "Date");
                assert(query_view(q.query@) =~= seq![
                    ("format"@, "metadata"@),
                    ("metadataHeaders"@, "From"@),
                    ("metadataHeaders"@, "Subject"@),
                    ("metadataHeaders"@, "Date"@),
                ]);
                Some(q)
            },
        }
    }

    /// Take the mailbox profile: it must be the configured account; its
    /// history id becomes that of every event and of the next cursor.
    pub fn receive_profile(&mut self, profile: GmailProfile) -> (r: Result<(), ProviderError>)
        requires
            old(self).spec_stage() == GmailStage::Profile,
        ensures
            profile.email_address@ != old(self).spec_account() ==> (r matches Err(ProviderError::Protocol { provider, reason })
                && provider@ == "gmail"@ && reason@ == "profile email does not match configured account"@),
            profile.email_address@ == old(self).spec_account() ==> r is Ok && final(self).spec_stage() == GmailStage::List
                && final(self).spec_history_id() == profile.history_id@ && final(self).spec_account()
                == old(self).spec_account() && final(self).spec_targets() == old(self).spec_targets()
                && final(self).spec_fetched() == old(self).spec_fetched() && final(self).spec_events()
                == old(self).spec_events(),
    {
        if !same_text(profile.email_address.as_str(), self.account.as_str()) {
            return Err(protocol_error("gmail", "profile email does not match configured account"));
        }
        self.history_id = profile.history_id;
        self.stage = GmailStage::List;
        Ok(())
    }

    /// Take the inbox listing: each listed message is fetched, under the
    /// profile's history id.
    pub fn receive_list(&mut self, list: GmailMessageList)
        requires
            old(self).spec_stage() == GmailStage::List,
        ensures
            final(self).spec_stage() == GmailStage::Messages,
            final(self).spec_account() == old(self).spec_account(),
            final(self).spec_history_id() == old(self).spec_history_id(),
            final(self).spec_targets() == old(self).spec_targets() + list.messages@.map_values(
                |m: GmailMessageRef| (old(self).spec_history_id(), m.id@),
            ),
            final(self).spec_fetched() == old(self).spec_fetched(),
            final(self).spec_events() == old(self).spec_events(),
    {
        let ghost before = pairs_of(self.targets@);
        let ghost hid = self.history_id@;
        let mut i: usize = 0;
        while i < list.messages.len()
            invariant
                i <= list.messages@.len(),
                self.history_id@ == hid,
                self.account == old(self).account,
                self.fetched == old(self).fetched,
                self.events == old(self).events,
                self.stage == old(self).stage,
                pairs_of(self.targets@) == before + list.messages@.take(i as int).map_values(
                    |m: GmailMessageRef| (hid, m.id@),
                ),
            decreases list.messages@.len() - i,
        {
            let ghost prev = self.targets@;
            self.targets.push((self.history_id.clone(), list.messages[i].id.clone()));
            assert(pairs_of(self.targets@) =~= pairs_of(prev).push((hid, list.messages@[i as int].id@)));
            assert(list.messages@.take(i + 1).map_values(|m: GmailMessageRef| (hid, m.id@)) =~= list.messages@.take(
                i as int,
            ).map_values(|m: GmailMessageRef| (hid, m.id@)).push((hid, list.messages@[i as int].id@)));
            i = i + 1;
        }
        assert(list.messages@.take(list.messages@.len() as int) =~= list.messages@);
        self.stage = GmailStage::Messages;
    }

    /// Take a page of history: each message added, once per message id,
    /// is fetched under its history record; the last page's history id is
    /// the next cursor's.
    pub fn receive_history(&mut self, page: GmailHistoryResponse)
        requires
            old(self).spec_stage() == GmailStage::History,
        ensures
            final(self).spec_account() == old(self).spec_account(),
            final(self).spec_start() == old(self).spec_start(),
            final(self).spec_targets() == add_targets(old(self).spec_targets(), added_pairs(page.history@)),
            final(self).spec_fetched() == old(self).spec_fetched(),
            final(self).spec_events() == old(self).spec_events(),
            match page.next_page_token {
                Some(t) => final(self).spec_stage() == GmailStage::History && final(self).spec_page() == Some(t@),
                None => final(self).spec_stage() == GmailStage::Messages && final(self).spec_history_id()
                    == page.history_id@,
            },
    {
        let ghost start = pairs_of(self.targets@);
        let mut h: usize = 0;
        assert(page.history@.take(0) =~= Seq::<GmailHistory>::empty());
        while h < page.history.len()
            invariant
                h <= page.history@.len(),
                self.account == old(self).account,
                self.start == old(self).start,
                self.stage == old(self).stage,
                self.fetched == old(self).fetched,
                self.events == old(self).events,
                pairs_of(self.targets@) == add_targets(start, added_pairs(page.history@.take(h as int))),
            decreases page.history@.len() - h,
        {
            let record = &page.history[h];
            let ghost mid = pairs_of(self.targets@);
            let ghost adds = record.messages_added@.map_values(|a: GmailMessageAdded| (record.id@, a.message.id@));
            let mut k: usize = 0;
            assert(adds.take(0) =~= Seq::<(Seq<char>, Seq<char>)>::empty());
            while k < record.messages_added.len()
                invariant
                    k <= record.messages_added@.len(),
                    adds == record.messages_added@.map_values(|a: GmailMessageAdded| (record.id@, a.message.id@)),
                    self.account == old(self).account,
                    self.start == old(self).start,
                    self.stage == old(self).stage,
                    self.fetched == old(self).fetched,
                    self.events == old(self).events,
                    pairs_of(self.targets@) == add_targets(mid, adds.take(k as int)),
                decreases record.messages_added@.len() - k,
            {
                let id = &record.messages_added[k].message.id;
                assert(adds.take(k + 1).drop_last() =~= adds.take(k as int));
                assert(adds.take(k + 1).last() == (record.id@, id@));
                if !has_target(&self.targets, id.as_str()) {
                    let ghost prev = self.targets@;
                    self.targets.push((record.id.clone(), id.clone()));
                    assert(pairs_of(self.targets@) =~= pairs_of(prev).push((record.id@, id@)));
                }
                k = k + 1;
            }
            assert(adds.take(adds.len() as int) =~= adds);
            proof {
                lemma_add_targets_concat(start, added_pairs(page.history@.take(h as int)), adds);
                assert(page.history@.take(h + 1).drop_last() =~= page.history@.take(h as int));
            }
            h = h + 1;
        }
        assert(page.history@.take(page.history@.len() as int) =~= page.history@);
        match page.next_page_token {
            Some(t) => {
                self.page = Some(t);
            },
            None => {
                self.history_id = page.history_id;
                self.stage = GmailStage::Messages;
            },
        }
    }

    /// Take the next fetched message.
    pub fn receive_message(&mut self, message: GmailMessage)
        requires
            old(self).spec_stage() == GmailStage::Messages,
            old(self).spec_fetched() < old(self).spec_targets().len(),
        ensures
            final(self).spec_stage() == GmailStage::Messages,
            final(self).spec_account() == old(self).spec_account(),
            final(self).spec_history_id() == old(self).spec_history_id(),
            final(self).spec_targets() == old(self).spec_targets(),
            final(self).spec_fetched() == old(self).spec_fetched() + 1,
            final(self).spec_events().len() == old(self).spec_events().len() + 1,
            final(self).spec_events().drop_last() == old(self).spec_events(),
            final(self).spec_events().last().account@ == old(self).spec_account(),
            final(self).spec_events().last().history_id@ == old(self).spec_targets()[old(self).spec_fetched() as int].0,
            final(self).spec_events().last().message == message,
    {
        let n = self.targets.len();
        let history_id = self.targets[self.fetched].0.clone();
        let event = GmailEvent { account: self.account.copy(), history_id, message };
        let ghost before = self.events@;
        self.events.push(event);
        assert(self.events@.drop_last() =~= before);
        assert(self.fetched < n);
        self.fetched = self.fetched + 1;
    }

    /// The batch and the next cursor.
    pub fn finish(self) -> (r: TypedPullBatch<GmailCursor, GmailEvent>)
        ensures
            r.observations@ == self.spec_events(),
            r.next_cursor.history_id@ == self.spec_history_id(),
    {
        TypedPullBatch { observations: self.events, next_cursor: GmailCursor { history_id: self.history_id } }
    }
}

fn has_target(v: &Vec<(String, String)>, id: &str) -> (r: bool)
    ensures
        r == exists|j: int| 0 <= j < pairs_of(v@).len() && (#[trigger] pairs_of(v@)[j]).1 == id@,
{
    let mut i: usize = 0;
    while i < v.len()
        invariant
            i <= v@.len(),
            forall|j: int| 0 <= j < i ==> (#[trigger] pairs_of(v@)[j]).1 != id@,
        decreases v@.len() - i,
    {
        if same_text(v[i].1.as_str(), id) {
            assert(pairs_of(v@)[i as int].1 == id@);
            return true;
        }
        i = i + 1;
    }
    false
}

proof fn lemma_add_targets_concat(
    t: Seq<(Seq<char>, Seq<char>)>,
    a: Seq<(Seq<char>, Seq<char>)>,
    b: Seq<(Seq<char>, Seq<char>)>,
)
    ensures
        add_targets(t, a + b) == add_targets(add_targets(t, a), b),
    decreases b.len(),
{
    if b.len() == 0 {
        assert(a + b =~= a);
    } else {
        lemma_add_targets_concat(t, a, b.drop_last());
        assert((a + b).drop_last() =~= a + b.drop_last());
        assert((a + b).last() == b.last());
    }
}

} // verus!
