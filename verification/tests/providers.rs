use tm20::connector::{EffectOutcome, EffectRequest, EffectTarget, EffectVerb, ObservationKind, ProviderLocator};
use tm20::http::{HttpRequest, HttpTransport, MockHttp};
use tm20::providers::digest;
use tm20::providers::gmail::{
    GmailAccount, GmailConnector, GmailCursor, GmailEffect, GmailHeader, GmailHistory, GmailHistoryResponse,
    GmailMessage, GmailMessageAdded, GmailMessageRef, GmailPayload, GmailStage, mark_read_body, mark_read_outcome,
    mark_read_request,
};
use tm20::providers::google_chat::{
    ChatMessage, ChatSpaceEvent, ChatThread, ChatUser, GoogleChatConnector, GoogleChatCursor, ChatWatermark,
    SpaceEventsResponse,
};
use tm20::providers::hacker_news::{HackerNewsConnector, HnCursor, HnItem, HnPull, maxitem_request, topstories_request};
use tm20::providers::imessage::{
    BridgeCapabilities, BridgeEvent, BridgeEventKind, BridgeEventPage, BridgeInfo, IMessage, IMessageConnector,
    IMessageCursor, IMessageReadReceipt, ReadReceiptResponse, ReceiptStatus, info_request, receipt_body,
    receipt_outcome, receipt_request,
};
use tm20::providers::slack::{
    SlackChangedEvent, SlackChangedMessage, SlackConnector, SlackEdited, SlackEvent, SlackEventPayload,
    SlackHistoryMessage, SlackHistoryResponse, SlackMessageEvent, SlackPostedEvent, SlackResponseMetadata,
    SlackSocketEnvelope, observation as slack_observation, slack_millis_exec,
};
use tm20::providers::ProviderError;

fn item(id: u64, title: &str) -> HnItem {
    HnItem {
        id,
        deleted: false,
        dead: false,
        item_type: Some("story".into()),
        by: Some("ada".into()),
        time: Some(1_700_000_000),
        title: Some(title.into()),
        text: None,
        url: Some(format!("https://example.com/{id}")),
        score: Some(10),
        descendants: Some(2),
        parent: None,
    }
}

/// Run a Hacker News pull against the script, answering each item request
/// with the item of that id from `items`.
fn hn_pull(
    connector: &mut HackerNewsConnector<MockHttp>,
    cursor: Option<&HnCursor>,
    items: &[(u64, Option<HnItem>)],
) -> Result<tm20::connector::TypedPullBatch<HnCursor, tm20::providers::hacker_news::HnEvent>, ProviderError> {
    let max = connector.transport().execute(maxitem_request()).expect("maxitem");
    let max: u64 = serde_json::from_slice(&max.body).expect("maxitem json");
    let top = connector.transport().execute(topstories_request()).expect("top");
    let top: Vec<u64> = serde_json::from_slice(&top.body).expect("top json");
    let mut pull = HnPull::start(cursor, connector.rank_limit(), max, &top);
    while let Some(request) = pull.next_request() {
        let path = request.path.clone();
        connector.transport().execute(request).expect("item");
        let reply = items
            .iter()
            .find(|(id, _)| path == format!("/v0/item/{id}.json"))
            .map(|(_, item)| item.clone())
            .expect("scripted item");
        pull.receive(reply)?;
    }
    Ok(pull.finish())
}

#[test]
fn initial_pull_uses_real_hn_endpoint_shapes() {
    let mut http = MockHttp::new();
    http.expect_json(HttpRequest::get("/v0/maxitem.json"), 200, b"42".to_vec())
        .expect("maxitem");
    http.expect_json(HttpRequest::get("/v0/topstories.json"), 200, b"[42,41]".to_vec())
        .expect("top");
    http.expect_json(HttpRequest::get("/v0/item/42.json"), 200, b"{}".to_vec())
        .expect("42");
    http.expect_json(HttpRequest::get("/v0/item/41.json"), 200, b"{}".to_vec())
        .expect("41");

    let mut connector = HackerNewsConnector::new(http);
    let batch = hn_pull(
        &mut connector,
        None,
        &[(42, Some(item(42, "Typed plugins"))), (41, Some(item(41, "Paper inboxes")))],
    )
    .expect("pull");
    assert_eq!(batch.observations.len(), 2);
    assert_eq!(batch.next_cursor.max_item, 42);
    assert!(batch.next_cursor.pending_null.is_empty());
    assert_eq!(connector.into_inner().finish().expect("transcript").len(), 4);
}

#[test]
fn null_items_remain_in_the_durable_retry_set() {
    let mut http = MockHttp::new();
    http.expect_json(HttpRequest::get("/v0/maxitem.json"), 200, b"42".to_vec())
        .expect("maxitem");
    http.expect_json(HttpRequest::get("/v0/topstories.json"), 200, b"[42]".to_vec())
        .expect("top");
    http.expect_json(HttpRequest::get("/v0/item/41.json"), 200, b"null".to_vec())
        .expect("pending null");
    http.expect_json(HttpRequest::get("/v0/item/42.json"), 200, b"{}".to_vec())
        .expect("42");
    let cursor = HnCursor {
        max_item: 40,
        ranked: vec![40],
        pending_null: vec![41],
    };
    let mut connector = HackerNewsConnector::new(http);
    let batch = hn_pull(&mut connector, Some(&cursor), &[(41, None), (42, Some(item(42, "New story")))])
        .expect("pull");
    assert_eq!(batch.observations.len(), 1);
    assert_eq!(batch.next_cursor.pending_null, vec![41]);
}

#[test]
fn hn_candidates_retry_then_rerank_then_scan_new_ids() {
    let cursor = HnCursor { max_item: 40, ranked: vec![40, 7], pending_null: vec![9, 9] };
    let pull = HnPull::start(Some(&cursor), 3, 42, &[7, 9, 12, 99]);
    let mut paths = Vec::new();
    let mut pull = pull;
    while let Some(request) = pull.next_request() {
        paths.push(request.path.clone());
        pull.receive(None).expect("null item");
    }
    assert_eq!(paths, vec!["/v0/item/9.json", "/v0/item/12.json", "/v0/item/41.json", "/v0/item/42.json"]);
    let batch = pull.finish();
    assert_eq!(batch.next_cursor.ranked, vec![7, 9, 12]);
    assert_eq!(batch.next_cursor.pending_null, vec![9, 12, 41, 42]);
}

#[test]
fn hn_item_of_another_id_is_a_protocol_error() {
    let mut pull = HnPull::start(None, 30, 5, &[5]);
    match pull.receive(Some(item(6, "wrong"))) {
        Err(ProviderError::Protocol { provider, reason }) => {
            assert_eq!(provider, "hacker-news");
            assert_eq!(reason, "requested item 5, received 6");
        }
        other => panic!("expected a protocol error, got {other:?}"),
    }
}

#[test]
fn dead_hn_items_are_deletions() {
    let mut pull = HnPull::start(None, 30, 5, &[5]);
    let mut dead = item(5, "gone");
    dead.dead = true;
    pull.receive(Some(dead)).expect("item");
    assert_eq!(pull.finish().observations[0].kind, ObservationKind::Deleted);
}

#[test]
fn hn_rank_limit_is_at_least_one() {
    let connector = HackerNewsConnector::new(()).with_rank_limit(0);
    assert_eq!(connector.rank_limit(), 1);
    assert_eq!(HackerNewsConnector::new(()).rank_limit(), 30);
}

fn posted(channel: &str, text: &str, ts: &str, event_ts: &str) -> SlackPostedEvent {
    SlackPostedEvent {
        event_type: "message".into(),
        channel: channel.into(),
        user: "U1".into(),
        text: text.into(),
        ts: ts.into(),
        thread_ts: String::new(),
        event_ts: event_ts.into(),
    }
}

#[test]
fn socket_is_a_hint_and_history_is_the_reliability_path() {
    let socket = SlackSocketEnvelope {
        envelope_id: "env-1".into(),
        payload: SlackEventPayload {
            event_id: "Ev-1".into(),
            team_id: "T1".into(),
            event: SlackMessageEvent::Posted(posted("C1", "hello", "1700000000.000100", "1700000000.000100")),
        },
    };
    let mut http = MockHttp::new();
    http.expect_json(
        HttpRequest::get("/api/conversations.history")
            .query("channel", "C1")
            .query("oldest", "1700000000.000100")
            .query("inclusive", "false")
            .query("limit", "200"),
        200,
        br#"{"ok":true,"messages":[],"response_metadata":{"next_cursor":""}}"#.to_vec(),
    )
    .expect("history");
    let mut connector = SlackConnector::new(http, "T1", &["C1"]).expect("connector");
    connector.push_socket(socket.clone()).expect("socket");
    connector.push_socket(socket).expect("duplicate socket");
    let mut pull = connector.begin_pull(None);
    while let Some(request) = pull.next_request() {
        connector.transport().execute(request).expect("exchange");
        pull.receive(SlackHistoryResponse {
            ok: true,
            messages: Vec::new(),
            response_metadata: SlackResponseMetadata::default(),
        })
        .expect("page");
    }
    let batch = pull.finish();
    assert_eq!(batch.observations.len(), 1);
    assert_eq!(batch.next_cursor.watermarks.len(), 1);
    assert_eq!(connector.into_inner().finish().expect("transcript").len(), 1);
}

#[test]
fn edits_keep_message_identity_and_change_event_identity() {
    let post = SlackEvent {
        event_id: "Ev-post".into(),
        team_id: "T1".into(),
        message: SlackMessageEvent::Posted(posted("C1", "before", "1700000000.000100", "1700000000.000100")),
    };
    let edit = SlackEvent {
        event_id: "Ev-edit".into(),
        team_id: "T1".into(),
        message: SlackMessageEvent::Changed(SlackChangedEvent {
            event_type: "message".into(),
            subtype: "message_changed".into(),
            channel: "C1".into(),
            ts: "1700000001.000000".into(),
            event_ts: "1700000001.000000".into(),
            message: SlackChangedMessage {
                user: "U1".into(),
                text: "after".into(),
                ts: "1700000000.000100".into(),
                thread_ts: String::new(),
                edited: SlackEdited {
                    user: "U1".into(),
                    ts: "1700000001.000000".into(),
                },
            },
        }),
    };
    let posted = slack_observation(&post, post.event_id.as_bytes());
    let changed = slack_observation(&edit, edit.event_id.as_bytes());
    assert_eq!(posted.object, changed.object);
    assert_ne!(posted.event, changed.event);
    assert_eq!(changed.kind, ObservationKind::Updated);
}

#[test]
fn slack_history_pages_raise_watermarks_and_drop_repeats() {
    let mut http = MockHttp::new();
    http.expect_json(
        HttpRequest::get("/api/conversations.history")
            .query("channel", "C2")
            .query("oldest", "0")
            .query("inclusive", "false")
            .query("limit", "200"),
        200,
        b"{}".to_vec(),
    )
    .expect("first page");
    http.expect_json(
        HttpRequest::get("/api/conversations.history")
            .query("channel", "C2")
            .query("oldest", "0")
            .query("inclusive", "false")
            .query("limit", "200")
            .query("cursor", "next"),
        200,
        b"{}".to_vec(),
    )
    .expect("second page");
    let message = |ts: &str| SlackHistoryMessage {
        message_type: "message".into(),
        user: "U2".into(),
        text: "<@U1> look".into(),
        ts: ts.into(),
        thread_ts: String::new(),
        subtype: String::new(),
    };
    let mut connector = SlackConnector::new(http, "T1", &["C2"]).expect("connector");
    let mut pull = connector.begin_pull(None);
    let pages = vec![
        (vec![message("5.0"), message("3.0")], "next"),
        (vec![message("5.0"), message("4.0")], ""),
    ];
    for (messages, next) in pages {
        let request = pull.next_request().expect("request");
        connector.transport().execute(request).expect("exchange");
        pull.receive(SlackHistoryResponse {
            ok: true,
            messages,
            response_metadata: SlackResponseMetadata { next_cursor: next.into() },
        })
        .expect("page");
    }
    assert!(pull.next_request().is_none());
    let batch = pull.finish();
    let ids: Vec<&str> = batch.observations.iter().map(|e| e.event_id.as_str()).collect();
    assert_eq!(ids, vec!["history:C2:5.0", "history:C2:3.0", "history:C2:4.0"]);
    assert_eq!(batch.next_cursor.watermarks.len(), 1);
    assert_eq!(batch.next_cursor.watermarks[0].timestamp, "5.0");
    let kind = slack_observation(&batch.observations[0], b"").kind;
    assert_eq!(kind, ObservationKind::Mentioned);
}

#[test]
fn slack_history_not_ok_is_an_error() {
    let mut connector = SlackConnector::new((), "T1", &["C1"]).expect("connector");
    let mut pull = connector.begin_pull(None);
    let r = pull.receive(SlackHistoryResponse {
        ok: false,
        messages: Vec::new(),
        response_metadata: SlackResponseMetadata::default(),
    });
    assert!(matches!(r, Err(ProviderError::Protocol { reason, .. }) if reason == "conversations.history returned ok=false"));
}

#[test]
fn slack_refuses_other_workspaces_and_empty_configuration() {
    let mut connector = SlackConnector::new((), "T1", &["C1"]).expect("connector");
    let foreign = SlackSocketEnvelope {
        envelope_id: "env".into(),
        payload: SlackEventPayload {
            event_id: "Ev".into(),
            team_id: "T2".into(),
            event: SlackMessageEvent::Posted(posted("C1", "hi", "1.0", "")),
        },
    };
    assert!(matches!(
        connector.push_socket(foreign),
        Err(ProviderError::Protocol { reason, .. }) if reason == "Socket Mode event belongs to another workspace"
    ));
    assert!(SlackConnector::new((), "", &["C1"]).is_err());
    assert!(SlackConnector::new((), "T1", &[]).is_err());
    assert!(SlackConnector::new((), "T1", &["C1", ""]).is_err());
}

#[test]
fn slack_timestamps_are_milliseconds() {
    assert_eq!(slack_millis_exec("1700000000.000100"), 1_700_000_000_000);
    assert_eq!(slack_millis_exec("1700000000.123456"), 1_700_000_000_123);
    assert_eq!(slack_millis_exec("12"), 12_000);
    assert_eq!(slack_millis_exec("junk"), 0);
    assert_eq!(slack_millis_exec("5.9999999"), 5_999);
}

fn message() -> GmailMessage {
    GmailMessage {
        id: "18d00a".into(),
        thread_id: "thread-1".into(),
        label_ids: vec!["INBOX".into(), "UNREAD".into()],
        internal_date: "1700000000000".into(),
        snippet: "Build is green".into(),
        payload: GmailPayload {
            headers: vec![
                GmailHeader { name: "From".into(), value: "Ada <ada@example.com>".into() },
                GmailHeader { name: "Subject".into(), value: "Status".into() },
            ],
        },
    }
}

const MODIFY_BODY: &[u8] = br#"{"removeLabelIds":["UNREAD"]}"#;

#[test]
fn history_and_mark_read_follow_gmail_api_shapes() {
    let cursor = GmailCursor { history_id: "100".into() };
    let mut http = MockHttp::new();
    http.expect_json(
        HttpRequest::get("/gmail/v1/users/me/history")
            .query("startHistoryId", "100")
            .query("historyTypes", "messageAdded")
            .query("labelId", "INBOX"),
        200,
        b"{}".to_vec(),
    )
    .expect("history");
    http.expect_json(
        HttpRequest::get("/gmail/v1/users/me/messages/18d00a")
            .query("format", "metadata")
            .query("metadataHeaders", "From")
            .query("metadataHeaders", "Subject")
            .query("metadataHeaders", "Date"),
        200,
        b"{}".to_vec(),
    )
    .expect("message");
    http.expect_json(
        HttpRequest::post_json("/gmail/v1/users/me/messages/18d00a/modify", MODIFY_BODY.to_vec()),
        200,
        b"{}".to_vec(),
    )
    .expect("modify");

    let account = GmailAccount::parse("me@example.com").expect("account");
    let mut connector = GmailConnector::new(http, account);
    let mut pull = connector.begin_pull(Some(&cursor));
    while let Some(request) = pull.next_request() {
        connector.transport().execute(request).expect("exchange");
        match pull.stage() {
            GmailStage::History => pull.receive_history(GmailHistoryResponse {
                history: vec![GmailHistory {
                    id: "101".into(),
                    messages_added: vec![GmailMessageAdded {
                        message: GmailMessageRef { id: "18d00a".into(), thread_id: "thread-1".into() },
                    }],
                }],
                history_id: "101".into(),
                next_page_token: None,
            }),
            GmailStage::Messages => pull.receive_message(message()),
            stage => panic!("unexpected stage {stage:?}"),
        }
    }
    let batch = pull.finish();
    assert_eq!(batch.next_cursor.history_id, "101");
    assert_eq!(batch.observations.len(), 1);
    let key = digest("test", b"effect");
    let request = EffectRequest {
        idempotency: key,
        verb: EffectVerb::MarkRead,
        target: EffectTarget {
            account: key,
            object: key,
            locator: ProviderLocator::parse("gmail:message:18d00a").expect("locator"),
        },
    };
    let effect = GmailEffect::from_request(request).expect("effect");
    assert_eq!(mark_read_body().remove_label_ids, ["UNREAD"]);
    connector
        .transport()
        .execute(mark_read_request(&effect, MODIFY_BODY.to_vec()))
        .expect("modify");
    let read = GmailMessage { label_ids: vec!["INBOX".into()], ..message() };
    assert!(matches!(mark_read_outcome(&effect, &read), EffectOutcome::Applied { .. }));
    assert_eq!(connector.into_inner().finish().expect("transcript").len(), 3);
}

#[test]
fn gmail_accounts_and_locators_are_checked() {
    assert!(GmailAccount::parse("me@example.com").is_ok());
    assert!(GmailAccount::parse("me.example.com").is_err());
    assert!(GmailAccount::parse("me@exa\nmple.com").is_err());
    assert!(GmailCursor { history_id: String::new() }.check().is_err());
    let key = digest("test", b"effect");
    let request = |verb, locator: &str| EffectRequest {
        idempotency: key,
        verb,
        target: EffectTarget {
            account: key,
            object: key,
            locator: ProviderLocator::parse(locator).expect("locator"),
        },
    };
    assert!(GmailEffect::from_request(request(EffectVerb::SendReadReceipt, "gmail:message:1")).is_err());
    assert!(GmailEffect::from_request(request(EffectVerb::MarkRead, "gmail:message:")).is_err());
    assert!(GmailEffect::from_request(request(EffectVerb::MarkRead, "slack:message:1")).is_err());
    assert_eq!(
        GmailEffect::from_request(request(EffectVerb::MarkRead, "gmail:message:abc")).expect("effect").message_id,
        "abc"
    );
}

#[test]
fn gmail_initial_sync_checks_the_profile() {
    let account = GmailAccount::parse("me@example.com").expect("account");
    let connector = GmailConnector::new((), account);
    let mut pull = connector.begin_pull(None);
    assert_eq!(pull.stage(), GmailStage::Profile);
    let r = pull.receive_profile(tm20::providers::gmail::GmailProfile {
        email_address: "other@example.com".into(),
        history_id: "7".into(),
    });
    assert!(matches!(r, Err(ProviderError::Protocol { reason, .. }) if reason == "profile email does not match configured account"));
}

fn info() -> BridgeInfo {
    BridgeInfo {
        bridge_id: "phone-1".into(),
        protocol_version: 1,
        capabilities: BridgeCapabilities {
            event_backfill: true,
            push_events: true,
            read_receipts: true,
            attachments: true,
        },
    }
}

fn bridge_event(sequence: u64, id: &str) -> BridgeEvent {
    BridgeEvent {
        sequence,
        event_id: id.into(),
        occurred_at: "2026-08-22T15:00:00Z".into(),
        kind: BridgeEventKind::MessageCreated {
            message: IMessage {
                id: "msg-1".into(),
                conversation_id: "chat-1".into(),
                sender: "+15551234567".into(),
                sent_at: "2026-08-22T15:00:00Z".into(),
                text: "Train at 12:48".into(),
                attachments: Vec::new(),
            },
        },
    }
}

#[test]
fn backfill_and_read_receipt_define_the_bridge_contract() {
    let mut http = MockHttp::new();
    http.expect_json(HttpRequest::get("/bridge/v1/info"), 200, b"{}".to_vec())
        .expect("info");
    http.expect_json(
        HttpRequest::get("/bridge/v1/events").query("after", "0").query("limit", "500"),
        200,
        b"{}".to_vec(),
    )
    .expect("events");
    let idempotency = digest("test", b"receipt");
    let body = |through: &str, key: &str| {
        format!(r#"{{"through_message_id":"{through}","idempotency_key":"{key}"}}"#).into_bytes()
    };
    let hex_key: String = idempotency.0.iter().map(|b| format!("{b:02x}")).collect();
    http.expect_json(
        HttpRequest::post_json("/bridge/v1/conversations/chat-1/read-receipts", body("msg-1", &hex_key)),
        200,
        b"{}".to_vec(),
    )
    .expect("receipt");
    let mut connector = IMessageConnector::new(http);
    connector.transport().execute(info_request()).expect("info");
    let mut pull = connector.begin_pull(None, info()).expect("bridge");
    while let Some(request) = pull.next_request() {
        connector.transport().execute(request).expect("events");
        pull.receive(BridgeEventPage { events: vec![bridge_event(1, "event-1")], next_sequence: 1, has_more: false })
            .expect("page");
    }
    let batch = pull.finish().expect("pull");
    assert_eq!(batch.observations.len(), 1);
    assert_eq!(batch.next_cursor.sequence, 1);
    assert_eq!(batch.observations[0].occurred_at, 1_787_410_800_000);
    let request = EffectRequest {
        idempotency,
        verb: EffectVerb::SendReadReceipt,
        target: EffectTarget {
            account: digest("test", b"account"),
            object: digest("test", b"message"),
            locator: ProviderLocator::parse("imessage:conversation:chat-1:message:msg-1").expect("locator"),
        },
    };
    let effect = IMessageReadReceipt::from_request(request).expect("effect");
    let receipt = receipt_body(&effect);
    assert_eq!(receipt.idempotency_key, hex_key);
    connector
        .transport()
        .execute(receipt_request(&effect, body(&receipt.through_message_id, &receipt.idempotency_key)))
        .expect("receipt");
    let response = ReadReceiptResponse {
        receipt_id: "receipt-1".into(),
        status: ReceiptStatus::Applied,
        applied_at: "2026-08-22T15:01:00Z".into(),
    };
    assert!(matches!(receipt_outcome(&response), EffectOutcome::Applied { .. }));
    assert_eq!(connector.into_inner().finish().expect("transcript").len(), 3);
}

#[test]
fn bridge_events_come_out_in_sequence_order_once() {
    let mut connector = IMessageConnector::new(());
    connector.push_event(bridge_event(7, "e7"));
    connector.push_event(bridge_event(7, "e7"));
    connector.push_event(bridge_event(2, "e2"));
    let cursor = IMessageCursor { bridge_id: "phone-1".into(), sequence: 2 };
    let mut pull = connector.begin_pull(Some(&cursor), info()).expect("bridge");
    pull.receive(BridgeEventPage {
        events: vec![bridge_event(5, "e5"), bridge_event(7, "e7"), bridge_event(3, "e3")],
        next_sequence: 7,
        has_more: false,
    })
    .expect("page");
    assert!(pull.next_request().is_none());
    let batch = pull.finish().expect("pull");
    let sequences: Vec<u64> = batch.observations.iter().map(|o| o.event.sequence).collect();
    assert_eq!(sequences, vec![3, 5, 7]);
    assert_eq!(batch.next_cursor.sequence, 7);
}

#[test]
fn bridge_contract_violations_are_errors() {
    let mut connector = IMessageConnector::new(());
    let mut old = info();
    old.protocol_version = 2;
    assert!(matches!(connector.begin_pull(None, old), Err(ProviderError::Protocol { .. })));
    let cursor = IMessageCursor { bridge_id: "phone-2".into(), sequence: 0 };
    assert!(matches!(
        connector.begin_pull(Some(&cursor), info()),
        Err(ProviderError::Cursor { reason: "bridge identity changed", .. })
    ));
    let mut pull = connector.begin_pull(None, info()).expect("bridge");
    pull.receive(BridgeEventPage { events: vec![bridge_event(4, "e4")], next_sequence: 4, has_more: true })
        .expect("first page");
    assert!(matches!(
        pull.receive(BridgeEventPage { events: vec![bridge_event(4, "e4b")], next_sequence: 5, has_more: false }),
        Err(ProviderError::Protocol { reason, .. }) if reason == "event sequence did not advance"
    ));
    let mut bad_time = connector.begin_pull(None, info()).expect("bridge");
    let mut event = bridge_event(1, "e1");
    event.occurred_at = "yesterday".into();
    bad_time
        .receive(BridgeEventPage { events: vec![event], next_sequence: 1, has_more: false })
        .expect("page");
    assert!(matches!(
        bad_time.finish(),
        Err(ProviderError::Protocol { reason, .. }) if reason.starts_with("event time is not RFC3339: ")
    ));
}

#[test]
fn read_receipt_locators_need_both_parts() {
    let key = digest("test", b"receipt");
    let request = |locator: &str| EffectRequest {
        idempotency: key,
        verb: EffectVerb::SendReadReceipt,
        target: EffectTarget {
            account: key,
            object: key,
            locator: ProviderLocator::parse(locator).expect("locator"),
        },
    };
    assert!(IMessageReadReceipt::from_request(request("imessage:conversation::message:m")).is_err());
    assert!(IMessageReadReceipt::from_request(request("imessage:conversation:c:message:")).is_err());
    assert!(IMessageReadReceipt::from_request(request("imessage:chat:c:message:m")).is_err());
    let effect = IMessageReadReceipt::from_request(request("imessage:conversation:a:message:b:message:c"))
        .expect("effect");
    assert_eq!(effect.conversation_id, "a");
    assert_eq!(effect.through_message_id, "b:message:c");
}

fn chat_event(n: u32, time: &str) -> ChatSpaceEvent {
    ChatSpaceEvent {
        name: format!("spaces/AAA/spaceEvents/{n}"),
        event_time: time.into(),
        event_type: "google.workspace.chat.message.v1.created".into(),
        message: ChatMessage {
            name: format!("spaces/AAA/messages/{n}"),
            thread: ChatThread { name: "spaces/AAA/threads/1".into() },
            sender: ChatUser { name: "users/1".into(), display_name: "Ada".into() },
            create_time: time.into(),
            last_update_time: time.into(),
            text: "Build is green".into(),
            argument_text: String::new(),
        },
    }
}

const EVENT_TYPES: &str = "google.workspace.chat.message.v1.created,google.workspace.chat.message.v1.updated,google.workspace.chat.message.v1.deleted";

#[test]
fn space_events_are_the_recovery_contract() {
    let mut http = MockHttp::new();
    http.expect_json(
        HttpRequest::get("/chat/v1/spaces/AAA/spaceEvents")
            .query("filter", "eventTime > \"1970-01-01T00:00:00Z\"")
            .query("eventTypes", EVENT_TYPES)
            .query("pageSize", "1000"),
        200,
        b"{}".to_vec(),
    )
    .expect("events");
    let mut connector = GoogleChatConnector::new(http, "users/me", &["spaces/AAA"]).expect("connector");
    let mut pull = connector.begin_pull(None);
    while let Some(request) = pull.next_request() {
        connector.transport().execute(request).expect("events");
        pull.receive(SpaceEventsResponse {
            space_events: vec![chat_event(1, "2026-08-22T15:00:00Z")],
            next_page_token: String::new(),
        })
        .expect("page");
    }
    let batch = pull.finish();
    assert_eq!(batch.observations.len(), 1);
    assert_eq!(batch.next_cursor.watermarks.len(), 1);
    assert_eq!(connector.into_inner().finish().expect("transcript").len(), 1);
}

#[test]
fn chat_watermarks_resume_each_space_and_stay_ordered() {
    let cursor = GoogleChatCursor {
        watermarks: vec![ChatWatermark { space: "spaces/BBB".into(), event_time: "2026-01-01T00:00:00Z".into() }],
    };
    let connector = GoogleChatConnector::new((), "users/me", &["spaces/BBB", "spaces/AAA"]).expect("connector");
    let mut pull = connector.begin_pull(Some(&cursor));
    let first = pull.next_request().expect("first space");
    assert_eq!(first.path, "/chat/v1/spaces/BBB/spaceEvents");
    assert_eq!(first.query[0].1, "eventTime > \"2026-01-01T00:00:00Z\"");
    pull.receive(SpaceEventsResponse { space_events: vec![chat_event(2, "2026-02-01T00:00:00Z")], next_page_token: String::new() })
        .expect("page");
    pull.receive(SpaceEventsResponse { space_events: vec![chat_event(3, "2026-03-01T00:00:00Z")], next_page_token: String::new() })
        .expect("page");
    assert!(pull.next_request().is_none());
    let batch = pull.finish();
    let spaces: Vec<&str> = batch.next_cursor.watermarks.iter().map(|w| w.space.as_str()).collect();
    assert_eq!(spaces, vec!["spaces/AAA", "spaces/BBB"]);
    assert_eq!(batch.next_cursor.watermarks[1].event_time, "2026-02-01T00:00:00Z");
    assert!(GoogleChatConnector::new((), "", &["spaces/AAA"]).is_err());
}

#[test]
fn chat_event_times_must_be_rfc3339() {
    let connector = GoogleChatConnector::new((), "users/me", &["spaces/AAA"]).expect("connector");
    let mut pull = connector.begin_pull(None);
    let r = pull.receive(SpaceEventsResponse { space_events: vec![chat_event(1, "noon")], next_page_token: String::new() });
    assert!(matches!(r, Err(ProviderError::Protocol { provider: "google-chat", reason }) if reason.starts_with("eventTime is not RFC3339: ")));
}

#[test]
fn provider_errors_name_the_provider() {
    let e = tm20::providers::provider_error("slack", tm20::http::TransportError::InvalidStatus(7));
    assert_eq!(e.message(), "slack: invalid HTTP status 7");
    let e = ProviderError::Cursor { provider: "imessage", reason: "bridge identity changed" };
    assert_eq!(e.message(), "imessage: invalid cursor: bridge identity changed");
    let e = ProviderError::Protocol { provider: "gmail", reason: "bad".into() };
    assert_eq!(e.message(), "gmail: invalid provider response: bad");
}

#[test]
fn digests_depend_on_namespace_and_framing() {
    let a = tm20::providers::digest_parts("ns", &[b"ab", b"c"]);
    let b = tm20::providers::digest_parts("ns", &[b"a", b"bc"]);
    let c = tm20::providers::digest_parts("other", &[b"ab", b"c"]);
    assert_ne!(a, b);
    assert_ne!(a, c);
    assert_eq!(a, tm20::providers::digest_parts("ns", &[b"ab", b"c"]));
    let mut framed = b"ns".to_vec();
    for v in [&b"ab"[..], &b"c"[..]] {
        framed.extend_from_slice(&(v.len() as u64).to_be_bytes());
        framed.extend_from_slice(v);
    }
    assert_eq!(a.0, *blake3::hash(&framed).as_bytes());
}
