use tm20::http::{HttpRequest, HttpTransport, MockHttp};
use tm20::providers::gmail::{
    GmailAccount, GmailConnector, GmailCursor, GmailHeader, GmailHistory, GmailHistoryResponse,
    GmailMessage, GmailMessageAdded, GmailMessageRef, GmailPayload, GmailStage, GmailEffect,
    mark_read_outcome, mark_read_request, observation,
};
use tm20::{
    AttemptId, Candidate, DeliveryMachine, Digest, DigestItem, EditionId, EffectOutcome,
    EffectTarget, EffectVerb, ExternalKey, InterruptionWindow, Lane, Privacy, ProviderLocator,
    Section, SenderTrust, Signal, SourceClass, SourceCopy, UnixMillis, Urgency, default_policy,
    render_digest,
};

const MODIFY_BODY: &[u8] = br#"{"removeLabelIds":["UNREAD"]}"#;

fn message(unread: bool) -> GmailMessage {
    let mut label_ids = vec!["INBOX".to_string()];
    if unread {
        label_ids.push("UNREAD".into());
    }
    GmailMessage {
        id: "18d00a".into(),
        thread_id: "thread-1".into(),
        label_ids,
        internal_date: "1700000000000".into(),
        snippet: "Status".into(),
        payload: GmailPayload {
            headers: vec![
                GmailHeader { name: "From".into(), value: "Ada <ada@example.com>".into() },
                GmailHeader { name: "Subject".into(), value: "Status".into() },
            ],
        },
    }
}

fn gmail_fixture() -> (GmailConnector<MockHttp>, GmailCursor, ExternalKey) {
    let mut http = MockHttp::new();
    http.expect_json(
        HttpRequest::get("/gmail/v1/users/me/history")
            .query("startHistoryId", "100")
            .query("historyTypes", "messageAdded")
            .query("labelId", "INBOX"),
        200,
        b"{}".to_vec(),
    )
    .expect("history fixture");
    http.expect_json(
        HttpRequest::get("/gmail/v1/users/me/messages/18d00a")
            .query("format", "metadata")
            .query("metadataHeaders", "From")
            .query("metadataHeaders", "Subject")
            .query("metadataHeaders", "Date"),
        200,
        b"{}".to_vec(),
    )
    .expect("message fixture");
    http.expect_json(
        HttpRequest::post_json("/gmail/v1/users/me/messages/18d00a/modify", MODIFY_BODY.to_vec()),
        200,
        b"{}".to_vec(),
    )
    .expect("modify fixture");
    let account = GmailAccount::parse("me@example.com").expect("account");
    (GmailConnector::new(http, account), GmailCursor { history_id: "100".into() }, ExternalKey([9; 32]))
}

#[test]
fn gmail_mock_runs_through_route_paper_delivery_and_writeback() {
    let (mut connector, cursor, idempotency) = gmail_fixture();
    let mut pull = connector.begin_pull(Some(&cursor));
    while let Some(request) = pull.next_request() {
        connector.transport().execute(request).expect("exchange");
        match pull.stage() {
            GmailStage::History => pull.receive_history(GmailHistoryResponse {
                history: vec![GmailHistory {
                    id: "101".into(),
                    messages_added: vec![GmailMessageAdded {
                        message: GmailMessageRef { id: "18d00a".into(), thread_id: "thread-1".into() },
                    }],
                }],
                history_id: "101".into(),
                next_page_token: None,
            }),
            GmailStage::Messages => pull.receive_message(message(true)),
            stage => panic!("unexpected stage {stage:?}"),
        }
    }
    let batch = pull.finish();
    assert_eq!(batch.observations.len(), 1);
    let observation = observation(&batch.observations[0], b"{\"id\":\"18d00a\"}");

    let candidate = Candidate {
        class: SourceClass::Mail,
        signal: Signal::DirectMessage,
        urgency: Urgency::Normal,
        trust: SenderTrust::Untrusted,
        window: InterruptionWindow::Open,
    };
    let policy = default_policy();
    let decision = policy.route(candidate);
    assert_eq!(decision.lane, Lane::NextDigest);
    assert_eq!(decision.privacy, Privacy::MetadataOnly);

    let copy = SourceCopy::excerpt("Status", "The private body must not reach metadata-only paper.")
        .expect("source copy")
        .project(decision.privacy)
        .expect("privacy projection");
    assert_eq!(copy.as_str(), "Status");
    let item = DigestItem::parse(Section::Mail, "Gmail", "Ada", "now", copy, 1).expect("digest item");
    let digest = Digest::parse("Now", "D-MOCK", vec![item], 1).expect("digest");
    let rendered = render_digest(&digest);
    assert!(rendered.markdown.contains("Status"));
    assert!(!rendered.markdown.contains("private body"));

    let encoded = ExternalKey([3; 32]);
    let delivered = DeliveryMachine::plan(AttemptId(1), EditionId(1), 0, UnixMillis(1))
        .encoded(UnixMillis(2), encoded)
        .transmitting(UnixMillis(3))
        .delivered(UnixMillis(4));
    let verb = *policy.effects_for(candidate, decision).first().expect("mail writeback");
    assert_eq!(verb, EffectVerb::MarkRead);
    let effect = DeliveryMachine::release_effect(
        &delivered,
        idempotency,
        verb,
        EffectTarget {
            account: observation.account,
            object: observation.object,
            locator: ProviderLocator::parse("gmail:message:18d00a").expect("locator"),
        },
    );
    let effect = GmailEffect::from_request(effect.request).expect("mark read");
    connector
        .transport()
        .execute(mark_read_request(&effect, MODIFY_BODY.to_vec()))
        .expect("modify");
    assert!(matches!(mark_read_outcome(&effect, &message(false)), EffectOutcome::Applied { .. }));

    assert_eq!(connector.into_inner().finish().expect("transcript").len(), 3);
}
