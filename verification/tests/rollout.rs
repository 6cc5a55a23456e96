use std::collections::HashSet;

use tm20::{BuiltinConnector, EffectVerb, RolloutStage, rollout};

#[test]
fn plugin_identity_is_unique_data() {
    let keys = [
        BuiltinConnector::HackerNews,
        BuiltinConnector::Gmail,
        BuiltinConnector::Slack,
        BuiltinConnector::GoogleChat,
        BuiltinConnector::IMessage,
    ]
    .map(|connector| connector.plan().descriptor.key);
    assert_eq!(keys.into_iter().collect::<HashSet<_>>().len(), keys.len());
}

#[test]
fn risky_bridges_land_after_the_reliable_cursor_foundation() {
    assert_eq!(
        rollout(),
        [
            RolloutStage::SyntheticFoundation,
            RolloutStage::Connector(BuiltinConnector::HackerNews),
            RolloutStage::Connector(BuiltinConnector::Gmail),
            RolloutStage::Connector(BuiltinConnector::Slack),
            RolloutStage::Connector(BuiltinConnector::GoogleChat),
            RolloutStage::Connector(BuiltinConnector::IMessage),
        ]
    );
}

#[test]
fn capability_matrix_exposes_only_real_writebacks() {
    let hn = BuiltinConnector::HackerNews.plan().descriptor;
    let gmail = BuiltinConnector::Gmail.plan().descriptor;
    let imessage = BuiltinConnector::IMessage.plan().descriptor;
    assert!(!hn.supports(EffectVerb::MarkRead));
    assert!(gmail.supports(EffectVerb::MarkRead));
    assert!(!gmail.supports(EffectVerb::SendReadReceipt));
    assert!(imessage.supports(EffectVerb::SendReadReceipt));
}

#[test]
fn keys_are_the_registry_spellings() {
    assert_eq!(BuiltinConnector::IMessage.plan().descriptor.key.as_str(), "imessage-smserver");
    assert_eq!(BuiltinConnector::GoogleChat.plan().descriptor.key.as_str(), "google-chat");
}

#[test]
fn each_provider_descriptor_agrees_with_its_row() {
    assert_eq!(
        tm20::providers::imessage::descriptor(),
        BuiltinConnector::IMessage.plan().descriptor
    );
    assert_eq!(tm20::providers::imessage::descriptor().key.as_str(), "imessage-smserver");
    assert_eq!(tm20::providers::imessage::descriptor().label, "iMessage via SMServer");
    assert_eq!(
        tm20::providers::hacker_news::descriptor(),
        BuiltinConnector::HackerNews.plan().descriptor
    );
    assert_eq!(tm20::providers::gmail::descriptor(), BuiltinConnector::Gmail.plan().descriptor);
    assert_eq!(tm20::providers::slack::descriptor(), BuiltinConnector::Slack.plan().descriptor);
    assert_eq!(
        tm20::providers::google_chat::descriptor(),
        BuiltinConnector::GoogleChat.plan().descriptor
    );
}

#[test]
fn rows_carry_their_operational_notes() {
    let plan = BuiltinConnector::Gmail.plan();
    assert_eq!(plan.durable_cursor, "mailbox historyId");
    assert_eq!(plan.recovery, "bounded full resync when historyId expires");
    assert_eq!(plan.risk, "testing OAuth refresh tokens expire after seven days");
    assert_eq!(BuiltinConnector::IMessage.plan().descriptor.label, "iMessage via SMServer");
}
