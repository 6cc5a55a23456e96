//! Built-in connector capability matrix and staged rollout.
//!
//! This is product data, not runtime branching. A connector implementation
//! must agree with its row before registration.

use vstd::prelude::*;

use crate::connector::{Capability, ConnectorDescriptor, ConnectorKey, EffectVerb, SourceClass};

verus! {

#[derive(Debug, Clone, Copy, PartialEq, Eq, Hash, Structural)]
pub enum BuiltinConnector {
    HackerNews,
    Gmail,
    Slack,
    GoogleChat,
    IMessage,
}

#[derive(Debug, Clone, Copy, PartialEq, Eq, Structural)]
pub enum Ingestion {
    Poll,
    SocketWithReconciliation,
    PullSubscriptionWithReconciliation,
}

/// What must be arranged outside this program before a connector can run.
#[derive(Debug, Clone, Copy, PartialEq, Eq, Structural)]
pub enum SetupGate {
    Ungated,
    GoogleOAuthRestrictedScope,
    SlackWorkspaceApproval,
    GoogleChatWorkspaceAccess,
    JailbreakBridgeCompatibility,
}

#[derive(Debug, Clone, Copy, PartialEq, Eq)]
pub struct ConnectorPlan {
    pub connector: BuiltinConnector,
    pub descriptor: ConnectorDescriptor,
    pub ingestion: Ingestion,
    pub durable_cursor: &'static str,
    pub recovery: &'static str,
    pub setup_gate: SetupGate,
    pub risk: &'static str,
}

impl BuiltinConnector {
    /// The registry key of the connector.
    pub open spec fn spec_key(self) -> Seq<char> {
        match self {
            BuiltinConnector::HackerNews => "hacker-news"@,
            BuiltinConnector::Gmail => "gmail"@,
            BuiltinConnector::Slack => "slack"@,
            BuiltinConnector::GoogleChat => "google-chat"@,
            BuiltinConnector::IMessage => "imessage-smserver"@,
        }
    }

    /// The human-readable name of the connector.
    pub open spec fn spec_label(self) -> Seq<char> {
        match self {
            BuiltinConnector::HackerNews => "Hacker News"@,
            BuiltinConnector::Gmail => "Gmail"@,
            BuiltinConnector::Slack => "Slack"@,
            BuiltinConnector::GoogleChat => "Google Chat"@,
            BuiltinConnector::IMessage => "iMessage via SMServer"@,
        }
    }

    /// What the connector keeps as its durable cursor.
    pub open spec fn spec_durable_cursor(self) -> Seq<char> {
        match self {
            BuiltinConnector::HackerNews => "maxitem plus ranking snapshot"@,
            BuiltinConnector::Gmail => "mailbox historyId"@,
            BuiltinConnector::Slack => "workspace, channel, message timestamp"@,
            BuiltinConnector::GoogleChat => "space event time with overlap"@,
            BuiltinConnector::IMessage => "bridge identity plus message GUID"@,
        }
    }

    /// How the connector catches up after a gap.
    pub open spec fn spec_recovery(self) -> Seq<char> {
        match self {
            BuiltinConnector::HackerNews => "scan unseen numeric item ids, then refresh top/best/new"@,
            BuiltinConnector::Gmail => "bounded full resync when historyId expires"@,
            BuiltinConnector::Slack => "conversations.history from each channel watermark"@,
            BuiltinConnector::GoogleChat => "spaceEvents.list per selected space"@,
            BuiltinConnector::IMessage => "SMServer REST backfill after WebSocket reconnect"@,
        }
    }

    /// The main operational risk of the connector.
    pub open spec fn spec_risk(self) -> Seq<char> {
        match self {
            BuiltinConnector::HackerNews => "ranking endpoints are bounded and are not durable cursors"@,
            BuiltinConnector::Gmail => "testing OAuth refresh tokens expire after seven days"@,
            BuiltinConnector::Slack => "the app only sees conversations it is permitted to join"@,
            BuiltinConnector::GoogleChat => "subscriptions expire and require Google Cloud control-plane setup"@,
            BuiltinConnector::IMessage => "private iOS frameworks and background execution are version-fragile"@,
        }
    }

    /// `d` is the descriptor of this connector's row: its key, label, class
    /// and capabilities. A connector implementation must agree with its row.
    pub open spec fn row_descriptor(self, d: ConnectorDescriptor) -> bool {
        &&& d.key@ == self.spec_key()
        &&& d.label@ == self.spec_label()
        &&& d.class == self.spec_class()
        &&& d.capabilities@ == self.spec_capabilities()
    }

    pub open spec fn spec_class(self) -> SourceClass {
        match self {
            BuiltinConnector::HackerNews => SourceClass::PublicFeed,
            BuiltinConnector::Gmail => SourceClass::Mail,
            BuiltinConnector::Slack => SourceClass::WorkspaceChat,
            BuiltinConnector::GoogleChat => SourceClass::WorkspaceChat,
            BuiltinConnector::IMessage => SourceClass::PersonalMessaging,
        }
    }

    /// The capabilities of the connector: every one reconciles; Gmail marks
    /// mail read and iMessage sends read receipts.
    pub open spec fn spec_capabilities(self) -> Seq<Capability> {
        match self {
            BuiltinConnector::Gmail => seq![
                Capability::Reconcile,
                Capability::Effect(EffectVerb::MarkRead),
            ],
            BuiltinConnector::IMessage => seq![
                Capability::Reconcile,
                Capability::Effect(EffectVerb::SendReadReceipt),
            ],
            BuiltinConnector::HackerNews => seq![Capability::Reconcile],
            BuiltinConnector::Slack => seq![Capability::Reconcile],
            BuiltinConnector::GoogleChat => seq![Capability::Reconcile],
        }
    }

    pub open spec fn spec_ingestion(self) -> Ingestion {
        match self {
            BuiltinConnector::HackerNews => Ingestion::Poll,
            BuiltinConnector::Gmail => Ingestion::PullSubscriptionWithReconciliation,
            BuiltinConnector::Slack => Ingestion::SocketWithReconciliation,
            BuiltinConnector::GoogleChat => Ingestion::PullSubscriptionWithReconciliation,
            BuiltinConnector::IMessage => Ingestion::SocketWithReconciliation,
        }
    }

    pub open spec fn spec_setup_gate(self) -> SetupGate {
        match self {
            BuiltinConnector::HackerNews => SetupGate::Ungated,
            BuiltinConnector::Gmail => SetupGate::GoogleOAuthRestrictedScope,
            BuiltinConnector::Slack => SetupGate::SlackWorkspaceApproval,
            BuiltinConnector::GoogleChat => SetupGate::GoogleChatWorkspaceAccess,
            BuiltinConnector::IMessage => SetupGate::JailbreakBridgeCompatibility,
        }
    }

    /// The capability row of the connector.
    pub fn plan(self) -> (p: ConnectorPlan)
        ensures
            p.connector == self,
            self.row_descriptor(p.descriptor),
            p.ingestion == self.spec_ingestion(),
            p.durable_cursor@ == self.spec_durable_cursor(),
            p.recovery@ == self.spec_recovery(),
            p.setup_gate == self.spec_setup_gate(),
            p.risk@ == self.spec_risk(),
    {
        let reconcile: &'static [Capability] = &[Capability::Reconcile];
        assert(reconcile@ =~= seq![Capability::Reconcile]);
        match self {
            BuiltinConnector::HackerNews => {
                proof {
                    reveal_strlit("hacker-news");
                }
                ConnectorPlan {
                    connector: self,
                    descriptor: ConnectorDescriptor {
                        key: ConnectorKey::new("hacker-news"),
                        label: "Hacker News",
                        class: SourceClass::PublicFeed,
                        capabilities: reconcile,
                    },
                    ingestion: Ingestion::Poll,
                    durable_cursor: "maxitem plus ranking snapshot",
                    recovery: "scan unseen numeric item ids, then refresh top/best/new",
                    setup_gate: SetupGate::Ungated,
                    risk: "ranking endpoints are bounded and are not durable cursors",
                }
            },
            BuiltinConnector::Gmail => {
                proof {
                    reveal_strlit("gmail");
                }
                let caps: &'static [Capability] = &[
                    Capability::Reconcile,
                    Capability::Effect(EffectVerb::MarkRead),
                ];
                ConnectorPlan {
                    connector: self,
                    descriptor: ConnectorDescriptor {
                        key: ConnectorKey::new("gmail"),
                        label: "Gmail",
                        class: SourceClass::Mail,
                        capabilities: caps,
                    },
                    ingestion: Ingestion::PullSubscriptionWithReconciliation,
                    durable_cursor: "mailbox historyId",
                    recovery: "bounded full resync when historyId expires",
                    setup_gate: SetupGate::GoogleOAuthRestrictedScope,
                    risk: "testing OAuth refresh tokens expire after seven days",
                }
            },
            BuiltinConnector::Slack => {
                proof {
                    reveal_strlit("slack");
                }
                ConnectorPlan {
                    connector: self,
                    descriptor: ConnectorDescriptor {
                        key: ConnectorKey::new("slack"),
                        label: "Slack",
                        class: SourceClass::WorkspaceChat,
                        capabilities: reconcile,
                    },
                    ingestion: Ingestion::SocketWithReconciliation,
                    durable_cursor: "workspace, channel, message timestamp",
                    recovery: "conversations.history from each channel watermark",
                    setup_gate: SetupGate::SlackWorkspaceApproval,
                    risk: "the app only sees conversations it is permitted to join",
                }
            },
            BuiltinConnector::GoogleChat => {
                proof {
                    reveal_strlit("google-chat");
                }
                ConnectorPlan {
                    connector: self,
                    descriptor: ConnectorDescriptor {
                        key: ConnectorKey::new("google-chat"),
                        label: "Google Chat",
                        class: SourceClass::WorkspaceChat,
                        capabilities: reconcile,
                    },
                    ingestion: Ingestion::PullSubscriptionWithReconciliation,
                    durable_cursor: "space event time with overlap",
                    recovery: "spaceEvents.list per selected space",
                    setup_gate: SetupGate::GoogleChatWorkspaceAccess,
                    risk: "subscriptions expire and require Google Cloud control-plane setup",
                }
            },
            BuiltinConnector::IMessage => {
                proof {
                    reveal_strlit("imessage-smserver");
                }
                let caps: &'static [Capability] = &[
                    Capability::Reconcile,
                    Capability::Effect(EffectVerb::SendReadReceipt),
                ];
                ConnectorPlan {
                    connector: self,
                    descriptor: ConnectorDescriptor {
                        key: ConnectorKey::new("imessage-smserver"),
                        label: "iMessage via SMServer",
                        class: SourceClass::PersonalMessaging,
                        capabilities: caps,
                    },
                    ingestion: Ingestion::SocketWithReconciliation,
                    durable_cursor: "bridge identity plus message GUID",
                    recovery: "SMServer REST backfill after WebSocket reconnect",
                    setup_gate: SetupGate::JailbreakBridgeCompatibility,
                    risk: "private iOS frameworks and background execution are version-fragile",
                }
            },
        }
    }
}

/// Two different built-in connectors never share a registry key.
pub proof fn lemma_builtin_keys_distinct(a: BuiltinConnector, b: BuiltinConnector)
    requires
        a != b,
    ensures
        a.spec_key() != b.spec_key(),
{
    reveal_strlit("hacker-news");
    reveal_strlit("gmail");
    reveal_strlit("slack");
    reveal_strlit("google-chat");
    reveal_strlit("imessage-smserver");
    assert(a.spec_key()[0] != b.spec_key()[0] || a.spec_key().len() != b.spec_key().len());
}

/// Only Gmail and iMessage write back upstream, each with its own verb.
pub proof fn lemma_writebacks(c: BuiltinConnector, verb: EffectVerb)
    ensures
        c.spec_capabilities().contains(Capability::Effect(verb)) <==> (c
            == BuiltinConnector::Gmail && verb == EffectVerb::MarkRead) || (c
            == BuiltinConnector::IMessage && verb == EffectVerb::SendReadReceipt),
{
    let caps = c.spec_capabilities();
    if caps.contains(Capability::Effect(verb)) {
        let i = choose|i: int| 0 <= i < caps.len() && caps[i] == Capability::Effect(verb);
    }
    if c == BuiltinConnector::Gmail && verb == EffectVerb::MarkRead {
        assert(caps[1] == Capability::Effect(verb));
    }
    if c == BuiltinConnector::IMessage && verb == EffectVerb::SendReadReceipt {
        assert(caps[1] == Capability::Effect(verb));
    }
}

#[derive(Debug, Clone, Copy, PartialEq, Eq, Structural)]
pub enum RolloutStage {
    SyntheticFoundation,
    Connector(BuiltinConnector),
}

/// The rollout order: the synthetic foundation, then the connectors from the
/// most reliable cursor to the riskiest bridge.
pub fn rollout() -> (r: [RolloutStage; 6])
    ensures
        r@ == seq![
            RolloutStage::SyntheticFoundation,
            RolloutStage::Connector(BuiltinConnector::HackerNews),
            RolloutStage::Connector(BuiltinConnector::Gmail),
            RolloutStage::Connector(BuiltinConnector::Slack),
            RolloutStage::Connector(BuiltinConnector::GoogleChat),
            RolloutStage::Connector(BuiltinConnector::IMessage),
        ],
{
    let r = [
        RolloutStage::SyntheticFoundation,
        RolloutStage::Connector(BuiltinConnector::HackerNews),
        RolloutStage::Connector(BuiltinConnector::Gmail),
        RolloutStage::Connector(BuiltinConnector::Slack),
        RolloutStage::Connector(BuiltinConnector::GoogleChat),
        RolloutStage::Connector(BuiltinConnector::IMessage),
    ];
    assert(r@ =~= seq![
        RolloutStage::SyntheticFoundation,
        RolloutStage::Connector(BuiltinConnector::HackerNews),
        RolloutStage::Connector(BuiltinConnector::Gmail),
        RolloutStage::Connector(BuiltinConnector::Slack),
        RolloutStage::Connector(BuiltinConnector::GoogleChat),
        RolloutStage::Connector(BuiltinConnector::IMessage),
    ]);
    r
}

} // verus!
