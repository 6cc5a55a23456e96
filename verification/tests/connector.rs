use tm20::{
    Capability, Connector, ConnectorDescriptor, ConnectorError, ConnectorKey, ConnectorRegistry,
    CursorCodec, CursorToken, EffectOutcome, EffectRequest, EffectTarget, EffectVerb,
    ErasedConnector, ExternalKey, NormalizedObservation, ProviderLocator, SourceClass,
    TypedConnector, TypedPullBatch,
};

const CAPS: &[Capability] = &[
    Capability::Reconcile,
    Capability::Effect(EffectVerb::MarkRead),
];

fn key() -> ConnectorKey {
    ConnectorKey::new("mail-test")
}

#[derive(Debug, Clone, Copy, PartialEq, Eq)]
struct MailCursor(u64);

impl CursorCodec for MailCursor {
    fn encode(&self) -> CursorToken {
        CursorToken::parse(self.0.to_be_bytes().to_vec()).expect("nonempty")
    }

    fn decode(token: &CursorToken) -> Result<Self, ConnectorError> {
        let bytes: [u8; 8] = token
            .as_bytes()
            .try_into()
            .map_err(|_| ConnectorError::InvalidCursor("mail cursor is not eight bytes"))?;
        Ok(Self(u64::from_be_bytes(bytes)))
    }
}

#[derive(Debug)]
struct MailError;

#[derive(Debug)]
struct MailEffect(EffectRequest);

struct MailConnector;

impl TypedConnector for MailConnector {
    type Cursor = MailCursor;
    type Event = NormalizedObservation;
    type Effect = MailEffect;
    type Error = MailError;

    fn descriptor(&self) -> ConnectorDescriptor {
        ConnectorDescriptor {
            key: key(),
            label: "Mail test",
            class: SourceClass::Mail,
            capabilities: CAPS,
        }
    }

    fn pull(
        &mut self,
        cursor: Option<&Self::Cursor>,
    ) -> Result<TypedPullBatch<Self::Cursor, Self::Event>, Self::Error> {
        Ok(TypedPullBatch {
            observations: Vec::new(),
            next_cursor: MailCursor(cursor.map_or(1, |cursor| cursor.0 + 1)),
        })
    }

    fn apply(&mut self, effect: &Self::Effect) -> Result<EffectOutcome, Self::Error> {
        Ok(EffectOutcome::Applied {
            receipt: effect.0.idempotency,
        })
    }

    fn observe(event: Self::Event) -> NormalizedObservation {
        event
    }

    fn effect(request: EffectRequest) -> Result<Self::Effect, ConnectorError> {
        if request.verb == EffectVerb::MarkRead {
            Ok(MailEffect(request))
        } else {
            Err(ConnectorError::EffectForAnotherProvider)
        }
    }

    fn describe(_: &Self::Error) -> String {
        "mail failed".into()
    }
}

fn request(verb: EffectVerb) -> EffectRequest {
    let key = ExternalKey([7; 32]);
    EffectRequest {
        idempotency: key,
        verb,
        target: EffectTarget {
            account: key,
            object: key,
            locator: ProviderLocator::parse("message-1").expect("locator"),
        },
    }
}

#[test]
fn typed_connector_erases_once_at_the_registry() {
    let mut registry = ConnectorRegistry::new();
    registry.register(MailConnector).expect("register");
    let connector = registry.connector_mut(key()).expect("lookup");
    let first = connector.pull(None).expect("pull");
    let second = connector.pull(Some(&first.next_cursor)).expect("reconcile");
    assert_eq!(MailCursor::decode(&second.next_cursor), Ok(MailCursor(2)));
}

#[test]
fn capability_prevents_an_impossible_effect_from_entering_the_plugin() {
    let mut connector = ErasedConnector::new(MailConnector);
    assert!(matches!(
        connector.apply_typed(request(EffectVerb::SendReadReceipt)),
        Err(ConnectorError::UnsupportedEffect { .. })
    ));
    assert!(matches!(
        connector.apply_typed(request(EffectVerb::MarkRead)),
        Ok(EffectOutcome::Applied { .. })
    ));
}

#[test]
fn registry_rejects_ambiguous_identity() {
    let mut registry = ConnectorRegistry::new();
    registry.register(MailConnector).expect("first");
    assert!(matches!(
        registry.register(MailConnector),
        Err(ConnectorError::DuplicateConnector(k)) if k == key()
    ));
    assert!(matches!(
        registry.connector_mut(ConnectorKey::new("other")),
        Err(ConnectorError::UnknownConnector(_))
    ));
    assert_eq!(registry.descriptors().len(), 1);
}

#[test]
fn cursors_and_locators_refuse_empty_or_control_text() {
    assert_eq!(CursorToken::parse(Vec::new()), Err(ConnectorError::EmptyCursor));
    assert_eq!(ProviderLocator::parse(""), Err(ConnectorError::InvalidProviderLocator));
    assert_eq!(ProviderLocator::parse("a\u{7}b"), Err(ConnectorError::InvalidProviderLocator));
    assert_eq!(ProviderLocator::parse("thread/42").unwrap().as_str(), "thread/42");
}

#[test]
fn connector_errors_read_as_sentences() {
    let key = tm20::ConnectorKey::new("gmail");
    assert_eq!(tm20::ConnectorError::DuplicateConnector(key).message(), "connector gmail is already registered");
    assert_eq!(
        tm20::ConnectorError::UnsupportedEffect { connector: key, verb: tm20::EffectVerb::SendReadReceipt }.message(),
        "connector gmail does not support SendReadReceipt"
    );
    assert_eq!(tm20::ConnectorError::InvalidCursor("bad").message(), "invalid cursor: bad");
}

#[test]
fn registry_descriptors_follow_registration_order() {
    let mut registry = ConnectorRegistry::new();
    assert!(registry.descriptors().is_empty());
    registry.register(MailConnector).expect("first");
    let expected = ConnectorDescriptor {
        key: key(),
        label: "Mail test",
        class: SourceClass::Mail,
        capabilities: CAPS,
    };
    assert_eq!(registry.descriptors(), vec![expected]);
    assert!(registry.register(MailConnector).is_err());
    assert_eq!(registry.descriptors(), vec![expected]);
}

#[test]
fn connector_mut_hands_back_the_connector_under_the_key() {
    let mut registry = ConnectorRegistry::new();
    registry.register(MailConnector).expect("register");
    let connector = registry.connector_mut(key()).expect("lookup");
    assert_eq!(connector.descriptor().key, key());
    assert_eq!(connector.descriptor().label, "Mail test");
}
