use tm20::{
    Candidate, EffectVerb, InterruptionWindow, Lane, PolicyError, PolicyTable, Privacy,
    RouteRule, SenderTrust, Signal, SignalSelector, SourceClass, SourceSelector, TrustSelector,
    Urgency, WindowSelector, default_policy,
};

fn candidate(class: SourceClass, signal: Signal) -> Candidate {
    Candidate {
        class,
        signal,
        urgency: Urgency::Normal,
        trust: SenderTrust::Untrusted,
        window: InterruptionWindow::Open,
    }
}

fn rule(key: &'static str, lane: Lane, precedence: i16) -> RouteRule {
    RouteRule {
        key,
        source: SourceSelector::Any,
        signals: SignalSelector::Any,
        trust: TrustSelector::Any,
        window: WindowSelector::Any,
        minimum_urgency: Urgency::Low,
        lane,
        privacy: Privacy::MetadataOnly,
        precedence,
    }
}

#[test]
fn public_feeds_can_never_enter_the_interrupt_lane() {
    let policy = default_policy();
    for signal in [
        Signal::Story,
        Signal::DirectMessage,
        Signal::Mention,
        Signal::Security,
        Signal::Update,
    ] {
        let mut input = candidate(SourceClass::PublicFeed, signal);
        input.urgency = Urgency::Critical;
        input.trust = SenderTrust::Trusted;
        assert_ne!(policy.route(input).lane, Lane::Interrupt);
    }
}

#[test]
fn quiet_hours_are_a_coordinate_in_the_rule_not_a_post_route_patch() {
    let policy = default_policy();
    let mut input = candidate(SourceClass::PersonalMessaging, Signal::DirectMessage);
    input.urgency = Urgency::Critical;
    input.trust = SenderTrust::Trusted;
    assert_eq!(policy.route(input).lane, Lane::Interrupt);
    input.window = InterruptionWindow::Quiet;
    assert_eq!(policy.route(input).lane, Lane::NextDigest);
}

#[test]
fn successful_paper_delivery_has_source_specific_effect_data() {
    let policy = default_policy();
    let input = candidate(SourceClass::Mail, Signal::DirectMessage);
    let decision = policy.route(input);
    assert_eq!(
        policy.effects_for(input, decision),
        vec![EffectVerb::MarkRead]
    );
}

#[test]
fn parser_refuses_a_flag_pile_that_can_interrupt_any_source() {
    let rule = RouteRule {
        key: "bad",
        source: SourceSelector::Any,
        signals: SignalSelector::Any,
        trust: TrustSelector::Any,
        window: WindowSelector::OpenOnly,
        minimum_urgency: Urgency::Low,
        lane: Lane::Interrupt,
        privacy: Privacy::MetadataOnly,
        precedence: 1,
    };
    assert!(matches!(
        PolicyTable::parse(vec![rule], Vec::new()),
        Err(PolicyError::UnsafeInterrupt("bad"))
    ));
}

#[test]
fn routing_picks_the_lowest_precedence_match_whatever_the_input_order() {
    let mut narrow = rule("narrow", Lane::NextDigest, 5);
    narrow.source = SourceSelector::Class(SourceClass::Mail);
    let policy = PolicyTable::parse(vec![rule("rest", Lane::ArchiveOnly, 9), narrow], Vec::new())
        .unwrap();
    let mail = candidate(SourceClass::Mail, Signal::Update);
    assert_eq!(policy.route(mail).rule, "narrow");
    let feed = candidate(SourceClass::PublicFeed, Signal::Update);
    assert_eq!(policy.route(feed).rule, "rest");
    assert_eq!(policy.route(feed).lane, Lane::ArchiveOnly);
}

#[test]
fn every_policy_error_names_its_rule() {
    assert!(matches!(
        PolicyTable::parse(Vec::new(), Vec::new()),
        Err(PolicyError::NoRoutes)
    ));
    assert!(matches!(
        PolicyTable::parse(vec![rule("a", Lane::ArchiveOnly, 1), rule("a", Lane::ArchiveOnly, 2)], Vec::new()),
        Err(PolicyError::DuplicateRule("a"))
    ));
    assert!(matches!(
        PolicyTable::parse(vec![rule("a", Lane::ArchiveOnly, 1), rule("b", Lane::ArchiveOnly, 1)], Vec::new()),
        Err(PolicyError::DuplicatePrecedence(1))
    ));
    assert!(matches!(
        PolicyTable::parse(vec![rule("a", Lane::ArchiveOnly, 1), rule("b", Lane::ArchiveOnly, 2)], Vec::new()),
        Err(PolicyError::FallbackCount(2))
    ));
    let mut narrow = rule("narrow", Lane::NextDigest, 5);
    narrow.source = SourceSelector::Class(SourceClass::Mail);
    assert!(matches!(
        PolicyTable::parse(vec![rule("rest", Lane::ArchiveOnly, 1), narrow], Vec::new()),
        Err(PolicyError::FallbackNotLast)
    ));
    let mut quiet = narrow;
    quiet.lane = Lane::Interrupt;
    assert!(matches!(
        PolicyTable::parse(vec![quiet, rule("rest", Lane::ArchiveOnly, 9)], Vec::new()),
        Err(PolicyError::InterruptDuringQuietHours("narrow"))
    ));
    let mut full = narrow;
    full.privacy = Privacy::FullExcerpt;
    assert!(matches!(
        PolicyTable::parse(vec![full, rule("rest", Lane::ArchiveOnly, 9)], Vec::new()),
        Err(PolicyError::UnsafeFullExcerpt("narrow"))
    ));
}

#[test]
fn policy_errors_read_as_sentences() {
    assert_eq!(tm20::PolicyError::NoRoutes.message(), "policy has no routes");
    assert_eq!(
        tm20::PolicyError::DuplicateRule("digest").message(),
        "route rule \"digest\" is empty or duplicated"
    );
    assert_eq!(
        tm20::PolicyError::DuplicatePrecedence(-3).message(),
        "route precedence -3 is duplicated"
    );
    assert_eq!(
        tm20::PolicyError::FallbackCount(2).message(),
        "policy must have exactly one total fallback, found 2"
    );
}

#[test]
fn builtin_policy_routes_by_its_seven_rules() {
    let policy = default_policy();
    let mut person = candidate(SourceClass::PersonalMessaging, Signal::DirectMessage);
    person.urgency = Urgency::Critical;
    person.trust = SenderTrust::Trusted;
    let d = policy.route(person);
    assert_eq!((d.rule, d.lane, d.privacy), ("trusted-person-critical", Lane::Interrupt, Privacy::RedactedExcerpt));
    let mut mail = candidate(SourceClass::Mail, Signal::Security);
    mail.urgency = Urgency::Critical;
    mail.trust = SenderTrust::Trusted;
    let d = policy.route(mail);
    assert_eq!((d.rule, d.lane, d.privacy), ("trusted-mail-critical", Lane::Interrupt, Privacy::MetadataOnly));
    let d = policy.route(candidate(SourceClass::WorkspaceChat, Signal::Mention));
    assert_eq!((d.rule, d.lane), ("workspace-attention", Lane::NextDigest));
    let d = policy.route(candidate(SourceClass::PersonalMessaging, Signal::DirectMessage));
    assert_eq!((d.rule, d.lane), ("personal-message", Lane::NextDigest));
    let d = policy.route(candidate(SourceClass::Mail, Signal::DirectMessage));
    assert_eq!((d.rule, d.lane, d.privacy), ("mail-attention", Lane::NextDigest, Privacy::MetadataOnly));
    let d = policy.route(candidate(SourceClass::PublicFeed, Signal::Story));
    assert_eq!((d.rule, d.lane, d.privacy), ("public-feed", Lane::CompressedDigest, Privacy::RedactedExcerpt));
    let d = policy.route(candidate(SourceClass::Mail, Signal::Update));
    assert_eq!((d.rule, d.lane, d.privacy), ("archive-rest", Lane::ArchiveOnly, Privacy::MetadataOnly));
}
