use tm20::{
    AttemptId, DeliveryMachine, EditionId, EffectTarget, EffectVerb, ExternalKey,
    ProviderLocator, ReprintReason, UnixMillis,
};

const ZERO: ExternalKey = ExternalKey([0; 32]);
const ONE: ExternalKey = ExternalKey([1; 32]);

fn target() -> EffectTarget {
    EffectTarget {
        account: ZERO,
        object: ONE,
        locator: ProviderLocator::parse("message-1").expect("locator"),
    }
}

#[test]
fn the_success_path_consumes_each_predecessor() {
    let planned = DeliveryMachine::plan(AttemptId(1), EditionId(9), 0, UnixMillis(10));
    let encoded = planned.encoded(UnixMillis(11), ONE);
    let transmitting = encoded.transmitting(UnixMillis(12));
    let delivered = transmitting.delivered(UnixMillis(13));
    let effect = DeliveryMachine::release_effect(&delivered, ZERO, EffectVerb::MarkRead, target());
    assert_eq!(effect.delivered_by, AttemptId(1));
    let applied = effect.applied(UnixMillis(14), ONE);
    assert_eq!(applied.receipt, ONE);
}

#[test]
fn a_post_transmission_disconnect_has_only_the_ambiguous_coordinate() {
    let ambiguous = DeliveryMachine::plan(AttemptId(1), EditionId(9), 0, UnixMillis(10))
        .encoded(UnixMillis(11), ONE)
        .transmitting(UnixMillis(12))
        .ambiguous(UnixMillis(13), ZERO);
    assert_eq!(ambiguous.state.detail, ZERO);
}

#[test]
fn an_ambiguous_delivery_can_only_be_reprinted_as_a_new_labeled_attempt() {
    let original = DeliveryMachine::plan(AttemptId(1), EditionId(9), 0, UnixMillis(10))
        .encoded(UnixMillis(11), ONE)
        .transmitting(UnixMillis(12))
        .ambiguous(UnixMillis(13), ZERO);
    let reprint =
        DeliveryMachine::reprint_after_ambiguity(&original, AttemptId(2), 1, UnixMillis(14));
    assert_eq!(reprint.original, AttemptId(1));
    assert_eq!(reprint.attempt.id, AttemptId(2));
    assert_eq!(reprint.reason, ReprintReason::AfterAmbiguity);
}

#[test]
fn a_reprint_keeps_the_edition_and_labels_its_reason() {
    let failed = DeliveryMachine::plan(AttemptId(3), EditionId(4), 0, UnixMillis(1))
        .failed(UnixMillis(2), ONE);
    let plan = DeliveryMachine::reprint_after_failure(&failed, AttemptId(5), 1, UnixMillis(3));
    assert_eq!(plan.attempt.edition, EditionId(4));
    assert_eq!(plan.reason, ReprintReason::AfterFailure);
    let delivered = DeliveryMachine::plan(AttemptId(6), EditionId(4), 0, UnixMillis(1))
        .encoded(UnixMillis(2), ONE)
        .transmitting(UnixMillis(3))
        .delivered(UnixMillis(4));
    let again = DeliveryMachine::deliberate_reprint(&delivered, AttemptId(7), 2, UnixMillis(5));
    assert_eq!(again.original, AttemptId(6));
    assert_eq!(again.attempt.ordinal, 2);
    assert_eq!(again.reason, ReprintReason::DeliberateDuplicate);
}

#[test]
fn delivery_error_reads_as_a_sentence() {
    assert_eq!(
        tm20::DeliveryError::ReprintRequiresNewAttempt.message(),
        "a reprint is a new labeled attempt, never a retry mutation"
    );
}
