//! Delivery as a typestate machine.
//!
//! There is no `status` field that callers can combine with unrelated
//! booleans. Each transition consumes its predecessor and only a delivered
//! attempt can mint an [`UpstreamEffect`].

use vstd::prelude::*;

use crate::connector::{EffectRequest, EffectTarget, EffectVerb, ExternalKey};

verus! {

#[derive(Debug, Clone, Copy, PartialEq, Eq, Hash, Structural)]
pub struct AttemptId(pub u64);

#[derive(Debug, Clone, Copy, PartialEq, Eq, Hash, Structural)]
pub struct EditionId(pub u64);

#[derive(Debug, Clone, Copy, PartialEq, Eq, PartialOrd, Ord, Structural)]
pub struct UnixMillis(pub i64);

#[derive(Debug, Clone, Copy, PartialEq, Eq, Structural)]
pub struct Planned {
    pub at: UnixMillis,
}

#[derive(Debug, Clone, Copy, PartialEq, Eq)]
pub struct Encoded {
    pub at: UnixMillis,
    pub payload: ExternalKey,
}

#[derive(Debug, Clone, Copy, PartialEq, Eq, Structural)]
pub struct Transmitting {
    pub at: UnixMillis,
}

#[derive(Debug, Clone, Copy, PartialEq, Eq, Structural)]
pub struct Delivered {
    pub at: UnixMillis,
}

#[derive(Debug, Clone, Copy, PartialEq, Eq)]
pub struct Failed {
    pub at: UnixMillis,
    pub detail: ExternalKey,
}

#[derive(Debug, Clone, Copy, PartialEq, Eq)]
pub struct Ambiguous {
    pub at: UnixMillis,
    pub detail: ExternalKey,
}

/// One labeled print attempt of an edition, in state `S`.
#[derive(Debug, Clone, Copy, PartialEq, Eq)]
pub struct Attempt<S> {
    pub id: AttemptId,
    pub edition: EditionId,
    pub ordinal: u64,
    pub state: S,
}

/// `b` is `a` in another state: the same attempt, edition and ordinal.
pub open spec fn same_attempt<S, T>(a: Attempt<S>, b: Attempt<T>) -> bool {
    a.id == b.id && a.edition == b.edition && a.ordinal == b.ordinal
}

impl Attempt<Planned> {
    pub fn encoded(self, at: UnixMillis, payload: ExternalKey) -> (r: Attempt<Encoded>)
        ensures
            same_attempt(self, r),
            r.state == (Encoded { at, payload }),
    {
        self.map(Encoded { at, payload })
    }

    pub fn failed(self, at: UnixMillis, detail: ExternalKey) -> (r: Attempt<Failed>)
        ensures
            same_attempt(self, r),
            r.state == (Failed { at, detail }),
    {
        self.map(Failed { at, detail })
    }
}

impl Attempt<Encoded> {
    pub fn transmitting(self, at: UnixMillis) -> (r: Attempt<Transmitting>)
        ensures
            same_attempt(self, r),
            r.state == (Transmitting { at }),
    {
        self.map(Transmitting { at })
    }

    pub fn failed(self, at: UnixMillis, detail: ExternalKey) -> (r: Attempt<Failed>)
        ensures
            same_attempt(self, r),
            r.state == (Failed { at, detail }),
    {
        self.map(Failed { at, detail })
    }
}

impl Attempt<Transmitting> {
    pub fn delivered(self, at: UnixMillis) -> (r: Attempt<Delivered>)
        ensures
            same_attempt(self, r),
            r.state == (Delivered { at }),
    {
        self.map(Delivered { at })
    }

    /// The printer went away after bytes left the host: whether paper came
    /// out is unknown.
    pub fn ambiguous(self, at: UnixMillis, detail: ExternalKey) -> (r: Attempt<Ambiguous>)
        ensures
            same_attempt(self, r),
            r.state == (Ambiguous { at, detail }),
    {
        self.map(Ambiguous { at, detail })
    }
}

impl<S> Attempt<S> {
    fn map<T>(self, state: T) -> (r: Attempt<T>)
        ensures
            same_attempt(self, r),
            r.state == state,
    {
        Attempt { id: self.id, edition: self.edition, ordinal: self.ordinal, state }
    }
}

/// An upstream write-back that a delivered attempt released.
#[derive(Debug, Clone, PartialEq, Eq)]
pub struct UpstreamEffect {
    pub delivered_by: AttemptId,
    pub request: EffectRequest,
}

impl UpstreamEffect {
    pub fn applied(self, at: UnixMillis, receipt: ExternalKey) -> (r: AppliedEffect)
        ensures
            r == (AppliedEffect { effect: self, at, receipt }),
    {
        AppliedEffect { effect: self, at, receipt }
    }

    pub fn failed(self, at: UnixMillis, detail: ExternalKey) -> (r: FailedEffect)
        ensures
            r == (FailedEffect { effect: self, at, detail }),
    {
        FailedEffect { effect: self, at, detail }
    }
}

#[derive(Debug, Clone, PartialEq, Eq)]
pub struct AppliedEffect {
    pub effect: UpstreamEffect,
    pub at: UnixMillis,
    pub receipt: ExternalKey,
}

#[derive(Debug, Clone, PartialEq, Eq)]
pub struct FailedEffect {
    pub effect: UpstreamEffect,
    pub at: UnixMillis,
    pub detail: ExternalKey,
}

#[derive(Debug, Clone, Copy, PartialEq, Eq, Structural)]
pub enum ReprintReason {
    AfterFailure,
    AfterAmbiguity,
    DeliberateDuplicate,
}

/// A new, labeled attempt that reprints an earlier one.
#[derive(Debug, Clone, Copy, PartialEq, Eq)]
pub struct ReprintPlan {
    pub attempt: Attempt<Planned>,
    pub original: AttemptId,
    pub reason: ReprintReason,
}

/// `plan` reprints `original` as the new attempt `id`, `ordinal`, planned at
/// `at`, of the same edition.
pub open spec fn reprints<S>(
    plan: ReprintPlan,
    original: Attempt<S>,
    id: AttemptId,
    ordinal: u64,
    at: UnixMillis,
    reason: ReprintReason,
) -> bool {
    &&& plan.original == original.id
    &&& plan.attempt.id == id
    &&& plan.attempt.edition == original.edition
    &&& plan.attempt.ordinal == ordinal
    &&& plan.attempt.state == (Planned { at })
    &&& plan.reason == reason
}

#[derive(Debug, Default, Clone, Copy)]
pub struct DeliveryMachine;

impl DeliveryMachine {
    pub fn plan(id: AttemptId, edition: EditionId, ordinal: u64, at: UnixMillis) -> (r: Attempt<
        Planned,
    >)
        ensures
            r == (Attempt { id, edition, ordinal, state: Planned { at } }),
    {
        Attempt { id, edition, ordinal, state: Planned { at } }
    }

    /// The write-back that the delivered attempt releases.
    pub fn release_effect(
        delivered: &Attempt<Delivered>,
        idempotency: ExternalKey,
        verb: EffectVerb,
        target: EffectTarget,
    ) -> (r: UpstreamEffect)
        ensures
            r == (UpstreamEffect {
                delivered_by: delivered.id,
                request: EffectRequest { idempotency, verb, target },
            }),
    {
        UpstreamEffect { delivered_by: delivered.id, request: EffectRequest { idempotency, verb, target } }
    }

    pub fn reprint_after_failure(
        original: &Attempt<Failed>,
        id: AttemptId,
        ordinal: u64,
        at: UnixMillis,
    ) -> (r: ReprintPlan)
        ensures
            reprints(r, *original, id, ordinal, at, ReprintReason::AfterFailure),
    {
        Self::reprint(original.id, original.edition, id, ordinal, at, ReprintReason::AfterFailure)
    }

    pub fn reprint_after_ambiguity(
        original: &Attempt<Ambiguous>,
        id: AttemptId,
        ordinal: u64,
        at: UnixMillis,
    ) -> (r: ReprintPlan)
        ensures
            reprints(r, *original, id, ordinal, at, ReprintReason::AfterAmbiguity),
    {
        Self::reprint(original.id, original.edition, id, ordinal, at, ReprintReason::AfterAmbiguity)
    }

    pub fn deliberate_reprint(
        original: &Attempt<Delivered>,
        id: AttemptId,
        ordinal: u64,
        at: UnixMillis,
    ) -> (r: ReprintPlan)
        ensures
            reprints(r, *original, id, ordinal, at, ReprintReason::DeliberateDuplicate),
    {
        Self::reprint(
            original.id,
            original.edition,
            id,
            ordinal,
            at,
            ReprintReason::DeliberateDuplicate,
        )
    }

    fn reprint(
        original: AttemptId,
        edition: EditionId,
        id: AttemptId,
        ordinal: u64,
        at: UnixMillis,
        reason: ReprintReason,
    ) -> (r: ReprintPlan)
        ensures
            r == (ReprintPlan {
                attempt: Attempt { id, edition, ordinal, state: Planned { at } },
                original,
                reason,
            }),
    {
        ReprintPlan { attempt: Self::plan(id, edition, ordinal, at), original, reason }
    }
}

#[derive(Debug, Clone, PartialEq, Eq, Structural)]
pub enum DeliveryError {
    ReprintRequiresNewAttempt,
}

impl DeliveryError {
    /// The error as a sentence.
    pub fn message(&self) -> (m: String)
        ensures
            m@ == "a reprint is a new labeled attempt, never a retry mutation"@,
    {
        crate::text::owned("a reprint is a new labeled attempt, never a retry mutation")
    }
}

} // verus!
