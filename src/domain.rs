use vstd::prelude::*;
use crate::error::DftError;
use crate::field::{two_adic_generator_spec, BabyBear, TWO_ADICITY};

verus! {

/// Where a session stands with the accelerator's single domain.
#[derive(Debug, Clone, Copy, PartialEq, Eq, Structural)]
pub enum Phase {
    /// No domain is held.
    Idle,
    /// A domain of order 2^log_h has been asked for.
    Establishing { log_h: usize },
    /// The domain is live and the transform may run.
    Ready { log_h: usize },
    /// The transform has ended; the domain is being released.
    Releasing { failed: bool },
}

/// What the accelerator reports back to the session.
#[derive(Debug, Clone, Copy, PartialEq, Eq, Structural)]
pub enum Event {
    DomainEstablished,
    DomainRejected,
    TransformDone,
    TransformFailed,
    DomainReleased,
}

/// What the session asks of its driver next.
#[derive(Debug, Clone, Copy, PartialEq, Eq, Structural)]
pub enum Action {
    /// Run the batched forward transform in the live domain.
    Transform,
    /// Release the live domain.
    Release,
    /// The transform finished and the domain is released.
    Complete,
    /// Stop with this error; no domain is held by this step.
    Fail(DftError),
}

/// Whether the accelerator holds a domain in this phase.
pub open spec fn domain_live(ph: Phase) -> bool {
    ph is Ready || ph is Releasing
}

/// The accelerator's domain, held by at most one transform at a time, with a
/// count of the domains established and released over the session's life.
pub struct DomainSession {
    pub phase: Phase,
    pub established: Ghost<nat>,
    pub released: Ghost<nat>,
}

/// The session and action that follow `s` on `e`.
pub open spec fn next(s: DomainSession, e: Event) -> (DomainSession, Action) {
    match (s.phase, e) {
        (Phase::Establishing { log_h }, Event::DomainEstablished) => (
            DomainSession { phase: Phase::Ready { log_h }, established: Ghost(s.established@ + 1), released: s.released },
            Action::Transform,
        ),
        (Phase::Establishing { log_h }, Event::DomainRejected) => (
            DomainSession { phase: Phase::Idle, ..s },
            Action::Fail(DftError::DomainRejected),
        ),
        (Phase::Ready { log_h }, Event::TransformDone) => (
            DomainSession { phase: Phase::Releasing { failed: false }, ..s },
            Action::Release,
        ),
        (Phase::Ready { log_h }, Event::TransformFailed) => (
            DomainSession { phase: Phase::Releasing { failed: true }, ..s },
            Action::Release,
        ),
        (Phase::Releasing { failed }, Event::DomainReleased) => (
            DomainSession { phase: Phase::Idle, established: s.established, released: Ghost(s.released@ + 1) },
            if failed { Action::Fail(DftError::Accelerator) } else { Action::Complete },
        ),
        _ => (s, Action::Fail(DftError::OutOfOrder)),
    }
}

impl DomainSession {
    /// Every established domain is released, but the live one.
    pub open spec fn wf(&self) -> bool {
        self.established@ == self.released@ + if domain_live(self.phase) { 1nat } else { 0nat }
    }

    pub fn new() -> (r: DomainSession)
        ensures
            r.wf(),
            r.phase == Phase::Idle,
            r.established@ == 0,
            r.released@ == 0,
    {
        DomainSession { phase: Phase::Idle, established: Ghost(0), released: Ghost(0) }
    }

    /// Asks for the domain of order 2^log_h and returns the root of unity to
    /// establish it with. Refused while another transform holds the session,
    /// and for an order that the field has no root of.
    pub fn request(&mut self, log_h: usize) -> (r: Result<BabyBear, DftError>)
        requires
            old(self).wf(),
        ensures
            final(self).wf(),
            final(self).established == old(self).established,
            final(self).released == old(self).released,
            old(self).phase != Phase::Idle ==> r == Err::<BabyBear, DftError>(DftError::DomainBusy) && *final(self) == *old(self),
            old(self).phase == Phase::Idle && log_h > TWO_ADICITY ==> r == Err::<BabyBear, DftError>(DftError::UnsupportedSize)
                && *final(self) == *old(self),
            r is Ok <==> (old(self).phase == Phase::Idle && log_h <= TWO_ADICITY),
            r is Ok ==> final(self).phase == (Phase::Establishing { log_h }),
            r matches Ok(root) ==> root.wf() && root.value == two_adic_generator_spec(log_h as nat),
    {
        if self.phase != Phase::Idle {
            return Err(DftError::DomainBusy);
        }
        if log_h > TWO_ADICITY {
            return Err(DftError::UnsupportedSize);
        }
        self.phase = Phase::Establishing { log_h };
        Ok(BabyBear::two_adic_generator(log_h))
    }

    /// Moves the session on by what the accelerator reported.
    pub fn step(&mut self, e: Event) -> (r: Action)
        requires
            old(self).wf(),
        ensures
            final(self).wf(),
            (*final(self), r) == next(*old(self), e),
    {
        match (self.phase, e) {
            (Phase::Establishing { log_h }, Event::DomainEstablished) => {
                self.phase = Phase::Ready { log_h };
                self.established = Ghost(self.established@ + 1);
                Action::Transform
            },
            (Phase::Establishing { log_h }, Event::DomainRejected) => {
                self.phase = Phase::Idle;
                Action::Fail(DftError::DomainRejected)
            },
            (Phase::Ready { log_h }, Event::TransformDone) => {
                self.phase = Phase::Releasing { failed: false };
                Action::Release
            },
            (Phase::Ready { log_h }, Event::TransformFailed) => {
                self.phase = Phase::Releasing { failed: true };
                Action::Release
            },
            (Phase::Releasing { failed }, Event::DomainReleased) => {
                self.phase = Phase::Idle;
                self.released = Ghost(self.released@ + 1);
                if failed {
                    Action::Fail(DftError::Accelerator)
                } else {
                    Action::Complete
                }
            },
            _ => Action::Fail(DftError::OutOfOrder),
        }
    }
}

/// Every step keeps the count of live domains at most one and matching the
/// phase.
pub proof fn lemma_step_keeps_count(s: DomainSession, e: Event)
    requires
        s.wf(),
    ensures
        next(s, e).0.wf(),
{
}

/// Whatever the transform's outcome, the session's next action is to release
/// the domain, and once released it is idle with exactly one release for the
/// one establish: no domain outlives the transform.
pub proof fn lemma_domain_scoping(s: DomainSession, outcome: Event)
    requires
        s.wf(),
        s.phase is Ready,
        outcome == Event::TransformDone || outcome == Event::TransformFailed,
    ensures
        next(s, outcome).1 == Action::Release,
        next(next(s, outcome).0, Event::DomainReleased).0.phase == Phase::Idle,
        next(next(s, outcome).0, Event::DomainReleased).0.released@ == s.released@ + 1,
        next(next(s, outcome).0, Event::DomainReleased).0.established@ == s.established@,
        next(next(s, outcome).0, Event::DomainReleased).0.established@
            == next(next(s, outcome).0, Event::DomainReleased).0.released@,
{
}

} // verus!
