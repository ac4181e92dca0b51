//! Per-request orchestration: a state machine that acquires a handle,
//! dispatches the computation, gives the handle back on every path out of
//! the computation, and maps the result into the response shape.
//!
//! The machine decides; the surrounding server performs. Each call of
//! [`coordinator_step`] takes the phase a request is in and the event that
//! just happened — the pool's answer, the factory's report, the
//! computation's end — and returns the next phase together with the one
//! action the server must perform next.

use vstd::prelude::*;

use crate::ServiceError;
use crate::pool::AcquireOutcome;
use crate::pool::PoolModel;

verus! {

/// Where a request stands in its lifecycle.
#[derive(Clone, Copy, PartialEq, Eq, Debug)]
pub enum RequestPhase {
    /// Asking the pool for a handle.
    Acquiring,
    /// Holding a construction slot: the factory runs for this request.
    Constructing,
    /// Queued until the pool hands over a handle or a construction slot.
    Waiting,
    /// The computation runs with exclusive use of the named resource.
    Computing { resource_id: u64 },
    /// The computation is over — well or badly — and the handle is being
    /// given back to the pool.
    Releasing { resource_id: u64, compute_ok: bool },
    /// Terminal: answer the caller.
    Responding { outcome: Result<(), ServiceError> },
}

/// What just happened to a request.
#[derive(Clone, Copy, PartialEq, Eq, Debug)]
pub enum RequestEvent {
    /// The pool answered this request's `acquire` call.
    PoolAnswered { outcome: AcquireOutcome },
    /// The factory produced a resource; the pool lent it to this request
    /// under `resource_id`.
    FactorySucceeded { resource_id: u64 },
    /// The factory failed; the pool was told so.
    FactoryFailed,
    /// A release woke this waiting request and handed it the handle.
    HandleHandedOver { resource_id: u64 },
    /// A failed construction or a discard woke this waiting request with a
    /// freed construction slot.
    SlotHandedOver,
    /// The computation finished; `ok` is false on an error or a fault.
    ComputeFinished { ok: bool },
    /// The pool took the handle back.
    ReleaseDone,
}

/// What the server must do next for this request.
#[derive(Clone, Copy, PartialEq, Eq, Debug)]
pub enum CoordinatorAction {
    /// Run the factory, off the pool's lock, and report back to the pool.
    RunFactory,
    /// Park the request until the pool wakes it.
    Suspend,
    /// Run the computation with exclusive use of the named resource, off
    /// the serving thread.
    Compute { resource_id: u64 },
    /// Give the named handle back to the pool, whatever the computation did.
    Release { resource_id: u64 },
    /// Send the caller the response for `outcome`.
    Respond { outcome: Result<(), ServiceError> },
}

/// Whether `event` is one that can happen to a request in `phase`.
pub open spec fn event_fits(phase: RequestPhase, event: RequestEvent) -> bool {
    match (phase, event) {
        (RequestPhase::Acquiring, RequestEvent::PoolAnswered { .. }) => true,
        (RequestPhase::Constructing, RequestEvent::FactorySucceeded { .. }) => true,
        (RequestPhase::Constructing, RequestEvent::FactoryFailed) => true,
        (RequestPhase::Waiting, RequestEvent::HandleHandedOver { .. }) => true,
        (RequestPhase::Waiting, RequestEvent::SlotHandedOver) => true,
        (RequestPhase::Computing { .. }, RequestEvent::ComputeFinished { .. }) => true,
        (RequestPhase::Releasing { .. }, RequestEvent::ReleaseDone) => true,
        _ => false,
    }
}

/// The transition relation of the request machine.
pub open spec fn spec_step(phase: RequestPhase, event: RequestEvent) -> (RequestPhase, CoordinatorAction) {
    match (phase, event) {
        (RequestPhase::Acquiring, RequestEvent::PoolAnswered { outcome }) => match outcome {
            AcquireOutcome::Granted { resource_id } => (
                RequestPhase::Computing { resource_id },
                CoordinatorAction::Compute { resource_id },
            ),
            AcquireOutcome::MustConstruct => (
                RequestPhase::Constructing,
                CoordinatorAction::RunFactory,
            ),
            AcquireOutcome::Enqueued => (RequestPhase::Waiting, CoordinatorAction::Suspend),
        },
        (RequestPhase::Constructing, RequestEvent::FactorySucceeded { resource_id }) => (
            RequestPhase::Computing { resource_id },
            CoordinatorAction::Compute { resource_id },
        ),
        (RequestPhase::Constructing, RequestEvent::FactoryFailed) => (
            RequestPhase::Responding { outcome: Err(ServiceError::ConstructionFailed) },
            CoordinatorAction::Respond { outcome: Err(ServiceError::ConstructionFailed) },
        ),
        (RequestPhase::Waiting, RequestEvent::HandleHandedOver { resource_id }) => (
            RequestPhase::Computing { resource_id },
            CoordinatorAction::Compute { resource_id },
        ),
        (RequestPhase::Waiting, RequestEvent::SlotHandedOver) => (
            RequestPhase::Constructing,
            CoordinatorAction::RunFactory,
        ),
        (RequestPhase::Computing { resource_id }, RequestEvent::ComputeFinished { ok }) => (
            RequestPhase::Releasing { resource_id, compute_ok: ok },
            CoordinatorAction::Release { resource_id },
        ),
        (RequestPhase::Releasing { resource_id: _, compute_ok }, RequestEvent::ReleaseDone) => {
            let outcome = if compute_ok {
                Ok(())
            } else {
                Err(ServiceError::ComputationFailed)
            };
            (
                RequestPhase::Responding { outcome },
                CoordinatorAction::Respond { outcome },
            )
        },
        _ => (phase, CoordinatorAction::Suspend),
    }
}

/// Advance a request by one event: the next phase, and the one action the
/// server must now perform.
pub fn coordinator_step(phase: RequestPhase, event: RequestEvent) -> (r: (
    RequestPhase,
    CoordinatorAction,
))
    requires
        event_fits(phase, event),
    ensures
        r == spec_step(phase, event),
{
    match (phase, event) {
        (RequestPhase::Acquiring, RequestEvent::PoolAnswered { outcome }) => match outcome {
            AcquireOutcome::Granted { resource_id } => (
                RequestPhase::Computing { resource_id },
                CoordinatorAction::Compute { resource_id },
            ),
            AcquireOutcome::MustConstruct => (
                RequestPhase::Constructing,
                CoordinatorAction::RunFactory,
            ),
            AcquireOutcome::Enqueued => (RequestPhase::Waiting, CoordinatorAction::Suspend),
        },
        (RequestPhase::Constructing, RequestEvent::FactorySucceeded { resource_id }) => (
            RequestPhase::Computing { resource_id },
            CoordinatorAction::Compute { resource_id },
        ),
        (RequestPhase::Constructing, RequestEvent::FactoryFailed) => (
            RequestPhase::Responding { outcome: Err(ServiceError::ConstructionFailed) },
            CoordinatorAction::Respond { outcome: Err(ServiceError::ConstructionFailed) },
        ),
        (RequestPhase::Waiting, RequestEvent::HandleHandedOver { resource_id }) => (
            RequestPhase::Computing { resource_id },
            CoordinatorAction::Compute { resource_id },
        ),
        (RequestPhase::Waiting, RequestEvent::SlotHandedOver) => (
            RequestPhase::Constructing,
            CoordinatorAction::RunFactory,
        ),
        (RequestPhase::Computing { resource_id }, RequestEvent::ComputeFinished { ok }) => (
            RequestPhase::Releasing { resource_id, compute_ok: ok },
            CoordinatorAction::Release { resource_id },
        ),
        (RequestPhase::Releasing { resource_id: _, compute_ok }, RequestEvent::ReleaseDone) => {
            let outcome: Result<(), ServiceError> = if compute_ok {
                Ok(())
            } else {
                Err(ServiceError::ComputationFailed)
            };
            (RequestPhase::Responding { outcome }, CoordinatorAction::Respond { outcome })
        },
        _ => (phase, CoordinatorAction::Suspend),
    }
}

/// Release on every exit from the computation: whatever the computation did
/// — success, error, or fault — the coordinator's next action gives the very
/// handle back to the pool, and the request passes through `Releasing`
/// before it can respond.
pub proof fn lemma_release_on_every_exit(resource_id: u64, ok: bool)
    ensures
        spec_step(
            RequestPhase::Computing { resource_id },
            RequestEvent::ComputeFinished { ok },
        ).1 == (CoordinatorAction::Release { resource_id }),
        spec_step(
            RequestPhase::Computing { resource_id },
            RequestEvent::ComputeFinished { ok },
        ).0 == (RequestPhase::Releasing { resource_id, compute_ok: ok }),
{
}

/// No leak on failure: a computation that fails still triggers Release of
/// the very handle it used, and the pool's release keeps that handle in
/// circulation — idle again or lent to a waiter — with as many live
/// resources as before. A failed request never shrinks the pool.
pub proof fn lemma_no_leak_on_failure(m: PoolModel, resource_id: u64)
    requires
        m.wf(),
        m.lent.contains(resource_id),
    ensures
        spec_step(
            RequestPhase::Computing { resource_id },
            RequestEvent::ComputeFinished { ok: false },
        ).1 == (CoordinatorAction::Release { resource_id }),
        m.post_release(resource_id).idle.contains(resource_id) || m.post_release(
            resource_id,
        ).lent.contains(resource_id),
        m.post_release(resource_id).live() == m.live(),
{
    crate::pool::lemma_release_keeps_capacity(m, resource_id);
}

} // verus!
