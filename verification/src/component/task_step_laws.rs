//! What each step of the task loop asks for, and what each event leaves behind.

use vstd::prelude::*;
use crate::component::task::{is_rejected, ScopeModel};
use crate::component::task_actor::{affected, completed_by, RetirementModel};
use crate::component::task_loop::{after_event, asked_by, resting, ActorAction, EventModel};
use crate::component::task_loop::{LoopModel, LoopPhase};
use crate::component::task_supervisor::{MountTaskSupervisorError, SupervisorModel};

verus! {

/// A panic is handed on whenever something ended or was dropped with one, and never made up.
pub proof fn law_every_panic_is_handed_on<P>(model: LoopModel, event: EventModel<P>)
    ensures
        event is Dropped ==> asked_by(model, event).latch == event->Dropped_panic,
        event is Ended ==> asked_by(model, event).latch == event->Ended_panic,
        !(event is Dropped) && !(event is Ended) ==> asked_by(model, event).latch is None,
{
}

/// Tasks are aborted by retirements alone, while the loop runs: exactly those of the mounts
/// that are retired.
pub proof fn law_only_retirements_abort<P>(model: LoopModel, event: EventModel<P>)
    ensures
        event is Retire && model.phase == LoopPhase::Running ==> asked_by(model, event).abort
            == affected(model.actor.tasks, event->scopes),
        !(event is Retire && model.phase == LoopPhase::Running) ==> asked_by(
            model,
            event,
        ).abort.len() == 0,
{
}

/// A retirement is completed at once where it has no task to wait for, or with the last task
/// that it waits for, or with the loop.
pub proof fn law_retirements_are_completed_in_time<P>(model: LoopModel, event: EventModel<P>)
    ensures
        ({
            let complete = asked_by(model, event).complete;
            let running = model.phase == LoopPhase::Running;
            &&& event is Retire && running && affected(model.actor.tasks, event->scopes).len() == 0
                ==> complete == seq![
                RetirementModel {
                    ticket: event->ticket,
                    claim: event->claim,
                    remaining: Seq::empty(),
                },
            ]
            &&& event is Ended ==> complete == completed_by(model.actor.retirements, event->id)
            &&& event is NoTask && model.phase == LoopPhase::Joining ==> complete
                == model.actor.retirements + model.actor.queued
            &&& event is Start || event is Dropped || event is Shutdown || event is NoCommand
                ==> complete.len() == 0
            &&& event is NoTask && model.phase != LoopPhase::Joining ==> complete.len() == 0
            &&& event is Retire && (!running || affected(model.actor.tasks, event->scopes).len()
                > 0) ==> complete.len() == 0
        }),
{
}

/// The loop waits while it runs, takes what is queued while it drains, joins its tasks after
/// that, and then it is finished.
pub proof fn law_the_loop_rests_in_its_phase(phase: LoopPhase)
    ensures
        phase == LoopPhase::Running ==> resting(phase) == ActorAction::Wait,
        phase == LoopPhase::Draining ==> resting(phase) == ActorAction::TakeQueued,
        phase == LoopPhase::Joining ==> resting(phase) == ActorAction::Join,
        phase == LoopPhase::Finished ==> resting(phase) == ActorAction::Finish,
{
}

/// What the loop does next: it spawns what may start and drops what may not, it stops on a
/// panic, on a shutdown and where nobody is left, and it goes on with its phase otherwise.
pub proof fn law_the_loop_asks_for_the_next_step<P>(model: LoopModel, event: EventModel<P>)
    ensures
        ({
            let action = asked_by(model, event).action;
            let running = model.phase == LoopPhase::Running;
            let panicked = (event is Dropped && event->Dropped_panic is Some) || (event is Ended
                && event->Ended_panic is Some);
            &&& event is Start ==> action == (if running && !is_rejected(
                model.actor.claims,
                event->scope,
            ) {
                ActorAction::Spawn(model.next)
            } else {
                ActorAction::Drop
            })
            &&& running && panicked ==> action == ActorAction::Stop
            &&& running && (event is Shutdown || event is NoCommand || event is NoTask) ==> action
                == ActorAction::Stop
            &&& running && event is Retire ==> action == ActorAction::Wait
            &&& !running && event is NoCommand ==> action == ActorAction::Join
            &&& event is NoTask && model.phase == LoopPhase::Joining ==> action
                == ActorAction::Finish
            &&& event is NoTask && !running && model.phase != LoopPhase::Joining ==> action
                == resting(model.phase)
            &&& !running && (event is Retire || event is Shutdown) ==> action == resting(
                model.phase,
            )
            &&& (event is Dropped || event is Ended) && !(running && panicked) ==> action
                == resting(model.phase)
        }),
{
}

/// The loop changes its phase on a panic, on a shutdown, where nobody asks any more, and with
/// its last task. Nothing else does.
pub proof fn law_the_loop_changes_phase_for_a_reason<P>(model: LoopModel, event: EventModel<P>)
    ensures
        ({
            let after = after_event(model, event).phase;
            let running = model.phase == LoopPhase::Running;
            let panicked = (event is Dropped && event->Dropped_panic is Some) || (event is Ended
                && event->Ended_panic is Some);
            &&& running && (panicked || event is Shutdown || event is NoCommand || event is NoTask)
                ==> after == LoopPhase::Draining
            &&& !running && event is NoCommand ==> after == LoopPhase::Joining
            &&& event is NoTask && model.phase == LoopPhase::Joining ==> after
                == LoopPhase::Finished
            &&& event is Start || event is Retire ==> after == model.phase
            &&& (event is Dropped || event is Ended) && !(running && panicked) ==> after
                == model.phase
            &&& !running && event is Shutdown ==> after == model.phase
            &&& event is NoTask && !running && model.phase != LoopPhase::Joining ==> after
                == model.phase
        }),
{
}

/// What waits in the queue came late, in order, and leaves it with the loop alone.
pub proof fn law_the_queue_keeps_its_order<P>(model: LoopModel, event: EventModel<P>)
    ensures
        ({
            let before = model.actor.queued;
            let after = after_event(model, event).actor.queued;
            let late = event is Retire && model.phase != LoopPhase::Running;
            let last = event is NoTask && model.phase == LoopPhase::Joining;
            &&& late ==> after == before.push(
                RetirementModel {
                    ticket: event->ticket,
                    claim: event->claim,
                    remaining: Seq::empty(),
                },
            )
            &&& last ==> after.len() == 0
            &&& !late && !last ==> after == before
        }),
{
}

/// A supervisor that is shut accepts nothing and fences nothing any more, and abandons those
/// who wait. One that is broken has lost its actor besides.
pub proof fn law_shut_supervisors_abandon_their_waiters<P>(supervisor: SupervisorModel<P>)
    ensures
        ({
            let shut = supervisor.shut();
            &&& !shut.accepting
            &&& shut.closed
            &&& shut.claims.len() == 0
            &&& shut.waiting.len() == 0
            &&& shut.abandoned == supervisor.abandoned + supervisor.waiting
            &&& shut.actor == supervisor.actor
            &&& shut.panicked == supervisor.panicked
            &&& shut.payload == supervisor.payload
            &&& shut.actor_failed == supervisor.actor_failed
            &&& supervisor.broken() == (SupervisorModel { actor_failed: true, ..shut })
        }),
{
}

/// A shutdown takes the actor away and closes the door. Without an actor there is nothing to
/// wait for, and the supervisor is closed at once. One that is dropped is shut.
pub proof fn law_shutdowns_close_the_door<P>(supervisor: SupervisorModel<P>, dropping: bool)
    ensures
        ({
            let after = supervisor.shutting_down(dropping);
            &&& !after.accepting
            &&& after.actor is None
            &&& after.closed <==> supervisor.closed || supervisor.actor is None || dropping
            &&& after.panicked == supervisor.panicked
            &&& after.payload == supervisor.payload
            &&& after.actor_failed == supervisor.actor_failed
            &&& dropping ==> after.claims.len() == 0 && after.waiting.len() == 0
                && after.abandoned == supervisor.abandoned + supervisor.waiting
            &&& !dropping ==> after.claims == supervisor.claims && after.waiting
                == supervisor.waiting && after.abandoned == supervisor.abandoned
        }),
{
}

/// Why a task cannot start: first that it is asked for elsewhere, then that there was a panic
/// or that the door is closed, then that its mount is retired, then that there is no runtime.
pub proof fn law_start_faults_are_found_in_order<P>(
    supervisor: SupervisorModel<P>,
    current: Option<u64>,
    scope: ScopeModel,
)
    ensures
        ({
            let fault = supervisor.start_fault(current, scope);
            let elsewhere = supervisor.actor is Some && supervisor.actor != current;
            &&& elsewhere ==> fault == Some(
                if current is None {
                    MountTaskSupervisorError::RuntimeUnavailable
                } else {
                    MountTaskSupervisorError::Closed
                },
            )
            &&& !elsewhere && supervisor.panicked ==> fault == Some(
                MountTaskSupervisorError::Panicked,
            )
            &&& !elsewhere && !supervisor.panicked && (!supervisor.accepting || supervisor.closed)
                ==> fault == Some(MountTaskSupervisorError::Closed)
            &&& !elsewhere && !supervisor.panicked && supervisor.accepting && !supervisor.closed
                && is_rejected(supervisor.claims, scope) ==> fault == Some(
                MountTaskSupervisorError::StaleMount,
            )
            &&& !elsewhere && !supervisor.panicked && supervisor.accepting && !supervisor.closed
                && !is_rejected(supervisor.claims, scope) ==> (fault is Some <==> supervisor.actor
                is None && current is None) && (fault is Some ==> fault == Some(
                MountTaskSupervisorError::RuntimeUnavailable,
            ))
        }),
{
}

} // verus!
