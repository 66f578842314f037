//! The loop of the task actor: what is done about each event, and when it ends.

use vstd::prelude::*;
use crate::component::task::{is_rejected, scope_models, MountTaskScope, RetirementClaim};
use crate::component::task::ScopeModel;
use crate::component::task_actor::{affected, completed_by, installed_for, lemma_without_task};
use crate::component::task_actor::{released_by, retirement_models, still_waiting, without_task};
use crate::component::task_actor::{ActorModel, ActorRetirement, RetirementModel, TaskActor};
use crate::component::task_actor::TaskModel;

verus! {

/// How far the loop has come.
#[derive(Debug, Clone, Copy, PartialEq, Eq, Structural)]
pub enum LoopPhase {
    /// Commands are carried out.
    Running,
    /// Commands are closed and every task is aborted; what is still queued is taken.
    Draining,
    /// Nothing is queued any more; the tasks come to their ends.
    Joining,
    /// All is done.
    Finished,
}

/// Model of [`ActorEvent`].
#[allow(inconsistent_fields)]
pub enum EventModel<P> {
    Start { scope: ScopeModel },
    Dropped { panic: Option<P> },
    Retire { scopes: Seq<ScopeModel>, claim: Seq<ScopeModel>, ticket: u64 },
    Ended { id: u64, panic: Option<P> },
    Shutdown,
    NoCommand,
    NoTask,
}

/// What happens to the loop. `P` is what a panic leaves behind.
#[derive(Debug)]
#[allow(inconsistent_fields)]
pub enum ActorEvent<P> {
    /// A task of a mount is to start.
    Start { scope: MountTaskScope },
    /// A task that was not started was dropped.
    Dropped { panic: Option<P> },
    /// Mounts are to be retired.
    Retire { scopes: Vec<MountTaskScope>, claim: RetirementClaim, ticket: u64 },
    /// A task has ended.
    Ended { id: u64, panic: Option<P> },
    /// Everything is to end.
    Shutdown,
    /// There will be no further command.
    NoCommand,
    /// No task is left to wait for.
    NoTask,
}

impl<P> View for ActorEvent<P> {
    type V = EventModel<P>;

    open spec fn view(&self) -> EventModel<P> {
        match *self {
            ActorEvent::Start { scope } => EventModel::Start { scope: scope@ },
            ActorEvent::Dropped { panic } => EventModel::Dropped { panic },
            ActorEvent::Retire { scopes, claim, ticket } => EventModel::Retire {
                scopes: scope_models(scopes@),
                claim: claim@,
                ticket,
            },
            ActorEvent::Ended { id, panic } => EventModel::Ended { id, panic },
            ActorEvent::Shutdown => EventModel::Shutdown,
            ActorEvent::NoCommand => EventModel::NoCommand,
            ActorEvent::NoTask => EventModel::NoTask,
        }
    }
}

/// What the host does next.
#[derive(Debug, Clone, Copy, PartialEq, Eq, Structural)]
pub enum ActorAction {
    /// Wait for a command, or for the end of a task if one runs.
    Wait,
    /// Start the task under a number, and then wait.
    Spawn(u64),
    /// Drop the task, and say how that went.
    Drop,
    /// Close the commands, abort every task, and take what is queued.
    Stop,
    /// Take the next queued command.
    TakeQueued,
    /// Wait for the end of a task.
    Join,
    /// Report that the actor has finished.
    Finish,
}

/// Model of [`LoopStep`].
pub struct StepModel<P> {
    pub latch: Option<P>,
    pub abort: Seq<u64>,
    pub complete: Seq<RetirementModel>,
    pub action: ActorAction,
}

/// What an event asks of the host, in this order: a panic to latch, tasks to abort,
/// retirements to complete, and then an action.
#[derive(Debug)]
pub struct LoopStep<P> {
    pub latch: Option<P>,
    pub abort: Vec<u64>,
    pub complete: Vec<ActorRetirement>,
    pub action: ActorAction,
}

impl<P> View for LoopStep<P> {
    type V = StepModel<P>;

    open spec fn view(&self) -> StepModel<P> {
        StepModel {
            latch: self.latch,
            abort: self.abort@,
            complete: retirement_models(self.complete@),
            action: self.action,
        }
    }
}

/// Model of [`TaskLoop`].
pub struct LoopModel {
    pub actor: ActorModel,
    pub next: u64,
    pub phase: LoopPhase,
}

impl LoopModel {
    /// The loop in another phase.
    pub open spec fn in_phase(self, phase: LoopPhase) -> Self {
        LoopModel { phase, ..self }
    }

    /// The loop with one more task.
    pub open spec fn with_task(self, scope: ScopeModel) -> Self {
        LoopModel {
            actor: ActorModel {
                tasks: self.actor.tasks.push(TaskModel { id: self.next, scope }),
                ..self.actor
            },
            next: (self.next + 1) as u64,
            ..self
        }
    }

    /// The loop once mounts are being retired.
    pub open spec fn retiring(
        self,
        scopes: Seq<ScopeModel>,
        claim: Seq<ScopeModel>,
        ticket: u64,
    ) -> Self {
        LoopModel { actor: installed_for(self.actor, scopes, claim, ticket), ..self }
    }

    /// The loop once a task has ended.
    pub open spec fn without(self, id: u64) -> Self {
        LoopModel {
            actor: ActorModel {
                tasks: without_task(self.actor.tasks, id),
                claims: released_by(self.actor.claims, completed_by(self.actor.retirements, id)),
                retirements: still_waiting(self.actor.retirements, id),
                ..self.actor
            },
            ..self
        }
    }

    /// The loop with a retirement that comes too late to be carried out.
    pub open spec fn with_queued(self, claim: Seq<ScopeModel>, ticket: u64) -> Self {
        LoopModel {
            actor: ActorModel {
                queued: self.actor.queued.push(
                    RetirementModel { ticket, claim, remaining: Seq::empty() },
                ),
                ..self.actor
            },
            ..self
        }
    }

    /// The loop once all is done.
    pub open spec fn emptied(self) -> Self {
        LoopModel {
            actor: ActorModel {
                tasks: Seq::empty(),
                claims: vstd::multiset::Multiset::empty(),
                retirements: Seq::empty(),
                queued: Seq::empty(),
            },
            phase: LoopPhase::Finished,
            ..self
        }
    }
}

/// An action alone.
pub open spec fn just<P>(action: ActorAction) -> StepModel<P> {
    StepModel { latch: None, abort: Seq::empty(), complete: Seq::empty(), action }
}

/// What the host does in a phase once an event is dealt with.
pub open spec fn resting(phase: LoopPhase) -> ActorAction {
    match phase {
        LoopPhase::Running => ActorAction::Wait,
        LoopPhase::Draining => ActorAction::TakeQueued,
        LoopPhase::Joining => ActorAction::Join,
        LoopPhase::Finished => ActorAction::Finish,
    }
}

/// What an event does to the loop.
pub open spec fn after_event<P>(model: LoopModel, event: EventModel<P>) -> LoopModel {
    let running = model.phase == LoopPhase::Running;
    match event {
        EventModel::Start { scope } => if running && !is_rejected(model.actor.claims, scope) {
            model.with_task(scope)
        } else {
            model
        },
        EventModel::Dropped { panic } => if running && panic is Some {
            model.in_phase(LoopPhase::Draining)
        } else {
            model
        },
        EventModel::Retire { scopes, claim, ticket } => if running {
            model.retiring(scopes, claim, ticket)
        } else {
            model.with_queued(claim, ticket)
        },
        EventModel::Ended { id, panic } => if running && panic is Some {
            model.without(id).in_phase(LoopPhase::Draining)
        } else {
            model.without(id)
        },
        EventModel::Shutdown => if running {
            model.in_phase(LoopPhase::Draining)
        } else {
            model
        },
        EventModel::NoCommand => if running {
            model.in_phase(LoopPhase::Draining)
        } else {
            model.in_phase(LoopPhase::Joining)
        },
        EventModel::NoTask => if running {
            model.in_phase(LoopPhase::Draining)
        } else if model.phase == LoopPhase::Joining {
            model.emptied()
        } else {
            model
        },
    }
}

/// What an event asks of the host. A panic ends the running phase, and so does every
/// word that there is nothing more to come. While all ends, tasks are dropped and
/// retirements are kept, and what waits is completed at last.
pub open spec fn asked_by<P>(model: LoopModel, event: EventModel<P>) -> StepModel<P> {
    let running = model.phase == LoopPhase::Running;
    match event {
        EventModel::Start { scope } => if running && !is_rejected(model.actor.claims, scope) {
            just(ActorAction::Spawn(model.next))
        } else {
            just(ActorAction::Drop)
        },
        EventModel::Dropped { panic } => StepModel {
            latch: panic,
            action: if running && panic is Some {
                ActorAction::Stop
            } else {
                resting(model.phase)
            },
            ..just(ActorAction::Wait)
        },
        EventModel::Retire { scopes, claim, ticket } => if running {
            let abort = affected(model.actor.tasks, scopes);
            StepModel {
                abort,
                complete: if abort.len() == 0 {
                    seq![RetirementModel { ticket, claim, remaining: Seq::empty() }]
                } else {
                    Seq::empty()
                },
                ..just(ActorAction::Wait)
            }
        } else {
            just(resting(model.phase))
        },
        EventModel::Ended { id, panic } => StepModel {
            latch: panic,
            complete: completed_by(model.actor.retirements, id),
            action: if running && panic is Some {
                ActorAction::Stop
            } else {
                resting(model.phase)
            },
            ..just(ActorAction::Wait)
        },
        EventModel::Shutdown => if running {
            just(ActorAction::Stop)
        } else {
            just(resting(model.phase))
        },
        EventModel::NoCommand => if running {
            just(ActorAction::Stop)
        } else {
            just(ActorAction::Join)
        },
        EventModel::NoTask => if running {
            just(ActorAction::Stop)
        } else if model.phase == LoopPhase::Joining {
            StepModel {
                complete: model.actor.retirements + model.actor.queued,
                ..just(ActorAction::Finish)
            }
        } else {
            just(resting(model.phase))
        },
    }
}

/// The loop of the task actor.
#[derive(Debug)]
pub struct TaskLoop {
    pub(crate) actor: TaskActor,
    pub(crate) next: u64,
    pub(crate) phase: LoopPhase,
}

impl View for TaskLoop {
    type V = LoopModel;

    open(crate) spec fn view(&self) -> LoopModel {
        LoopModel { actor: self.actor@, next: self.next, phase: self.phase }
    }
}

/// Whether all tasks have numbers that were given out.
pub open spec fn numbered_below(tasks: Seq<TaskModel>, next: u64) -> bool {
    forall|i: int| 0 <= i < tasks.len() ==> (#[trigger] tasks[i]).id < next
}

fn nothing<P>(action: ActorAction) -> (step: LoopStep<P>)
    ensures
        step@ == just::<P>(action),
{
    let step = LoopStep { latch: None, abort: Vec::new(), complete: Vec::new(), action };
    assert(retirement_models(step.complete@) =~= Seq::empty());
    step
}

impl LoopPhase {
    /// What the host does in a phase once an event is dealt with.
    pub fn resting(&self) -> (action: ActorAction)
        ensures
            action == resting(*self),
    {
        match self {
            LoopPhase::Running => ActorAction::Wait,
            LoopPhase::Draining => ActorAction::TakeQueued,
            LoopPhase::Joining => ActorAction::Join,
            LoopPhase::Finished => ActorAction::Finish,
        }
    }
}

impl TaskLoop {
    #[verifier::type_invariant]
    pub(crate) open(crate) spec fn inv(self) -> bool {
        numbered_below(self.actor@.tasks, self.next)
    }

    /// Nothing runs.
    pub fn new() -> (result: Self)
        ensures
            result@ == (LoopModel {
                actor: ActorModel {
                    tasks: Seq::empty(),
                    claims: vstd::multiset::Multiset::empty(),
                    retirements: Seq::empty(),
                    queued: Seq::empty(),
                },
                next: 0,
                phase: LoopPhase::Running,
            }),
    {
        Self { actor: TaskActor::new(), next: 0, phase: LoopPhase::Running }
    }

    pub fn phase(&self) -> (phase: LoopPhase)
        ensures
            phase == self@.phase,
    {
        self.phase
    }

    pub fn actor(&self) -> (actor: &TaskActor)
        ensures
            actor@ == self@.actor,
    {
        &self.actor
    }

    /// Whether a number is left for one more task.
    pub fn has_numbers(&self) -> (left: bool)
        ensures
            left == (self@.next < u64::MAX),
    {
        self.next < u64::MAX
    }

    fn take_actor(&mut self) -> (actor: TaskActor)
        ensures
            actor@ == old(self)@.actor,
            final(self).next == old(self).next,
            final(self).phase == old(self).phase,
            numbered_below(actor@.tasks, old(self).next),
    {
        proof {
            use_type_invariant(&*self);
        }
        let mut actor = TaskActor::new();
        std::mem::swap(&mut actor, &mut self.actor);
        actor
    }

    /// Deals with an event.
    pub fn step<P>(&mut self, event: ActorEvent<P>) -> (step: LoopStep<P>)
        requires
            old(self)@.phase != LoopPhase::Finished,
            event is Start ==> old(self)@.next < u64::MAX,
        ensures
            final(self)@ == after_event(old(self)@, event@),
            step@ == asked_by(old(self)@, event@),
    {
        proof {
            use_type_invariant(&*self);
        }
        let ghost before = self@;
        let running: bool = self.phase == LoopPhase::Running;
        match event {
            ActorEvent::Start { scope } => {
                if !running || !self.actor.admits(&scope) {
                    return nothing(ActorAction::Drop);
                }
                let id: u64 = self.next;
                let mut actor = self.take_actor();
                proof {
                    assert forall|i: int| 0 <= i < before.actor.tasks.len() implies (
                    #[trigger] before.actor.tasks[i]).id != id by {}
                }
                actor.started(id, scope);
                let ghost tasks = actor@.tasks;
                assert(forall|i: int|
                    0 <= i < before.actor.tasks.len() ==> #[trigger] tasks[i]
                        == before.actor.tasks[i]);
                *self = TaskLoop { actor, next: id + 1, phase: self.phase };
                nothing(ActorAction::Spawn(id))
            },
            ActorEvent::Dropped { panic } => {
                let panicked: bool = panic.is_some();
                if running && panicked {
                    self.phase = LoopPhase::Draining;
                    return LoopStep { latch: panic, ..nothing(ActorAction::Stop) };
                }
                LoopStep { latch: panic, ..nothing(self.phase.resting()) }
            },
            ActorEvent::Retire { scopes, claim, ticket } => {
                let mut actor = self.take_actor();
                if !running {
                    actor.queue(claim, ticket);
                    self.actor = actor;
                    return nothing(self.phase.resting());
                }
                let outcome = actor.retire(&scopes, &claim, ticket);
                self.actor = actor;
                let mut complete: Vec<ActorRetirement> = Vec::new();
                assert(retirement_models(complete@) =~= Seq::empty());
                if outcome.completed {
                    let retirement = ActorRetirement::of(claim, ticket);
                    let ghost model = retirement@;
                    complete.push(retirement);
                    assert(retirement_models(complete@) =~= seq![model]);
                    assert(outcome.abort@ =~= Seq::empty());
                }
                LoopStep { latch: None, abort: outcome.abort, complete, action: ActorAction::Wait }
            },
            ActorEvent::Ended { id, panic } => {
                let panicked: bool = panic.is_some();
                let mut actor = self.take_actor();
                actor.assure();
                let complete = actor.finished(id);
                proof {
                    lemma_without_task(before.actor.tasks, id);
                    let left = without_task(before.actor.tasks, id);
                    assert forall|i: int| 0 <= i < left.len() implies (#[trigger] left[i]).id
                        < before.next by {
                        let k = choose|k: int|
                            0 <= k < before.actor.tasks.len() && (
                            #[trigger] before.actor.tasks[k]).id == left[i].id;
                        assert(before.actor.tasks[k].id < before.next);
                    }
                }
                self.actor = actor;
                let action = if running && panicked {
                    self.phase = LoopPhase::Draining;
                    ActorAction::Stop
                } else {
                    self.phase.resting()
                };
                LoopStep { latch: panic, abort: Vec::new(), complete, action }
            },
            ActorEvent::Shutdown => {
                if running {
                    self.phase = LoopPhase::Draining;
                    return nothing(ActorAction::Stop);
                }
                nothing(self.phase.resting())
            },
            ActorEvent::NoCommand => {
                if running {
                    self.phase = LoopPhase::Draining;
                    return nothing(ActorAction::Stop);
                }
                self.phase = LoopPhase::Joining;
                nothing(ActorAction::Join)
            },
            ActorEvent::NoTask => {
                if running {
                    self.phase = LoopPhase::Draining;
                    return nothing(ActorAction::Stop);
                }
                if self.phase != LoopPhase::Joining {
                    return nothing(self.phase.resting());
                }
                let actor = self.take_actor();
                let complete = actor.drained();
                *self = TaskLoop {
                    actor: TaskActor::new(),
                    next: self.next,
                    phase: LoopPhase::Finished,
                };
                LoopStep { latch: None, abort: Vec::new(), complete, action: ActorAction::Finish }
            },
        }
    }
}

/// A panic of a task ends the loop, and so does one while a refused task is dropped: it
/// is latched, and nothing starts any more.
pub proof fn law_panics_end_the_loop<P>(model: LoopModel, event: EventModel<P>, later: ScopeModel)
    requires
        model.phase == LoopPhase::Running,
        (event is Ended && event->Ended_panic is Some) || (event is Dropped
            && event->Dropped_panic is Some),
    ensures
        asked_by(model, event).latch is Some,
        asked_by(model, event).action == ActorAction::Stop,
        after_event(model, event).phase == LoopPhase::Draining,
        asked_by(after_event(model, event), EventModel::<P>::Start { scope: later }).action
            == ActorAction::Drop,
{
}

/// The loop goes on from phase to phase and never back.
pub proof fn law_the_loop_goes_forward<P>(model: LoopModel, event: EventModel<P>)
    requires
        model.phase != LoopPhase::Finished,
    ensures
        phase_rank(after_event(model, event).phase) >= phase_rank(model.phase),
{
}

/// How late a phase is.
pub open spec fn phase_rank(phase: LoopPhase) -> nat {
    match phase {
        LoopPhase::Running => 0,
        LoopPhase::Draining => 1,
        LoopPhase::Joining => 2,
        LoopPhase::Finished => 3,
    }
}

/// No retirement is lost: those that a step takes in, and those that were there, are
/// completed by it or are still there afterwards.
pub proof fn law_retirements_are_completed_or_kept<P>(model: LoopModel, event: EventModel<P>)
    requires
        model.phase != LoopPhase::Finished,
    ensures
        ({
            let after = after_event(model, event).actor;
            let owed = model.actor.retirements.len() + model.actor.queued.len() + if event is Retire {
                1nat
            } else {
                0nat
            };
            asked_by(model, event).complete.len() + after.retirements.len() + after.queued.len()
                == owed
        }),
{
    match event {
        EventModel::Ended { id, panic } => {
            lemma_parted(model.actor.retirements, id);
        },
        _ => {},
    }
}

proof fn lemma_parted(retirements: Seq<RetirementModel>, id: u64)
    ensures
        still_waiting(retirements, id).len() + completed_by(retirements, id).len()
            == retirements.len(),
    decreases retirements.len(),
{
    if retirements.len() > 0 {
        lemma_parted(retirements.drop_last(), id);
    }
}

} // verus!
