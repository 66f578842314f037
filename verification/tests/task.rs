use agentview::component::identity::ComponentId;
use agentview::component::task::{
    retirement_claim, ActiveRetirementClaims, MountTaskScope, RetirementClaim,
};
use agentview::component::task_actor::TaskActor;
use agentview::component::task_loop::{ActorAction, ActorEvent, LoopPhase, TaskLoop};
use agentview::component::task_supervisor::{
    MountTaskSupervisorError, RetireDecision, ShutdownPlan, SupervisorState, TaskSupervisorStatus,
};

fn scope(generation: u64) -> MountTaskScope {
    MountTaskScope::new(ComponentId::root(), generation)
}

fn child_scope(position: u64) -> MountTaskScope {
    MountTaskScope::new(ComponentId::root().child("item", position), 1)
}

/// The runtime that the tests are on, and another one.
const HERE: Option<u64> = Some(1);
const ELSEWHERE: Option<u64> = Some(2);

#[derive(Debug, PartialEq)]
struct Bookkeeping {
    core_retiring_components: usize,
    core_retirement_waiters: usize,
    actor_retiring_components: usize,
    actor_live_tasks: usize,
    actor_pending_retirements: usize,
}

/// A supervisor whose tasks end when they are told to.
struct Supervisor {
    state: SupervisorState<&'static str>,
    actor: TaskLoop,
    next_ticket: u64,
    aborted: Vec<u64>,
    completed: Vec<u64>,
}

impl Supervisor {
    fn new() -> Self {
        Self {
            state: SupervisorState::new(),
            actor: TaskLoop::new(),
            next_ticket: 0,
            aborted: Vec::new(),
            completed: Vec::new(),
        }
    }

    /// Carries out what an event asks for.
    fn step(&mut self, event: ActorEvent<&'static str>) -> ActorAction {
        let step = self.actor.step(event);
        if let Some(payload) = step.latch {
            self.state.latch_panic(payload);
        }
        self.aborted.extend(step.abort);
        for retirement in step.complete {
            self.state
                .complete_retirement(retirement.claim(), retirement.ticket());
            self.completed.push(retirement.ticket());
        }
        step.action
    }

    fn start(
        &mut self,
        current: Option<u64>,
        scope: MountTaskScope,
    ) -> Result<u64, MountTaskSupervisorError> {
        self.state.start(current, &scope)?;
        match self.step(ActorEvent::Start { scope }) {
            ActorAction::Spawn(id) => Ok(id),
            action => panic!("the task did not start: {action:?}"),
        }
    }

    fn retire(
        &mut self,
        current: Option<u64>,
        scopes: Vec<MountTaskScope>,
    ) -> Result<u64, MountTaskSupervisorError> {
        let ticket = self.next_ticket;
        self.next_ticket += 1;
        match self.state.retire(current, &scopes, ticket)? {
            RetireDecision::Completed => self.completed.push(ticket),
            RetireDecision::Pending(claim) => {
                let action = self.step(ActorEvent::Retire {
                    scopes,
                    claim,
                    ticket,
                });
                assert_eq!(action, ActorAction::Wait);
            }
        }
        Ok(ticket)
    }

    /// An aborted task, or any other, has come to its end.
    fn end(&mut self, id: u64) {
        self.step(ActorEvent::Ended { id, panic: None });
    }

    fn end_aborted(&mut self) {
        for id in std::mem::take(&mut self.aborted) {
            self.end(id);
        }
    }

    fn bookkeeping(&self) -> Bookkeeping {
        Bookkeeping {
            core_retiring_components: self.state.retiring_components(),
            core_retirement_waiters: self.state.retirement_waiters(),
            actor_retiring_components: self.actor.actor().retiring_components(),
            actor_live_tasks: self.actor.actor().live_tasks(),
            actor_pending_retirements: self.actor.actor().pending_retirements(),
        }
    }
}

fn idle(actor_live_tasks: usize) -> Bookkeeping {
    Bookkeeping {
        core_retiring_components: 0,
        core_retirement_waiters: 0,
        actor_retiring_components: 0,
        actor_live_tasks,
        actor_pending_retirements: 0,
    }
}

#[test]
fn first_start_requires_a_tokio_runtime_without_starting_an_actor() {
    let mut state: SupervisorState<()> = SupervisorState::new();
    assert_eq!(
        state.start(None, &scope(1)),
        Err(MountTaskSupervisorError::RuntimeUnavailable)
    );
    assert_eq!(state.shutdown(None).ok().map(is_done), Some(true));
}

fn is_done(plan: ShutdownPlan) -> bool {
    matches!(plan, ShutdownPlan::Done)
}

#[test]
fn an_internal_actor_panic_is_transported_to_the_monitor() {
    let mut supervisor = Supervisor::new();
    assert_eq!(supervisor.state.status(), TaskSupervisorStatus::Healthy);
    supervisor.start(HERE, scope(1)).unwrap();
    assert!(supervisor.state.panic_wait(HERE).is_none());

    supervisor
        .state
        .latch_panic("injected task supervisor actor panic");
    supervisor.state.close_after_actor_failure();
    assert_eq!(supervisor.state.panic_wait(HERE), Some(Ok(())));

    assert_eq!(supervisor.state.status(), TaskSupervisorStatus::Panicked);
    assert_eq!(
        supervisor.state.take_payload(),
        Some("injected task supervisor actor panic")
    );
    assert!(matches!(
        supervisor.state.shutdown(HERE),
        Ok(ShutdownPlan::Join(1))
    ));
    assert_eq!(
        supervisor.state.shutdown_finished(true),
        Err(MountTaskSupervisorError::Panicked)
    );
}

#[test]
fn registration_is_nonblocking_and_retirement_drops_an_unpolled_task() {
    let mut supervisor = Supervisor::new();
    let task = supervisor.start(HERE, scope(1)).unwrap();
    let ticket = supervisor.retire(HERE, vec![scope(1)]).unwrap();
    assert_eq!(supervisor.aborted, [task]);
    supervisor.end_aborted();
    assert_eq!(supervisor.completed, [ticket]);
}

#[test]
fn normal_completion_only_removes_the_task() {
    let mut supervisor = Supervisor::new();
    let task = supervisor.start(HERE, scope(1)).unwrap();
    supervisor.end(task);

    let ticket = supervisor.retire(HERE, vec![scope(1)]).unwrap();
    assert_eq!(supervisor.completed, [ticket]);
    assert!(supervisor.state.panic_wait(HERE).is_none());
    assert!(matches!(
        supervisor.state.shutdown(HERE),
        Ok(ShutdownPlan::Join(1))
    ));
    assert_eq!(supervisor.state.shutdown_finished(true), Ok(()));
}

#[test]
fn repeated_same_component_retirement_keeps_bookkeeping_bounded() {
    const GENERATIONS: u64 = 512;

    let mut supervisor = Supervisor::new();
    for generation in 1..=GENERATIONS {
        supervisor.start(HERE, scope(generation)).unwrap();
        supervisor.retire(HERE, vec![scope(generation)]).unwrap();
        supervisor.end_aborted();
    }

    assert_eq!(supervisor.bookkeeping(), idle(0));
    assert_eq!(supervisor.completed.len(), 512);
}

#[test]
fn distinct_component_retirements_converge_to_current_cardinality() {
    const COMPONENTS: u64 = 512;

    let mut supervisor = Supervisor::new();
    for position in 0..COMPONENTS {
        supervisor.start(HERE, child_scope(position)).unwrap();
    }
    assert_eq!(supervisor.bookkeeping(), idle(512));

    supervisor
        .retire(HERE, (0..COMPONENTS - 1).map(child_scope).collect())
        .unwrap();
    supervisor.end_aborted();
    assert_eq!(supervisor.bookkeeping(), idle(1));

    supervisor
        .retire(HERE, vec![child_scope(COMPONENTS - 1)])
        .unwrap();
    supervisor.end_aborted();
    assert_eq!(supervisor.bookkeeping(), idle(0));
}

#[test]
fn retirement_aborts_only_the_selected_mount_and_awaits_drop() {
    let mut supervisor = Supervisor::new();
    let first = supervisor.start(HERE, scope(1)).unwrap();
    supervisor.start(HERE, scope(2)).unwrap();

    let ticket = supervisor.retire(HERE, vec![scope(1)]).unwrap();
    assert_eq!(supervisor.aborted, [first]);
    assert!(supervisor.completed.is_empty());
    supervisor.end_aborted();
    assert_eq!(supervisor.completed, [ticket]);
    assert_eq!(supervisor.bookkeeping(), idle(1));
}

#[test]
fn retirement_claim_rejects_stale_start_until_abort_join() {
    let mut supervisor = Supervisor::new();
    supervisor.start(HERE, scope(1)).unwrap();

    let retirement = supervisor.retire(HERE, vec![scope(1)]).unwrap();
    assert_eq!(
        supervisor.start(HERE, scope(1)),
        Err(MountTaskSupervisorError::StaleMount)
    );
    assert_eq!(
        supervisor.bookkeeping(),
        Bookkeeping {
            core_retiring_components: 1,
            core_retirement_waiters: 1,
            actor_retiring_components: 1,
            actor_live_tasks: 1,
            actor_pending_retirements: 1,
        }
    );

    supervisor.end_aborted();
    assert_eq!(supervisor.completed, [retirement]);
    assert_eq!(supervisor.bookkeeping(), idle(0));
}

#[test]
fn first_task_panic_is_available_while_siblings_are_aborted_and_drained() {
    let mut supervisor = Supervisor::new();
    let sibling = supervisor.start(HERE, scope(1)).unwrap();
    let secondary = supervisor.start(HERE, scope(1)).unwrap();
    let primary = supervisor.start(HERE, scope(1)).unwrap();

    let action = supervisor.step(ActorEvent::Ended {
        id: primary,
        panic: Some("primary task panic"),
    });
    assert_eq!(action, ActorAction::Stop);
    assert_eq!(supervisor.state.panic_wait(HERE), Some(Ok(())));
    assert_eq!(supervisor.state.status(), TaskSupervisorStatus::Panicked);
    assert_eq!(supervisor.step(ActorEvent::NoCommand), ActorAction::Join);
    let action = supervisor.step(ActorEvent::Ended {
        id: secondary,
        panic: Some("secondary task panic"),
    });
    assert_eq!(action, ActorAction::Join);
    assert_eq!(
        supervisor.state.take_payload(),
        Some("primary task panic")
    );
    supervisor.end(sibling);
    assert_eq!(supervisor.actor.actor().live_tasks(), 0);
    assert_eq!(supervisor.step(ActorEvent::NoTask), ActorAction::Finish);
    assert_eq!(
        supervisor.start(HERE, scope(2)),
        Err(MountTaskSupervisorError::Panicked)
    );
    assert!(matches!(
        supervisor.state.shutdown(HERE),
        Ok(ShutdownPlan::Join(1))
    ));
    assert_eq!(
        supervisor.state.shutdown_finished(true),
        Err(MountTaskSupervisorError::Panicked)
    );
}

#[test]
fn owning_runtime_shutdown_closes_monitor_retirement_and_later_starts() {
    let mut supervisor = Supervisor::new();
    supervisor.start(HERE, scope(1)).unwrap();
    let retirement = supervisor.retire(HERE, vec![scope(1)]).unwrap();

    supervisor.state.close_after_actor_failure();

    assert_eq!(supervisor.state.status(), TaskSupervisorStatus::Closed);
    assert_eq!(
        supervisor.state.panic_wait(ELSEWHERE),
        Some(Err(MountTaskSupervisorError::Closed))
    );
    assert_eq!(supervisor.state.take_abandoned(), [retirement]);
    assert_eq!(
        supervisor.start(ELSEWHERE, scope(2)),
        Err(MountTaskSupervisorError::Closed)
    );
}

#[test]
fn idle_owning_runtime_is_fenced_before_foreign_runtime_operations() {
    let mut supervisor = Supervisor::new();
    supervisor.start(HERE, scope(1)).unwrap();
    let retirement = supervisor.retire(HERE, vec![scope(1)]).unwrap();
    assert!(supervisor.state.panic_wait(HERE).is_none());
    assert_eq!(supervisor.state.status(), TaskSupervisorStatus::Healthy);

    assert_eq!(
        supervisor.state.panic_wait(ELSEWHERE),
        Some(Err(MountTaskSupervisorError::Closed))
    );
    assert_eq!(supervisor.state.status(), TaskSupervisorStatus::Closed);
    assert_eq!(supervisor.state.take_abandoned(), [retirement]);
    assert_eq!(
        supervisor.start(ELSEWHERE, scope(2)),
        Err(MountTaskSupervisorError::Closed)
    );
    assert_eq!(
        supervisor.retire(ELSEWHERE, vec![scope(2)]),
        Err(MountTaskSupervisorError::Closed)
    );
}

#[test]
fn pending_shutdown_fails_closed_when_resumed_on_a_foreign_runtime() {
    let mut supervisor = Supervisor::new();
    supervisor.start(HERE, scope(1)).unwrap();
    let retirement = supervisor.retire(HERE, vec![scope(1)]).unwrap();
    assert!(matches!(
        supervisor.state.shutdown(HERE),
        Ok(ShutdownPlan::Join(1))
    ));

    // The actor was not joined where it runs.
    assert_eq!(
        supervisor.state.shutdown_finished(false),
        Err(MountTaskSupervisorError::Closed)
    );
    assert_eq!(supervisor.state.status(), TaskSupervisorStatus::Closed);
    assert_eq!(supervisor.state.take_abandoned(), [retirement]);
}

#[test]
fn dropping_the_owner_abandons_what_is_waited_for() {
    let mut supervisor = Supervisor::new();
    supervisor.start(HERE, scope(1)).unwrap();
    let retirement = supervisor.retire(HERE, vec![scope(1)]).unwrap();
    assert_eq!(supervisor.state.begin_shutdown(true), HERE);
    assert_eq!(supervisor.state.take_abandoned(), [retirement]);
    assert_eq!(supervisor.state.status(), TaskSupervisorStatus::Closed);
}

#[test]
fn claims_hold_up_older_mounts_and_no_newer_ones() {
    let mut claims = ActiveRetirementClaims::new();
    let claim = retirement_claim(&vec![scope(3), scope(5), child_scope(0)]);
    claims.install(&claim);
    claims.install(&retirement_claim(&vec![scope(4)]));
    assert_eq!(claims.component_count(), 2);
    claims.release(&retirement_claim(&vec![scope(4)]));
    assert!(claims.rejects(&scope(4)));
    assert!(claims.rejects(&scope(5)));
    assert!(!claims.rejects(&scope(6)));
    assert!(claims.rejects(&child_scope(0)));
    assert!(!claims.rejects(&child_scope(1)));
    claims.release(&claim);
    assert!(!claims.rejects(&scope(4)));
    assert_eq!(claims.component_count(), 0);
}

fn claim_of(scope: MountTaskScope) -> RetirementClaim {
    retirement_claim(&vec![scope])
}

#[test]
fn refused_tasks_are_dropped_and_their_panics_end_the_loop() {
    let mut supervisor = Supervisor::new();
    supervisor.start(HERE, scope(1)).unwrap();
    supervisor.step(ActorEvent::Retire {
        scopes: vec![scope(1)],
        claim: claim_of(scope(1)),
        ticket: 9,
    });
    let refused = || ActorEvent::Start { scope: scope(1) };
    assert_eq!(supervisor.step(refused()), ActorAction::Drop);
    assert_eq!(
        supervisor.step(ActorEvent::Dropped { panic: None }),
        ActorAction::Wait
    );
    assert_eq!(supervisor.step(refused()), ActorAction::Drop);
    let panic = Some("dropped in panic");
    assert_eq!(
        supervisor.step(ActorEvent::Dropped { panic }),
        ActorAction::Stop
    );
    assert_eq!(supervisor.actor.phase(), LoopPhase::Draining);
    assert_eq!(supervisor.state.take_payload(), panic);
}

#[test]
fn a_shutdown_drops_tasks_and_keeps_retirements() {
    let mut supervisor = Supervisor::new();
    let task = supervisor.start(HERE, scope(1)).unwrap();
    assert_eq!(supervisor.step(ActorEvent::Shutdown), ActorAction::Stop);
    let late = ActorEvent::Start { scope: scope(2) };
    assert_eq!(supervisor.step(late), ActorAction::Drop);
    let panic = Some("dropped in panic");
    assert_eq!(
        supervisor.step(ActorEvent::Dropped { panic }),
        ActorAction::TakeQueued
    );
    assert_eq!(supervisor.state.take_payload(), panic);
    let retire = ActorEvent::Retire {
        scopes: vec![scope(1)],
        claim: claim_of(scope(1)),
        ticket: 4,
    };
    assert_eq!(supervisor.step(retire), ActorAction::TakeQueued);
    assert_eq!(supervisor.step(ActorEvent::Shutdown), ActorAction::TakeQueued);
    assert_eq!(supervisor.step(ActorEvent::NoCommand), ActorAction::Join);
    let ended = ActorEvent::Ended {
        id: task,
        panic: None,
    };
    assert_eq!(supervisor.step(ended), ActorAction::Join);
    assert!(supervisor.completed.is_empty());
    assert_eq!(supervisor.step(ActorEvent::NoTask), ActorAction::Finish);
    assert_eq!(supervisor.completed, [4]);
    assert_eq!(supervisor.actor.phase(), LoopPhase::Finished);
}

#[test]
fn the_loop_stops_when_nothing_more_comes() {
    for event in [ActorEvent::NoCommand, ActorEvent::NoTask] {
        let mut supervisor = Supervisor::new();
        assert!(supervisor.actor.has_numbers());
        assert_eq!(supervisor.step(event), ActorAction::Stop);
        assert_eq!(supervisor.actor.phase(), LoopPhase::Draining);
    }
}

#[test]
fn retirements_that_come_late_are_kept() {
    let mut actor = TaskActor::new();
    actor.queue(retirement_claim(&vec![scope(1)]), 7);
    let queued = actor.drained();
    assert_eq!(queued.len(), 1);
    assert_eq!(queued[0].ticket(), 7);
}

#[test]
fn retiring_nothing_is_complete_at_once() {
    let mut supervisor = Supervisor::new();
    let early = supervisor.retire(None, vec![scope(1)]).unwrap();
    supervisor.start(HERE, scope(1)).unwrap();
    let nothing = supervisor.retire(HERE, Vec::new()).unwrap();
    assert_eq!(supervisor.completed, [early, nothing]);
    assert_eq!(
        supervisor.state.preflight(None),
        Err(MountTaskSupervisorError::RuntimeUnavailable)
    );
    assert_eq!(supervisor.state.actor_gone(), MountTaskSupervisorError::Closed);
}
