//! The task supervisor: whether tasks may start, and how it all ends.

use vstd::multiset::Multiset;
use vstd::prelude::*;
use crate::component::task::{claim_of, installed, is_rejected, released, retirement_claim};
use crate::component::task::{claimed_components, scope_models, ActiveRetirementClaims};
use crate::component::task::MountTaskScope;
use crate::component::task::{law_retired_mounts_start_nothing, RetirementClaim, ScopeModel};

verus! {

/// Why the supervisor refuses.
#[derive(Debug, Clone, Copy, PartialEq, Eq, Structural)]
pub enum MountTaskSupervisorError {
    /// Tasks need a runtime, and there is none.
    RuntimeUnavailable,
    /// The supervisor is closed.
    Closed,
    /// A task has panicked.
    Panicked,
    /// The mount is being retired.
    StaleMount,
}

/// How the supervisor is.
#[derive(Debug, Clone, Copy, PartialEq, Eq, Structural)]
pub enum TaskSupervisorStatus {
    Healthy,
    Panicked,
    Closed,
}

/// Model of [`SupervisorState`].
pub struct SupervisorModel<P> {
    pub accepting: bool,
    pub closed: bool,
    pub panicked: bool,
    pub payload: Option<P>,
    pub actor_failed: bool,
    pub actor: Option<u64>,
    pub claims: Multiset<ScopeModel>,
    pub waiting: Seq<u64>,
    pub abandoned: Seq<u64>,
}

impl<P> SupervisorModel<P> {
    /// The supervisor once nothing can be completed any more.
    pub open spec fn shut(self) -> Self {
        SupervisorModel {
            accepting: false,
            closed: true,
            claims: Multiset::empty(),
            waiting: Seq::empty(),
            abandoned: self.abandoned + self.waiting,
            ..self
        }
    }

    /// The supervisor once its actor has failed.
    pub open spec fn broken(self) -> Self {
        SupervisorModel { actor_failed: true, ..self.shut() }
    }

    /// Why nothing is accepted, if so. A panic counts before a closure.
    pub open spec fn refusal(self) -> Option<MountTaskSupervisorError> {
        if self.panicked {
            Some(MountTaskSupervisorError::Panicked)
        } else if !self.accepting || self.closed {
            Some(MountTaskSupervisorError::Closed)
        } else {
            None
        }
    }

    /// What is wrong with being called on a runtime. An actor lives on one runtime.
    pub open spec fn runtime_fault(self, current: Option<u64>) -> Option<MountTaskSupervisorError> {
        match (self.actor, current) {
            (None, _) => None,
            (Some(_), None) => Some(MountTaskSupervisorError::RuntimeUnavailable),
            (Some(owner), Some(current)) => if owner == current {
                None
            } else {
                Some(MountTaskSupervisorError::Closed)
            },
        }
    }

    /// The supervisor once it was called on a runtime. A foreign runtime breaks it.
    pub open spec fn seen_from(self, current: Option<u64>) -> Self {
        if self.runtime_fault(current) == Some(MountTaskSupervisorError::Closed) {
            self.broken()
        } else {
            self
        }
    }

    /// Why a task cannot start, if so.
    pub open spec fn start_fault(
        self,
        current: Option<u64>,
        scope: ScopeModel,
    ) -> Option<MountTaskSupervisorError> {
        if self.runtime_fault(current) is Some {
            self.runtime_fault(current)
        } else if self.refusal() is Some {
            self.refusal()
        } else if is_rejected(self.claims, scope) {
            Some(MountTaskSupervisorError::StaleMount)
        } else if self.actor is None && current is None {
            Some(MountTaskSupervisorError::RuntimeUnavailable)
        } else {
            None
        }
    }

    /// How the supervisor is.
    pub open spec fn status(self) -> TaskSupervisorStatus {
        match self.refusal() {
            Some(MountTaskSupervisorError::Panicked) => TaskSupervisorStatus::Panicked,
            Some(_) => TaskSupervisorStatus::Closed,
            None => TaskSupervisorStatus::Healthy,
        }
    }

    /// The supervisor once a shutdown has begun.
    pub open spec fn shutting_down(self, dropping: bool) -> Self {
        let stopped = SupervisorModel {
            accepting: false,
            closed: self.closed || self.actor is None || dropping,
            actor: None,
            ..self
        };
        if dropping {
            stopped.shut()
        } else {
            stopped
        }
    }

    /// The supervisor once a task has panicked. The first panic is kept.
    pub open spec fn panicked_with(self, payload: P) -> Self {
        if self.panicked {
            self
        } else {
            SupervisorModel {
                accepting: false,
                panicked: true,
                payload: Some(payload),
                ..self
            }
        }
    }
}

/// The state of the supervisor. `P` is what a panic leaves behind. Retirements are
/// known by tickets of the host's: `waiting` are those not complete, `abandoned` those
/// that never will be.
#[derive(Debug)]
pub struct SupervisorState<P> {
    pub(crate) accepting: bool,
    pub(crate) closed: bool,
    pub(crate) panicked: bool,
    pub(crate) panic_payload: Option<P>,
    pub(crate) actor_failed: bool,
    pub(crate) actor: Option<u64>,
    pub(crate) retirement_claims: ActiveRetirementClaims,
    pub(crate) waiting: Vec<u64>,
    pub(crate) abandoned: Vec<u64>,
}

impl<P> View for SupervisorState<P> {
    type V = SupervisorModel<P>;

    open(crate) spec fn view(&self) -> SupervisorModel<P> {
        SupervisorModel {
            accepting: self.accepting,
            closed: self.closed,
            panicked: self.panicked,
            payload: self.panic_payload,
            actor_failed: self.actor_failed,
            actor: self.actor,
            claims: self.retirement_claims@,
            waiting: self.waiting@,
            abandoned: self.abandoned@,
        }
    }
}

/// Tickets without one.
pub open spec fn without_ticket(tickets: Seq<u64>, ticket: u64) -> Seq<u64>
    decreases tickets.len(),
{
    if tickets.len() == 0 {
        Seq::empty()
    } else {
        let before = without_ticket(tickets.drop_last(), ticket);
        if tickets.last() == ticket {
            before
        } else {
            before.push(tickets.last())
        }
    }
}

/// How a retirement begins.
#[derive(Debug)]
pub enum RetireDecision {
    /// There is nothing to wait for.
    Completed,
    /// The actor is told, and the ticket waits.
    Pending(RetirementClaim),
}

/// How a shutdown goes on.
#[derive(Debug, Clone, Copy, PartialEq, Eq, Structural)]
pub enum ShutdownPlan {
    /// There is no actor to wait for.
    Done,
    /// The actor on this runtime is told and waited for.
    Join(u64),
}

impl<P> SupervisorState<P> {
    pub fn new() -> (state: Self)
        ensures
            state@ == (SupervisorModel::<P> {
                accepting: true,
                closed: false,
                panicked: false,
                payload: None,
                actor_failed: false,
                actor: None,
                claims: Multiset::empty(),
                waiting: Seq::empty(),
                abandoned: Seq::empty(),
            }),
    {
        Self {
            accepting: true,
            closed: false,
            panicked: false,
            panic_payload: None,
            actor_failed: false,
            actor: None,
            retirement_claims: ActiveRetirementClaims::new(),
            waiting: Vec::new(),
            abandoned: Vec::new(),
        }
    }

    fn close_retirements(&mut self)
        ensures
            final(self)@ == (SupervisorModel {
                claims: Multiset::empty(),
                waiting: Seq::empty(),
                abandoned: old(self)@.abandoned + old(self)@.waiting,
                ..old(self)@
            }),
    {
        self.retirement_claims.clear();
        let mut waiting: Vec<u64> = Vec::new();
        std::mem::swap(&mut waiting, &mut self.waiting);
        self.abandoned.append(&mut waiting);
    }

    /// The tickets of retirements that never will be complete.
    pub fn take_abandoned(&mut self) -> (tickets: Vec<u64>)
        ensures
            tickets@ == old(self)@.abandoned,
            final(self)@ == (SupervisorModel { abandoned: Seq::empty(), ..old(self)@ }),
    {
        let mut tickets: Vec<u64> = Vec::new();
        std::mem::swap(&mut tickets, &mut self.abandoned);
        tickets
    }

    /// Whether the caller is on the runtime of the actor. `current` is the runtime that
    /// the caller is on.
    pub fn ensure_current_actor_runtime(&mut self, current: Option<u64>) -> (result: Result<
        (),
        MountTaskSupervisorError,
    >)
        ensures
            final(self)@ == old(self)@.seen_from(current),
            match result {
                Ok(_) => old(self)@.runtime_fault(current) is None,
                Err(error) => old(self)@.runtime_fault(current) == Some(error),
            },
    {
        let owner: u64 = match self.actor {
            Some(owner) => owner,
            None => return Ok(()),
        };
        let current: u64 = match current {
            Some(current) => current,
            None => return Err(MountTaskSupervisorError::RuntimeUnavailable),
        };
        if owner != current {
            self.close_after_actor_failure();
            return Err(MountTaskSupervisorError::Closed);
        }
        Ok(())
    }

    /// Breaks the supervisor where it is looked at from a foreign runtime.
    pub fn fence_foreign_runtime(&mut self, current: Option<u64>)
        ensures
            final(self)@ == old(self)@.seen_from(current),
    {
        match self.ensure_current_actor_runtime(current) {
            Ok(_) => {},
            Err(_) => {},
        }
    }

    fn ensure_accepting(&self) -> (result: Result<(), MountTaskSupervisorError>)
        ensures
            match result {
                Ok(_) => self@.refusal() is None,
                Err(error) => self@.refusal() == Some(error),
            },
    {
        if self.panicked {
            Err(MountTaskSupervisorError::Panicked)
        } else if !self.accepting || self.closed {
            Err(MountTaskSupervisorError::Closed)
        } else {
            Ok(())
        }
    }

    /// Whether a task of a mount may start. `Ok(true)` says that the actor has to be
    /// started for it, on the caller's runtime.
    pub fn start(&mut self, current: Option<u64>, scope: &MountTaskScope) -> (result: Result<
        bool,
        MountTaskSupervisorError,
    >)
        ensures
            match result {
                Ok(needs_actor) => {
                    &&& old(self)@.start_fault(current, scope@) is None
                    &&& needs_actor == (old(self)@.actor is None)
                    &&& final(self)@ == if needs_actor {
                        SupervisorModel { actor: current, ..old(self)@ }
                    } else {
                        old(self)@
                    }
                },
                Err(error) => {
                    &&& old(self)@.start_fault(current, scope@) == Some(error)
                    &&& final(self)@ == old(self)@.seen_from(current)
                },
            },
    {
        match self.ensure_current_actor_runtime(current) {
            Ok(_) => {},
            Err(error) => return Err(error),
        }
        match self.ensure_accepting() {
            Ok(_) => {},
            Err(error) => return Err(error),
        }
        if self.retirement_claims.rejects(scope) {
            return Err(MountTaskSupervisorError::StaleMount);
        }
        if self.actor.is_some() {
            return Ok(false);
        }
        if current.is_none() {
            return Err(MountTaskSupervisorError::RuntimeUnavailable);
        }
        self.actor = current;
        Ok(true)
    }

    /// The actor could not be told anything: all is closed.
    pub fn actor_gone(&mut self) -> (error: MountTaskSupervisorError)
        ensures
            error == MountTaskSupervisorError::Closed,
            final(self)@ == old(self)@.shut(),
    {
        self.accepting = false;
        self.closed = true;
        self.close_retirements();
        MountTaskSupervisorError::Closed
    }

    /// Whether tasks could start at all.
    pub fn preflight(&mut self, current: Option<u64>) -> (result: Result<
        (),
        MountTaskSupervisorError,
    >)
        ensures
            final(self)@ == old(self)@.seen_from(current),
            match result {
                Ok(_) => {
                    &&& old(self)@.runtime_fault(current) is None
                    &&& old(self)@.refusal() is None
                    &&& current is Some
                },
                Err(error) => if old(self)@.runtime_fault(current) is Some {
                    old(self)@.runtime_fault(current) == Some(error)
                } else if old(self)@.refusal() is Some {
                    old(self)@.refusal() == Some(error)
                } else {
                    current is None && error == MountTaskSupervisorError::RuntimeUnavailable
                },
            },
    {
        match self.ensure_current_actor_runtime(current) {
            Ok(_) => {},
            Err(error) => return Err(error),
        }
        match self.ensure_accepting() {
            Ok(_) => {},
            Err(error) => return Err(error),
        }
        if current.is_none() {
            return Err(MountTaskSupervisorError::RuntimeUnavailable);
        }
        Ok(())
    }

    /// Begins a retirement under a ticket. Nothing is waited for where nothing is
    /// retired or nothing was ever started. Otherwise the mounts are claimed before the
    /// actor is told.
    pub fn retire(
        &mut self,
        current: Option<u64>,
        scopes: &Vec<MountTaskScope>,
        ticket: u64,
    ) -> (result: Result<RetireDecision, MountTaskSupervisorError>)
        ensures
            match result {
                Ok(RetireDecision::Completed) => {
                    &&& old(self)@.runtime_fault(current) is None
                    &&& scopes@.len() == 0 || (old(self)@.refusal() is None && old(
                        self,
                    )@.actor is None)
                    &&& final(self)@ == old(self)@
                },
                Ok(RetireDecision::Pending(claim)) => {
                    &&& old(self)@.runtime_fault(current) is None
                    &&& scopes@.len() > 0
                    &&& old(self)@.refusal() is None
                    &&& old(self)@.actor is Some
                    &&& claim@ == claim_of(scope_models(scopes@))
                    &&& final(self)@ == (SupervisorModel {
                        claims: installed(old(self)@.claims, claim@),
                        waiting: old(self)@.waiting.push(ticket),
                        ..old(self)@
                    })
                },
                Err(error) => {
                    &&& final(self)@ == old(self)@.seen_from(current)
                    &&& if old(self)@.runtime_fault(current) is Some {
                        old(self)@.runtime_fault(current) == Some(error)
                    } else {
                        scopes@.len() > 0 && old(self)@.refusal() == Some(error)
                    }
                },
            },
    {
        match self.ensure_current_actor_runtime(current) {
            Ok(_) => {},
            Err(error) => return Err(error),
        }
        if scopes.is_empty() {
            return Ok(RetireDecision::Completed);
        }
        match self.ensure_accepting() {
            Ok(_) => {},
            Err(error) => return Err(error),
        }
        if self.actor.is_none() {
            return Ok(RetireDecision::Completed);
        }
        let claim = retirement_claim(scopes);
        self.retirement_claims.install(&claim);
        self.waiting.push(ticket);
        Ok(RetireDecision::Pending(claim))
    }

    /// Takes the completion of a retirement.
    pub fn complete_retirement(&mut self, claim: &RetirementClaim, ticket: u64)
        ensures
            final(self)@ == (SupervisorModel {
                claims: released(old(self)@.claims, claim@),
                waiting: without_ticket(old(self)@.waiting, ticket),
                ..old(self)@
            }),
    {
        self.retirement_claims.release(claim);
        let ghost all = self.waiting@;
        let mut left: Vec<u64> = Vec::new();
        let count: usize = self.waiting.len();
        assert(all.take(0) =~= Seq::empty());
        for i in 0..count
            invariant
                count == self.waiting@.len(),
                all == self.waiting@,
                left@ == without_ticket(all.take(i as int), ticket),
        {
            assert(all.take(i as int + 1).drop_last() =~= all.take(i as int));
            if self.waiting[i] != ticket {
                left.push(self.waiting[i]);
            }
        }
        assert(all.take(all.len() as int) =~= all);
        self.waiting = left;
    }

    /// Begins to shut down, and says on which runtime the actor was. Where the
    /// supervisor is dropped, nobody waits for the actor.
    pub fn begin_shutdown(&mut self, dropping: bool) -> (actor: Option<u64>)
        ensures
            actor == old(self)@.actor,
            final(self)@ == old(self)@.shutting_down(dropping),
    {
        self.accepting = false;
        let actor = self.actor.take();
        if actor.is_none() || dropping {
            self.closed = true;
        }
        if dropping {
            self.close_retirements();
        }
        actor
    }

    /// Begins an orderly shutdown.
    pub fn shutdown(&mut self, current: Option<u64>) -> (result: Result<
        ShutdownPlan,
        MountTaskSupervisorError,
    >)
        ensures
            ({
                let before = old(self)@;
                if before.runtime_fault(current) is Some {
                    &&& result == Err::<ShutdownPlan, MountTaskSupervisorError>(
                        before.runtime_fault(current)->Some_0,
                    )
                    &&& final(self)@ == before.seen_from(current)
                } else if before.actor_failed && !before.panicked {
                    &&& result == Err::<ShutdownPlan, MountTaskSupervisorError>(
                        MountTaskSupervisorError::Closed,
                    )
                    &&& final(self)@ == before
                } else {
                    &&& final(self)@ == before.shutting_down(false)
                    &&& result == match before.actor {
                        Some(runtime) => Ok(ShutdownPlan::Join(runtime)),
                        None => if before.panicked {
                            Err(MountTaskSupervisorError::Panicked)
                        } else {
                            Ok(ShutdownPlan::Done)
                        },
                    }
                }
            }),
    {
        match self.ensure_current_actor_runtime(current) {
            Ok(_) => {},
            Err(error) => return Err(error),
        }
        if self.actor_failed && !self.panicked {
            return Err(MountTaskSupervisorError::Closed);
        }
        match self.begin_shutdown(false) {
            Some(runtime) => Ok(ShutdownPlan::Join(runtime)),
            None => if self.panicked {
                Err(MountTaskSupervisorError::Panicked)
            } else {
                Ok(ShutdownPlan::Done)
            },
        }
    }

    /// Takes the end of the actor that a shutdown waited for. `joined` says that it
    /// ended by itself, on its own runtime.
    pub fn shutdown_finished(&mut self, joined: bool) -> (result: Result<
        (),
        MountTaskSupervisorError,
    >)
        ensures
            final(self)@ == if joined {
                old(self)@
            } else {
                old(self)@.broken()
            },
            result == if !joined {
                Err(MountTaskSupervisorError::Closed)
            } else if old(self)@.panicked {
                Err(MountTaskSupervisorError::Panicked)
            } else if old(self)@.actor_failed {
                Err(MountTaskSupervisorError::Closed)
            } else {
                Ok(())
            },
    {
        if !joined {
            self.close_after_actor_failure();
            return Err(MountTaskSupervisorError::Closed);
        }
        if self.panicked {
            Err(MountTaskSupervisorError::Panicked)
        } else if self.actor_failed {
            Err(MountTaskSupervisorError::Closed)
        } else {
            Ok(())
        }
    }

    /// The actor has failed.
    pub fn close_after_actor_failure(&mut self)
        ensures
            final(self)@ == old(self)@.broken(),
    {
        self.accepting = false;
        self.closed = true;
        self.actor_failed = true;
        self.close_retirements();
    }

    /// A task has panicked.
    pub fn latch_panic(&mut self, payload: P)
        ensures
            final(self)@ == old(self)@.panicked_with(payload),
    {
        if !self.panicked {
            self.accepting = false;
            self.panicked = true;
            self.panic_payload = Some(payload);
        }
    }

    /// The actor has ended.
    pub fn mark_actor_finished(&mut self)
        ensures
            final(self)@ == (SupervisorModel { accepting: false, closed: true, ..old(self)@ }),
    {
        self.accepting = false;
        self.closed = true;
    }

    /// What the first panic left behind, once.
    pub fn take_payload(&mut self) -> (payload: Option<P>)
        ensures
            payload == old(self)@.payload,
            final(self)@ == (SupervisorModel { payload: None, ..old(self)@ }),
    {
        self.panic_payload.take()
    }

    /// How many components have mounts that are being retired.
    pub fn retiring_components(&self) -> (count: usize)
        ensures
            claimed_components(self@.claims).finite(),
            count == claimed_components(self@.claims).len(),
    {
        self.retirement_claims.component_count()
    }

    pub fn retirement_waiters(&self) -> (count: usize)
        ensures
            count == self@.waiting.len(),
    {
        self.waiting.len()
    }

    pub fn has_panicked(&self) -> (panicked: bool)
        ensures
            panicked == self@.panicked,
    {
        self.panicked
    }

    pub fn has_actor_failed(&self) -> (failed: bool)
        ensures
            failed == self@.actor_failed,
    {
        self.actor_failed
    }

    pub fn status(&self) -> (status: TaskSupervisorStatus)
        ensures
            status == self@.status(),
    {
        if self.panicked {
            TaskSupervisorStatus::Panicked
        } else if !self.accepting || self.closed {
            TaskSupervisorStatus::Closed
        } else {
            TaskSupervisorStatus::Healthy
        }
    }

    /// Whether somebody who waits for a panic is done waiting.
    pub fn panic_wait(&mut self, current: Option<u64>) -> (result: Option<Result<
        (),
        MountTaskSupervisorError,
    >>)
        ensures
            result == if old(self)@.panicked {
                Some(Ok(()))
            } else if old(self)@.closed {
                Some(Err(MountTaskSupervisorError::Closed))
            } else {
                match old(self)@.runtime_fault(current) {
                    Some(error) => Some(Err(error)),
                    None => None,
                }
            },
            final(self)@ == if old(self)@.panicked || old(self)@.closed {
                old(self)@
            } else {
                old(self)@.seen_from(current)
            },
    {
        if self.panicked {
            return Some(Ok(()));
        }
        if self.closed {
            return Some(Err(MountTaskSupervisorError::Closed));
        }
        match self.ensure_current_actor_runtime(current) {
            Ok(_) => None,
            Err(error) => Some(Err(error)),
        }
    }
}

/// From the moment a retirement is accepted until it is complete, the mounts that it
/// retires cannot start a task.
pub proof fn law_retirement_fences_its_mounts<P>(
    supervisor: SupervisorModel<P>,
    scopes: Seq<ScopeModel>,
    at: int,
    current: Option<u64>,
)
    requires
        0 <= at < scopes.len(),
    ensures
        (SupervisorModel {
            claims: installed(supervisor.claims, claim_of(scopes)),
            ..supervisor
        }).start_fault(current, scopes[at]) is Some,
{
    law_retired_mounts_start_nothing(supervisor.claims, scopes, at, scopes[at]);
}

/// One thing that happens to a supervisor.
pub enum SupervisorEvent<P> {
    SeenFrom(Option<u64>),
    Started(u64),
    ActorGone,
    Retired(Seq<ScopeModel>, u64),
    RetirementCompleted(Seq<ScopeModel>, u64),
    ShutdownBegun(bool),
    ActorFailed,
    ActorFinished,
    Panicked(P),
    PayloadTaken,
    AbandonedTaken,
}

/// The supervisor after an event.
pub open spec fn after_event<P>(
    supervisor: SupervisorModel<P>,
    event: SupervisorEvent<P>,
) -> SupervisorModel<P> {
    match event {
        SupervisorEvent::SeenFrom(current) => supervisor.seen_from(current),
        SupervisorEvent::Started(runtime) => SupervisorModel {
            actor: Some(runtime),
            ..supervisor
        },
        SupervisorEvent::ActorGone => supervisor.shut(),
        SupervisorEvent::Retired(claim, ticket) => SupervisorModel {
            claims: installed(supervisor.claims, claim),
            waiting: supervisor.waiting.push(ticket),
            ..supervisor
        },
        SupervisorEvent::RetirementCompleted(claim, ticket) => SupervisorModel {
            claims: released(supervisor.claims, claim),
            waiting: without_ticket(supervisor.waiting, ticket),
            ..supervisor
        },
        SupervisorEvent::ShutdownBegun(dropping) => supervisor.shutting_down(dropping),
        SupervisorEvent::ActorFailed => supervisor.broken(),
        SupervisorEvent::ActorFinished => SupervisorModel {
            accepting: false,
            closed: true,
            ..supervisor
        },
        SupervisorEvent::Panicked(payload) => supervisor.panicked_with(payload),
        SupervisorEvent::PayloadTaken => SupervisorModel { payload: None, ..supervisor },
        SupervisorEvent::AbandonedTaken => SupervisorModel {
            abandoned: Seq::empty(),
            ..supervisor
        },
    }
}

/// The supervisor after several events.
pub open spec fn after_events<P>(
    supervisor: SupervisorModel<P>,
    events: Seq<SupervisorEvent<P>>,
) -> SupervisorModel<P>
    decreases events.len(),
{
    if events.len() == 0 {
        supervisor
    } else {
        after_event(after_events(supervisor, events.drop_last()), events.last())
    }
}

/// A supervisor that has stopped accepting tasks never accepts one again, and a panic
/// is never forgotten.
pub proof fn law_refusal_is_final<P>(
    supervisor: SupervisorModel<P>,
    events: Seq<SupervisorEvent<P>>,
)
    ensures
        supervisor.refusal() is Some ==> after_events(supervisor, events).refusal() is Some,
        supervisor.panicked ==> after_events(supervisor, events).panicked,
        !supervisor.accepting ==> !after_events(supervisor, events).accepting,
        supervisor.closed ==> after_events(supervisor, events).closed,
    decreases events.len(),
{
    if events.len() > 0 {
        law_refusal_is_final(supervisor, events.drop_last());
    }
}

/// Of several panics the first is reported.
pub proof fn law_first_panic_is_kept<P>(supervisor: SupervisorModel<P>, first: P, second: P)
    requires
        !supervisor.panicked,
    ensures
        supervisor.panicked_with(first).panicked_with(second).payload == Some(first),
{
}

} // verus!
