//! What the tasks of components can rely on.

use vstd::prelude::*;
use crate::component::task::{claim_of, claims_component, is_rejected, lemma_covering_at};
use crate::component::task::{lemma_covering_new, lemma_installed_count, ScopeModel};
use crate::component::task_actor::{affected, after_task, claims_of, completed_by, is_consistent};
use crate::component::task_actor::{lemma_claims_after_completion, still_waiting, without_id};
use crate::component::task_actor::{without_task, ActorModel};
use crate::component::task_actor::{RetirementModel, TaskModel};
use crate::component::task_loop::{after_event, asked_by, ActorAction, EventModel, LoopModel};
use crate::component::task_loop::LoopPhase;
use crate::component::task_supervisor::{without_ticket, MountTaskSupervisorError};
use crate::component::task_supervisor::{SupervisorModel, TaskSupervisorStatus};

verus! {

proof fn lemma_ids_without(ids: Seq<u64>, id: u64)
    ensures
        forall|other: u64| #[trigger]
            without_id(ids, id).contains(other) <==> ids.contains(other) && other != id,
    decreases ids.len(),
{
    if ids.len() > 0 {
        let before = ids.drop_last();
        let left = without_id(before, id);
        let all = without_id(ids, id);
        lemma_ids_without(before, id);
        assert forall|other: u64| #[trigger] all.contains(other) <==> ids.contains(other) && other
            != id by {
            assert(left.contains(other) <==> before.contains(other) && other != id);
            if all.contains(other) {
                let k = choose|k: int| 0 <= k < all.len() && all[k] == other;
                if k < left.len() {
                    assert(left[k] == other);
                    let j = choose|j: int| 0 <= j < before.len() && before[j] == other;
                    assert(ids[j] == other);
                } else {
                    assert(ids[ids.len() - 1] == other);
                }
            }
            if ids.contains(other) && other != id {
                let k = choose|k: int| 0 <= k < ids.len() && ids[k] == other;
                if k < before.len() {
                    assert(before[k] == other);
                    let j = choose|j: int| 0 <= j < left.len() && left[j] == other;
                    assert(all[j] == other);
                } else {
                    assert(all[all.len() - 1] == other);
                }
            }
        }
    } else {
        assert(without_id(ids, id) =~= ids);
    }
}

/// Whether a retirement is another one some tasks later: it has the same ticket and the
/// same claim, and waits for exactly those of its tasks that have not ended.
pub open spec fn waits_on(before: RetirementModel, after: RetirementModel, ended: u64) -> bool {
    &&& after.ticket == before.ticket
    &&& after.claim == before.claim
    &&& forall|id: u64| #[trigger]
        after.remaining.contains(id) <==> before.remaining.contains(id) && id != ended
}

/// Whether a retirement waits for a task other than one.
pub open spec fn owes_more_than(retirement: RetirementModel, id: u64) -> bool {
    exists|i: int| 0 <= i < retirement.remaining.len() && #[trigger] retirement.remaining[i] != id
}

proof fn lemma_waits_on(retirement: RetirementModel, id: u64)
    ensures
        waits_on(retirement, after_task(retirement, id), id),
        after_task(retirement, id).remaining.len() == 0 <==> !owes_more_than(retirement, id),
{
    lemma_ids_without(retirement.remaining, id);
    let left = after_task(retirement, id).remaining;
    if owes_more_than(retirement, id) {
        let i = choose|i: int|
            0 <= i < retirement.remaining.len() && #[trigger] retirement.remaining[i] != id;
        assert(retirement.remaining.contains(retirement.remaining[i]));
        assert(left.contains(retirement.remaining[i]));
    }
    if left.len() > 0 {
        assert(left.contains(left[0]));
        let i = choose|i: int|
            0 <= i < retirement.remaining.len() && retirement.remaining[i] == left[0];
        assert(retirement.remaining[i] != id);
    }
}

/// The end of a task completes exactly the retirements that wait for nothing else, in
/// their order. Every other one goes on waiting, for all its tasks but that one.
pub proof fn law_retirements_wait_for_their_last_task(retirements: Seq<RetirementModel>, id: u64)
    ensures
        ({
            let owing = retirements.filter(
                |retirement: RetirementModel| owes_more_than(retirement, id),
            );
            let done = retirements.filter(
                |retirement: RetirementModel| !owes_more_than(retirement, id),
            );
            &&& still_waiting(retirements, id).len() == owing.len()
            &&& completed_by(retirements, id).len() == done.len()
            &&& forall|i: int|
                0 <= i < owing.len() ==> waits_on(
                    owing[i],
                    #[trigger] still_waiting(retirements, id)[i],
                    id,
                )
            &&& forall|i: int|
                0 <= i < done.len() ==> waits_on(
                    done[i],
                    #[trigger] completed_by(retirements, id)[i],
                    id,
                )
        }),
    decreases retirements.len(),
{
    reveal(Seq::filter);
    if retirements.len() > 0 {
        law_retirements_wait_for_their_last_task(retirements.drop_last(), id);
        lemma_waits_on(retirements.last(), id);
    }
}

/// The end of a task removes it and no other.
pub proof fn law_only_the_ended_task_leaves(tasks: Seq<TaskModel>, id: u64)
    ensures
        forall|task: TaskModel| #[trigger]
            without_task(tasks, id).contains(task) <==> tasks.contains(task) && task.id != id,
    decreases tasks.len(),
{
    if tasks.len() > 0 {
        let before = tasks.drop_last();
        let left = without_task(before, id);
        let all = without_task(tasks, id);
        law_only_the_ended_task_leaves(before, id);
        assert forall|task: TaskModel| #[trigger]
            all.contains(task) <==> tasks.contains(task) && task.id != id by {
            assert(left.contains(task) <==> before.contains(task) && task.id != id);
            if all.contains(task) {
                let k = choose|k: int| 0 <= k < all.len() && all[k] == task;
                if k < left.len() {
                    assert(left[k] == task);
                    let j = choose|j: int| 0 <= j < before.len() && before[j] == task;
                    assert(tasks[j] == task);
                } else {
                    assert(tasks[tasks.len() - 1] == task);
                }
            }
            if tasks.contains(task) && task.id != id {
                let k = choose|k: int| 0 <= k < tasks.len() && tasks[k] == task;
                if k < before.len() {
                    assert(before[k] == task);
                    let j = choose|j: int| 0 <= j < left.len() && left[j] == task;
                    assert(all[j] == task);
                } else {
                    assert(all[all.len() - 1] == task);
                }
            }
        }
    } else {
        assert(without_task(tasks, id) =~= tasks);
    }
}

/// A retirement aborts exactly the tasks of the mounts that it retires.
pub proof fn law_retirements_abort_the_tasks_of_their_mounts(
    tasks: Seq<TaskModel>,
    scopes: Seq<ScopeModel>,
)
    ensures
        forall|id: u64| #[trigger]
            affected(tasks, scopes).contains(id) <==> exists|i: int|
                0 <= i < tasks.len() && (#[trigger] tasks[i]).id == id && scopes.contains(
                    tasks[i].scope,
                ),
        affected(tasks, scopes).len() <= tasks.len(),
    decreases tasks.len(),
{
    if tasks.len() > 0 {
        let before = tasks.drop_last();
        let ids = affected(before, scopes);
        let all = affected(tasks, scopes);
        law_retirements_abort_the_tasks_of_their_mounts(before, scopes);
        assert forall|id: u64| #[trigger] all.contains(id) <==> exists|i: int|
            0 <= i < tasks.len() && (#[trigger] tasks[i]).id == id && scopes.contains(
                tasks[i].scope,
            ) by {
            assert(ids.contains(id) <==> exists|i: int|
                0 <= i < before.len() && (#[trigger] before[i]).id == id && scopes.contains(
                    before[i].scope,
                ));
            if all.contains(id) {
                let k = choose|k: int| 0 <= k < all.len() && all[k] == id;
                if k < ids.len() {
                    assert(ids[k] == id);
                    let i = choose|i: int|
                        0 <= i < before.len() && (#[trigger] before[i]).id == id
                            && scopes.contains(before[i].scope);
                    assert(tasks[i] == before[i]);
                } else {
                    assert(tasks[tasks.len() - 1].id == id);
                }
            }
            if exists|i: int|
                0 <= i < tasks.len() && (#[trigger] tasks[i]).id == id && scopes.contains(
                    tasks[i].scope,
                ) {
                let i = choose|i: int|
                    0 <= i < tasks.len() && (#[trigger] tasks[i]).id == id && scopes.contains(
                        tasks[i].scope,
                    );
                if i < before.len() {
                    assert(before[i] == tasks[i]);
                    let k = choose|k: int| 0 <= k < ids.len() && ids[k] == id;
                    assert(all[k] == id);
                } else {
                    assert(all[all.len() - 1] == id);
                }
            }
        }
    }
}

proof fn lemma_claims_counted(retirements: Seq<RetirementModel>, entry: ScopeModel)
    ensures
        claims_of(retirements).count(entry) > 0 <==> exists|i: int|
            0 <= i < retirements.len() && (#[trigger] retirements[i]).claim.contains(entry),
    decreases retirements.len(),
{
    broadcast use vstd::seq_lib::group_to_multiset_ensures;

    if retirements.len() > 0 {
        let before = retirements.drop_last();
        let last = retirements.last();
        lemma_claims_counted(before, entry);
        lemma_installed_count(claims_of(before), last.claim, entry);
        assert(last.claim.contains(entry) <==> last.claim.to_multiset().count(entry) > 0);
        if claims_of(before).count(entry) > 0 {
            let i = choose|i: int|
                0 <= i < before.len() && (#[trigger] before[i]).claim.contains(entry);
            assert(retirements[i] == before[i]);
        }
        if last.claim.contains(entry) {
            assert(retirements[retirements.len() - 1].claim.contains(entry));
        }
        if exists|i: int|
            0 <= i < retirements.len() && (#[trigger] retirements[i]).claim.contains(entry) {
            let i = choose|i: int|
                0 <= i < retirements.len() && (#[trigger] retirements[i]).claim.contains(entry);
            if i < before.len() {
                assert(before[i] == retirements[i]);
            }
        }
    }
}

/// Whether a retirement keeps a mount from starting tasks: it retires that mount or a newer
/// one of the same component.
pub open spec fn fences(retirement: RetirementModel, scope: ScopeModel) -> bool {
    exists|k: int|
        0 <= k < retirement.claim.len() && (#[trigger] retirement.claim[k]).component
            == scope.component && scope.generation <= retirement.claim[k].generation
}

proof fn lemma_rejected(retirements: Seq<RetirementModel>, scope: ScopeModel)
    ensures
        is_rejected(claims_of(retirements), scope) <==> exists|i: int|
            0 <= i < retirements.len() && fences(#[trigger] retirements[i], scope),
{
    let claims = claims_of(retirements);
    if is_rejected(claims, scope) {
        let claimed = choose|claimed: ScopeModel| #[trigger]
            claims.count(claimed) > 0 && claimed.component == scope.component && scope.generation
                <= claimed.generation;
        lemma_claims_counted(retirements, claimed);
        let i = choose|i: int|
            0 <= i < retirements.len() && (#[trigger] retirements[i]).claim.contains(claimed);
        let k = choose|k: int|
            0 <= k < retirements[i].claim.len() && retirements[i].claim[k] == claimed;
        assert(retirements[i].claim[k].component == scope.component);
        assert(fences(retirements[i], scope));
    }
    if exists|i: int| 0 <= i < retirements.len() && fences(#[trigger] retirements[i], scope) {
        let i = choose|i: int| 0 <= i < retirements.len() && fences(#[trigger] retirements[i], scope);
        let k = choose|k: int|
            0 <= k < retirements[i].claim.len() && (#[trigger] retirements[i].claim[k]).component
                == scope.component && scope.generation <= retirements[i].claim[k].generation;
        let claimed = retirements[i].claim[k];
        assert(retirements[i].claim.contains(claimed));
        lemma_claims_counted(retirements, claimed);
        assert(claims.count(claimed) > 0);
    }
}

/// While the loop runs, a task starts exactly where no retirement under way fences its
/// mount. It gets a number that no task has, and joins those that run. Otherwise it is
/// dropped, and nothing changes.
pub proof fn law_tasks_start_unless_they_are_fenced<P>(model: LoopModel, scope: ScopeModel)
    requires
        is_consistent(model.actor),
    ensures
        ({
            let event = EventModel::<P>::Start { scope };
            let step = asked_by(model, event);
            let after = after_event(model, event);
            let free = model.phase == LoopPhase::Running && forall|i: int|
                0 <= i < model.actor.retirements.len() ==> !fences(
                    #[trigger] model.actor.retirements[i],
                    scope,
                );
            &&& free ==> step.action == ActorAction::Spawn(model.next)
            &&& free ==> after.actor.tasks == model.actor.tasks.push(
                TaskModel { id: model.next, scope },
            )
            &&& free && model.next < u64::MAX ==> after.next == model.next + 1
            &&& free ==> after.actor.retirements == model.actor.retirements && after.actor.claims
                == model.actor.claims && after.actor.queued == model.actor.queued && after.phase
                == model.phase
            &&& !free ==> step.action == ActorAction::Drop && after == model
            &&& step.latch is None && step.abort.len() == 0 && step.complete.len() == 0
        }),
{
    lemma_rejected(model.actor.retirements, scope);
}

/// A retirement aborts the tasks of its mounts and waits for each of them. It is complete
/// at once exactly where there is none, and otherwise fences its mounts.
pub proof fn law_retirements_begin_with_their_tasks<P>(
    model: LoopModel,
    scopes: Seq<ScopeModel>,
    claim: Seq<ScopeModel>,
    ticket: u64,
)
    requires
        model.phase == LoopPhase::Running,
    ensures
        ({
            let event = EventModel::<P>::Retire { scopes, claim, ticket };
            let step = asked_by(model, event);
            let after = after_event(model, event);
            let idle = forall|i: int|
                0 <= i < model.actor.tasks.len() ==> !scopes.contains(
                    (#[trigger] model.actor.tasks[i]).scope,
                );
            &&& step.action == ActorAction::Wait
            &&& step.latch is None
            &&& step.abort == affected(model.actor.tasks, scopes)
            &&& idle ==> step.complete.len() == 1 && step.complete[0].ticket == ticket
                && step.complete[0].claim == claim && step.abort.len() == 0
            &&& idle ==> after == model
            &&& !idle ==> step.complete.len() == 0 && step.abort.len() > 0
            &&& !idle ==> after.actor.retirements.len() == model.actor.retirements.len() + 1
            &&& !idle ==> after.actor.retirements.drop_last() == model.actor.retirements
            &&& !idle ==> after.actor.retirements.last().ticket == ticket
            &&& !idle ==> after.actor.retirements.last().claim == claim
            &&& !idle ==> after.actor.retirements.last().remaining == step.abort
            &&& after.actor.tasks == model.actor.tasks
            &&& after.actor.queued == model.actor.queued
            &&& after.phase == LoopPhase::Running
            &&& after.next == model.next
        }),
{
    law_retirements_abort_the_tasks_of_their_mounts(model.actor.tasks, scopes);
    let ids = affected(model.actor.tasks, scopes);
    if ids.len() > 0 {
        assert(ids.contains(ids[0]));
        let i = choose|i: int|
            0 <= i < model.actor.tasks.len() && (#[trigger] model.actor.tasks[i]).id == ids[0]
                && scopes.contains(model.actor.tasks[i].scope);
        assert(scopes.contains(model.actor.tasks[i].scope));
        let after = after_event(model, EventModel::<P>::Retire { scopes, claim, ticket });
        assert(after.actor.retirements.drop_last() =~= model.actor.retirements);
    } else {
        assert forall|i: int| 0 <= i < model.actor.tasks.len() implies !scopes.contains(
            (#[trigger] model.actor.tasks[i]).scope,
        ) by {
            if scopes.contains(model.actor.tasks[i].scope) {
                assert(ids.contains(model.actor.tasks[i].id));
            }
        }
    }
}

/// Whether a retirement under way waits for a task.
pub open spec fn is_pending(actor: ActorModel, ticket: u64, claim: Seq<ScopeModel>, id: u64) -> bool {
    &&& exists|i: int|
        0 <= i < actor.retirements.len() && (#[trigger] actor.retirements[i]).ticket == ticket
    &&& forall|i: int|
        0 <= i < actor.retirements.len() && (#[trigger] actor.retirements[i]).ticket == ticket
            ==> actor.retirements[i].claim == claim && actor.retirements[i].remaining.contains(id)
}

proof fn lemma_pending_after(
    retirements: Seq<RetirementModel>,
    ended: u64,
    ticket: u64,
    claim: Seq<ScopeModel>,
    id: u64,
)
    requires
        ended != id,
        forall|i: int|
            0 <= i < retirements.len() && (#[trigger] retirements[i]).ticket == ticket
                ==> retirements[i].claim == claim && retirements[i].remaining.contains(id),
    ensures
        forall|i: int|
            0 <= i < still_waiting(retirements, ended).len() && (#[trigger] still_waiting(
                retirements,
                ended,
            )[i]).ticket == ticket ==> still_waiting(retirements, ended)[i].claim == claim
                && still_waiting(retirements, ended)[i].remaining.contains(id),
        (exists|i: int| 0 <= i < retirements.len() && (#[trigger] retirements[i]).ticket == ticket)
            ==> exists|i: int|
            0 <= i < still_waiting(retirements, ended).len() && (#[trigger] still_waiting(
                retirements,
                ended,
            )[i]).ticket == ticket,
        forall|i: int|
            0 <= i < completed_by(retirements, ended).len() ==> (#[trigger] completed_by(
                retirements,
                ended,
            )[i]).ticket != ticket,
    decreases retirements.len(),
{
    if retirements.len() > 0 {
        let before = retirements.drop_last();
        let last = retirements.last();
        assert forall|i: int|
            0 <= i < before.len() && (#[trigger] before[i]).ticket == ticket implies before[i].claim
            == claim && before[i].remaining.contains(id) by {
            assert(before[i] == retirements[i]);
        }
        assert(retirements[retirements.len() - 1] == last);
        lemma_pending_after(before, ended, ticket, claim, id);
        lemma_waits_on(last, ended);
        let waiting = still_waiting(retirements, ended);
        let waiting_before = still_waiting(before, ended);
        let done = completed_by(retirements, ended);
        let done_before = completed_by(before, ended);
        assert forall|i: int| 0 <= i < done.len() implies (#[trigger] done[i]).ticket != ticket by {
            if i < done_before.len() {
                assert(done[i] == done_before[i]);
            } else {
                assert(!owes_more_than(last, ended));
                if last.ticket == ticket {
                    let k = choose|k: int| 0 <= k < last.remaining.len() && last.remaining[k] == id;
                    assert(last.remaining[k] != ended);
                }
            }
        }
        if last.ticket == ticket {
            assert(last.remaining.contains(id));
            let k = choose|k: int| 0 <= k < last.remaining.len() && last.remaining[k] == id;
            assert(last.remaining[k] != ended);
            assert(owes_more_than(last, ended));
            assert(after_task(last, ended).remaining.contains(id));
            assert(waiting[waiting.len() - 1].ticket == ticket);
        }
        if exists|i: int| 0 <= i < retirements.len() && (#[trigger] retirements[i]).ticket == ticket {
            let i = choose|i: int|
                0 <= i < retirements.len() && (#[trigger] retirements[i]).ticket == ticket;
            if i < before.len() {
                assert(before[i].ticket == ticket);
                let j = choose|j: int|
                    0 <= j < waiting_before.len() && (#[trigger] waiting_before[j]).ticket
                        == ticket;
                assert(waiting[j] == waiting_before[j]);
            }
        }
    }
}

/// Whether an event may come while a task runs that a retirement waits for: it is neither
/// the end of that task nor the word that no task is left, and no retirement is begun
/// under the same ticket.
pub open spec fn may_come_before<P>(event: EventModel<P>, ticket: u64, id: u64) -> bool {
    match event {
        EventModel::Ended { id: ended, panic } => ended != id,
        EventModel::Retire { scopes, claim, ticket: other } => other != ticket,
        EventModel::NoTask => false,
        _ => true,
    }
}

/// The loop after several events.
pub open spec fn after_all<P>(model: LoopModel, events: Seq<EventModel<P>>) -> LoopModel
    decreases events.len(),
{
    if events.len() == 0 {
        model
    } else {
        after_event(after_all(model, events.drop_last()), events.last())
    }
}

/// One event leaves a retirement pending that waits for a task which it does not end,
/// completes no such retirement, and keeps its claim.
pub proof fn law_pending_retirements_stay<P>(
    model: LoopModel,
    event: EventModel<P>,
    ticket: u64,
    claim: Seq<ScopeModel>,
    id: u64,
)
    requires
        is_pending(model.actor, ticket, claim, id),
        may_come_before(event, ticket, id),
    ensures
        is_pending(after_event(model, event).actor, ticket, claim, id),
        forall|i: int|
            0 <= i < asked_by(model, event).complete.len() ==> (#[trigger] asked_by(
                model,
                event,
            ).complete[i]).ticket != ticket,
{
    let was = model.actor.retirements;
    let after = after_event(model, event).actor;
    let at = choose|i: int| 0 <= i < was.len() && (#[trigger] was[i]).ticket == ticket;
    if event is Ended {
        lemma_pending_after(was, event->Ended_id, ticket, claim, id);
        assert(after.retirements == still_waiting(was, event->Ended_id));
        assert(was[at].ticket == ticket);
        assert(is_pending(after, ticket, claim, id));
    } else if event is Retire {
        assert(after.retirements[at] == was[at]);
        assert(is_pending(after, ticket, claim, id));
    } else {
        assert(after.retirements == was);
    }
}

/// From its beginning a retirement waits for every task of its mounts that ran then: as
/// long as one of these has not ended, it is not completed, and it stays pending under its
/// claim, whatever else happens.
pub proof fn law_retirements_outlast_their_tasks<P>(
    model: LoopModel,
    scopes: Seq<ScopeModel>,
    claim: Seq<ScopeModel>,
    ticket: u64,
    at: int,
    events: Seq<EventModel<P>>,
    next: EventModel<P>,
)
    requires
        model.phase == LoopPhase::Running,
        forall|i: int|
            0 <= i < model.actor.retirements.len() ==> (
            #[trigger] model.actor.retirements[i]).ticket != ticket,
        0 <= at < model.actor.tasks.len(),
        scopes.contains(model.actor.tasks[at].scope),
        forall|i: int|
            0 <= i < events.len() ==> may_come_before(
                #[trigger] events[i],
                ticket,
                model.actor.tasks[at].id,
            ),
        may_come_before(next, ticket, model.actor.tasks[at].id),
    ensures
        ({
            let begun = after_event(model, EventModel::<P>::Retire { scopes, claim, ticket });
            let now = after_all(begun, events);
            &&& is_pending(now.actor, ticket, claim, model.actor.tasks[at].id)
            &&& forall|i: int|
                0 <= i < asked_by(now, next).complete.len() ==> (#[trigger] asked_by(
                    now,
                    next,
                ).complete[i]).ticket != ticket
        }),
    decreases events.len(),
{
    let id = model.actor.tasks[at].id;
    let begun = after_event(model, EventModel::<P>::Retire { scopes, claim, ticket });
    if events.len() == 0 {
        law_retirements_begin_with_their_tasks::<P>(model, scopes, claim, ticket);
        law_retirements_abort_the_tasks_of_their_mounts(model.actor.tasks, scopes);
        assert(affected(model.actor.tasks, scopes).contains(id));
        let all = begun.actor.retirements;
        assert(all[all.len() - 1].ticket == ticket);
        assert forall|i: int| 0 <= i < all.len() && (#[trigger] all[i]).ticket == ticket implies all[i].claim
            == claim && all[i].remaining.contains(id) by {
            if i < all.len() - 1 {
                assert(all.drop_last()[i] == all[i]);
                assert(model.actor.retirements[i].ticket != ticket);
            }
        }
    } else {
        let before = events.drop_last();
        assert(may_come_before(events[events.len() - 1], ticket, id));
        law_retirements_outlast_their_tasks(
            model,
            scopes,
            claim,
            ticket,
            at,
            before,
            events.last(),
        );
        law_pending_retirements_stay(after_all(begun, before), events.last(), ticket, claim, id);
    }
    law_pending_retirements_stay(after_all(begun, events), next, ticket, claim, id);
}

/// After the end of a task the mounts of a retirement are fenced exactly where it, or
/// another one that fences them, still waits.
pub proof fn law_fences_fall_with_their_retirements<P>(
    model: LoopModel,
    id: u64,
    panic: Option<P>,
    scope: ScopeModel,
)
    requires
        is_consistent(model.actor),
    ensures
        ({
            let after = after_event(model, EventModel::<P>::Ended { id, panic }).actor;
            &&& after.tasks == without_task(model.actor.tasks, id)
            &&& after.queued == model.actor.queued
            &&& is_rejected(after.claims, scope) <==> exists|i: int|
                0 <= i < after.retirements.len() && fences(#[trigger] after.retirements[i], scope)
        }),
{
    lemma_claims_after_completion(model.actor.retirements, id);
    let after = after_event(model, EventModel::<P>::Ended { id, panic }).actor;
    assert(after.retirements == still_waiting(model.actor.retirements, id));
    assert(after.claims == claims_of(after.retirements));
    lemma_rejected(still_waiting(model.actor.retirements, id), scope);
}

/// How the loop ends. It stops at a shutdown, at a panic, when no command can come and when
/// no task is left. Then it takes what is queued until there is nothing, joins the tasks
/// until there is none, and completes at last what is still waited for and what was
/// queued, in this order.
pub proof fn law_the_loop_ends_in_order<P>(model: LoopModel, panic: Option<P>, id: u64)
    ensures
        model.phase == LoopPhase::Running ==> {
            &&& asked_by(model, EventModel::<P>::Shutdown).action == ActorAction::Stop
            &&& asked_by(model, EventModel::<P>::NoCommand).action == ActorAction::Stop
            &&& asked_by(model, EventModel::<P>::NoTask).action == ActorAction::Stop
            &&& after_event(model, EventModel::<P>::Shutdown).phase == LoopPhase::Draining
            &&& after_event(model, EventModel::<P>::NoCommand).phase == LoopPhase::Draining
            &&& after_event(model, EventModel::<P>::NoTask).phase == LoopPhase::Draining
            &&& after_event(model, EventModel::<P>::Shutdown).actor == model.actor
            &&& panic is None ==> {
                &&& after_event(model, EventModel::Ended { id, panic }).phase == LoopPhase::Running
                &&& asked_by(model, EventModel::Ended { id, panic }).action == ActorAction::Wait
                &&& after_event(model, EventModel::Dropped { panic }) == model
                &&& asked_by(model, EventModel::Dropped { panic }).action == ActorAction::Wait
            }
        },
        model.phase == LoopPhase::Draining ==> {
            &&& after_event(model, EventModel::<P>::NoCommand).phase == LoopPhase::Joining
            &&& asked_by(model, EventModel::<P>::NoCommand).action == ActorAction::Join
            &&& after_event(model, EventModel::<P>::Shutdown) == model
            &&& asked_by(model, EventModel::<P>::Shutdown).action == ActorAction::TakeQueued
            &&& asked_by(model, EventModel::Ended { id, panic }).action == ActorAction::TakeQueued
            &&& after_event(model, EventModel::<P>::NoTask) == model
        },
        model.phase == LoopPhase::Joining ==> {
            &&& asked_by(model, EventModel::Ended { id, panic }).action == ActorAction::Join
            &&& after_event(model, EventModel::Ended { id, panic }).phase == LoopPhase::Joining
            &&& asked_by(model, EventModel::<P>::NoTask).action == ActorAction::Finish
            &&& asked_by(model, EventModel::<P>::NoTask).complete == model.actor.retirements
                + model.actor.queued
            &&& after_event(model, EventModel::<P>::NoTask).phase == LoopPhase::Finished
        },
        asked_by(model, EventModel::Ended { id, panic }).latch == panic,
        asked_by(model, EventModel::Ended { id, panic }).abort.len() == 0,
        asked_by(model, EventModel::Ended { id, panic }).complete == completed_by(
            model.actor.retirements,
            id,
        ),
        asked_by(model, EventModel::Dropped { panic }).latch == panic,
{
}

/// A retirement that comes while the loop ends is kept behind those that came before it,
/// and nothing is aborted or completed for it yet.
pub proof fn law_late_retirements_are_queued<P>(
    model: LoopModel,
    scopes: Seq<ScopeModel>,
    claim: Seq<ScopeModel>,
    ticket: u64,
)
    requires
        model.phase == LoopPhase::Draining || model.phase == LoopPhase::Joining,
    ensures
        ({
            let event = EventModel::<P>::Retire { scopes, claim, ticket };
            let after = after_event(model, event);
            &&& after.actor.queued.len() == model.actor.queued.len() + 1
            &&& after.actor.queued.drop_last() == model.actor.queued
            &&& after.actor.queued.last().ticket == ticket
            &&& after.actor.queued.last().claim == claim
            &&& after.actor.tasks == model.actor.tasks
            &&& after.actor.retirements == model.actor.retirements
            &&& after.actor.claims == model.actor.claims
            &&& after.phase == model.phase
            &&& asked_by(model, event).complete.len() == 0
            &&& asked_by(model, event).abort.len() == 0
        }),
{
    let after = after_event(model, EventModel::<P>::Retire { scopes, claim, ticket });
    assert(after.actor.queued.drop_last() =~= model.actor.queued);
}

/// A supervisor lets a task start exactly where it is healthy, no retirement rejects the
/// mount, and the caller is on the runtime of the actor, or on any where there is no actor
/// yet.
pub proof fn law_healthy_supervisors_start_tasks<P>(
    supervisor: SupervisorModel<P>,
    current: Option<u64>,
    scope: ScopeModel,
)
    ensures
        supervisor.start_fault(current, scope) is None <==> {
            &&& !supervisor.panicked
            &&& supervisor.accepting
            &&& !supervisor.closed
            &&& !is_rejected(supervisor.claims, scope)
            &&& current is Some
            &&& supervisor.actor is None || supervisor.actor == current
        },
        supervisor.actor is Some && current is None ==> supervisor.start_fault(current, scope)
            == Some(MountTaskSupervisorError::RuntimeUnavailable),
        supervisor.actor is Some && current is Some && supervisor.actor != current
            ==> supervisor.start_fault(current, scope) == Some(MountTaskSupervisorError::Closed),
        supervisor.actor is None || supervisor.actor == current ==> {
            &&& supervisor.panicked ==> supervisor.start_fault(current, scope) == Some(
                MountTaskSupervisorError::Panicked,
            )
            &&& !supervisor.panicked && (!supervisor.accepting || supervisor.closed)
                ==> supervisor.start_fault(current, scope) == Some(
                MountTaskSupervisorError::Closed,
            )
            &&& !supervisor.panicked && supervisor.accepting && !supervisor.closed ==> {
                &&& is_rejected(supervisor.claims, scope) ==> supervisor.start_fault(
                    current,
                    scope,
                ) == Some(MountTaskSupervisorError::StaleMount)
                &&& !is_rejected(supervisor.claims, scope) && current is None
                    ==> supervisor.start_fault(current, scope) == Some(
                    MountTaskSupervisorError::RuntimeUnavailable,
                )
            }
        },
{
}

/// A supervisor says how it is: panicked before closed, and healthy where it accepts tasks.
pub proof fn law_status_is_honest<P>(supervisor: SupervisorModel<P>)
    ensures
        supervisor.status() == TaskSupervisorStatus::Panicked <==> supervisor.panicked,
        supervisor.status() == TaskSupervisorStatus::Healthy <==> !supervisor.panicked
            && supervisor.accepting && !supervisor.closed,
        supervisor.refusal() is None <==> supervisor.status() == TaskSupervisorStatus::Healthy,
{
}

/// Shutting down accepts nothing more. Where nobody can complete the retirements that are
/// waited for, all of them are abandoned, in order, and their claims are gone. A panic and
/// its payload stay.
pub proof fn law_shutdowns_abandon_no_waiter_in_silence<P>(
    supervisor: SupervisorModel<P>,
    dropping: bool,
    current: Option<u64>,
)
    ensures
        forall|after: SupervisorModel<P>|
            after == supervisor.shut() || after == supervisor.broken() || (dropping && after
                == supervisor.shutting_down(dropping)) ==> {
                &&& !(#[trigger] after.accepting)
                &&& after.closed
                &&& after.claims.len() == 0
                &&& after.waiting.len() == 0
                &&& after.abandoned == supervisor.abandoned + supervisor.waiting
                &&& after.panicked == supervisor.panicked
                &&& after.payload == supervisor.payload
            },
        supervisor.broken().actor_failed,
        supervisor.shut().actor_failed == supervisor.actor_failed,
        ({
            let after = supervisor.shutting_down(false);
            &&& !after.accepting
            &&& after.closed == (supervisor.closed || supervisor.actor is None)
            &&& after.actor is None
            &&& after.claims == supervisor.claims
            &&& after.waiting == supervisor.waiting
            &&& after.abandoned == supervisor.abandoned
            &&& after.panicked == supervisor.panicked
            &&& after.payload == supervisor.payload
            &&& after.actor_failed == supervisor.actor_failed
        }),
        supervisor.shutting_down(true).actor is None,
        supervisor.seen_from(current) == if supervisor.actor is Some && current is Some
            && supervisor.actor != current {
            supervisor.broken()
        } else {
            supervisor
        },
{
}

/// A panic stops the supervisor and is remembered with what it left behind. The waiters of
/// retirements go on waiting.
pub proof fn law_panics_are_latched<P>(supervisor: SupervisorModel<P>, payload: P)
    ensures
        ({
            let after = supervisor.panicked_with(payload);
            &&& after.panicked
            &&& !supervisor.panicked ==> after.payload == Some(payload) && !after.accepting
            &&& supervisor.panicked ==> after == supervisor
            &&& after.closed == supervisor.closed
            &&& after.actor == supervisor.actor
            &&& after.actor_failed == supervisor.actor_failed
            &&& after.claims == supervisor.claims
            &&& after.waiting == supervisor.waiting
            &&& after.abandoned == supervisor.abandoned
        }),
{
}

/// Completing a retirement lets its waiter go, and nobody else's.
pub proof fn law_completion_is_for_one_ticket(tickets: Seq<u64>, ticket: u64)
    ensures
        without_ticket(tickets, ticket) == tickets.filter(|other: u64| other != ticket),
    decreases tickets.len(),
{
    reveal(Seq::filter);
    if tickets.len() > 0 {
        law_completion_is_for_one_ticket(tickets.drop_last(), ticket);
    }
}

/// The claim of a retirement names every component that it retires a mount of, once, and
/// with the newest of these mounts.
pub proof fn law_claims_name_the_newest_mounts(scopes: Seq<ScopeModel>)
    ensures
        forall|i: int, j: int|
            0 <= i < j < claim_of(scopes).len() ==> (#[trigger] claim_of(scopes)[i]).component != (
            #[trigger] claim_of(scopes)[j]).component,
        forall|i: int|
            0 <= i < claim_of(scopes).len() ==> scopes.contains(#[trigger] claim_of(scopes)[i]),
        forall|at: int|
            0 <= at < scopes.len() ==> exists|i: int|
                0 <= i < claim_of(scopes).len() && (#[trigger] claim_of(scopes)[i]).component == (
                #[trigger] scopes[at]).component && scopes[at].generation <= claim_of(
                    scopes,
                )[i].generation,
    decreases scopes.len(),
{
    if scopes.len() > 0 {
        let before = scopes.drop_last();
        let was = claim_of(before);
        let last = scopes.last();
        let all = claim_of(scopes);
        law_claims_name_the_newest_mounts(before);
        assert(scopes[scopes.len() - 1] == last);
        assert forall|i: int| 0 <= i < was.len() implies scopes.contains(#[trigger] was[i]) by {
            let k = choose|k: int| 0 <= k < before.len() && before[k] == was[i];
            assert(scopes[k] == was[i]);
        }
        if claims_component(was, last.component) {
            let at = choose|at: int|
                0 <= at < was.len() && (#[trigger] was[at]).component == last.component;
            assert forall|i: int| 0 <= i < at implies (#[trigger] was[i]).component
                != last.component by {
                assert(was[i].component != was[at].component);
            }
            lemma_covering_at(was, last, at);
            assert(all[at].component == last.component && last.generation <= all[at].generation);
            assert forall|k: int| 0 <= k < scopes.len() implies exists|i: int|
                0 <= i < all.len() && (#[trigger] all[i]).component == (
                #[trigger] scopes[k]).component && scopes[k].generation <= all[i].generation by {
                if k < before.len() {
                    assert(before[k] == scopes[k]);
                    let i = choose|i: int|
                        0 <= i < was.len() && (#[trigger] was[i]).component == before[k].component
                            && before[k].generation <= was[i].generation;
                    assert(all[i].component == was[i].component && was[i].generation
                        <= all[i].generation);
                }
            }
        } else {
            lemma_covering_new(was, last);
            assert(all[all.len() - 1] == last);
            assert forall|k: int| 0 <= k < scopes.len() implies exists|i: int|
                0 <= i < all.len() && (#[trigger] all[i]).component == (
                #[trigger] scopes[k]).component && scopes[k].generation <= all[i].generation by {
                if k < before.len() {
                    assert(before[k] == scopes[k]);
                    let i = choose|i: int|
                        0 <= i < was.len() && (#[trigger] was[i]).component == before[k].component
                            && before[k].generation <= was[i].generation;
                    assert(all[i] == was[i]);
                }
            }
            assert forall|i: int, j: int| 0 <= i < j < all.len() implies (#[trigger] all[i]).component
                != (#[trigger] all[j]).component by {
                if j == was.len() {
                    assert(all[i] == was[i]);
                } else {
                    assert(was[i].component != was[j].component);
                }
            }
        }
    }
}

} // verus!
