//! The task actor: which tasks run, and which retirements wait for them.

use vstd::multiset::Multiset;
use vstd::prelude::*;
use crate::component::task::{installed, is_rejected, lemma_installed_count};
use crate::component::task::{lemma_released_count, released};
use crate::component::task::{claimed_components, scope_models, ActiveRetirementClaims};
use crate::component::task::MountTaskScope;
use crate::component::task::{RetirementClaim, ScopeModel};

verus! {

/// Model of [`ActorTask`].
pub struct TaskModel {
    pub id: u64,
    pub scope: ScopeModel,
}

/// A running task.
#[derive(Debug)]
pub struct ActorTask {
    pub(crate) id: u64,
    pub(crate) scope: MountTaskScope,
}

impl View for ActorTask {
    type V = TaskModel;

    open(crate) spec fn view(&self) -> TaskModel {
        TaskModel { id: self.id, scope: self.scope@ }
    }
}

/// Model of [`ActorRetirement`].
pub struct RetirementModel {
    pub ticket: u64,
    pub claim: Seq<ScopeModel>,
    pub remaining: Seq<u64>,
}

/// A retirement and the tasks that it waits for.
#[derive(Debug)]
pub struct ActorRetirement {
    pub(crate) ticket: u64,
    pub(crate) claim: RetirementClaim,
    pub(crate) remaining: Vec<u64>,
}

impl View for ActorRetirement {
    type V = RetirementModel;

    open(crate) spec fn view(&self) -> RetirementModel {
        RetirementModel {
            ticket: self.ticket,
            claim: self.claim@,
            remaining: self.remaining@,
        }
    }
}

impl ActorRetirement {
    /// A retirement that waits for nothing.
    pub fn of(claim: RetirementClaim, ticket: u64) -> (retirement: Self)
        ensures
            retirement@ == (RetirementModel { ticket, claim: claim@, remaining: Seq::empty() }),
    {
        Self { ticket, claim, remaining: Vec::new() }
    }

    /// By what the host knows the retirement.
    pub fn ticket(&self) -> (ticket: u64)
        ensures
            ticket == self@.ticket,
    {
        self.ticket
    }

    pub fn claim(&self) -> (claim: &RetirementClaim)
        ensures
            claim@ == self@.claim,
    {
        &self.claim
    }
}

/// The models of several tasks.
pub open spec fn task_models(tasks: Seq<ActorTask>) -> Seq<TaskModel> {
    tasks.map_values(|task: ActorTask| task@)
}

/// The models of several retirements.
pub open spec fn retirement_models(retirements: Seq<ActorRetirement>) -> Seq<RetirementModel> {
    retirements.map_values(|retirement: ActorRetirement| retirement@)
}

/// Whether a task with an id runs.
pub open spec fn runs(tasks: Seq<TaskModel>, id: u64) -> bool {
    exists|i: int| 0 <= i < tasks.len() && (#[trigger] tasks[i]).id == id
}

/// The tasks of retired mounts.
pub open spec fn affected(tasks: Seq<TaskModel>, scopes: Seq<ScopeModel>) -> Seq<u64>
    decreases tasks.len(),
{
    if tasks.len() == 0 {
        Seq::empty()
    } else {
        let before = affected(tasks.drop_last(), scopes);
        if scopes.contains(tasks.last().scope) {
            before.push(tasks.last().id)
        } else {
            before
        }
    }
}

/// Tasks without one.
pub open spec fn without_task(tasks: Seq<TaskModel>, id: u64) -> Seq<TaskModel>
    decreases tasks.len(),
{
    if tasks.len() == 0 {
        Seq::empty()
    } else {
        let before = without_task(tasks.drop_last(), id);
        if tasks.last().id == id {
            before
        } else {
            before.push(tasks.last())
        }
    }
}

/// Ids without one.
pub open spec fn without_id(ids: Seq<u64>, id: u64) -> Seq<u64>
    decreases ids.len(),
{
    if ids.len() == 0 {
        Seq::empty()
    } else {
        let before = without_id(ids.drop_last(), id);
        if ids.last() == id {
            before
        } else {
            before.push(ids.last())
        }
    }
}

/// A retirement once a task has ended.
pub open spec fn after_task(retirement: RetirementModel, id: u64) -> RetirementModel {
    RetirementModel { remaining: without_id(retirement.remaining, id), ..retirement }
}

/// The retirements that still wait for something once a task has ended.
pub open spec fn still_waiting(retirements: Seq<RetirementModel>, id: u64) -> Seq<RetirementModel>
    decreases retirements.len(),
{
    if retirements.len() == 0 {
        Seq::empty()
    } else {
        let before = still_waiting(retirements.drop_last(), id);
        let last = after_task(retirements.last(), id);
        if last.remaining.len() == 0 {
            before
        } else {
            before.push(last)
        }
    }
}

/// The retirements that are complete once a task has ended.
pub open spec fn completed_by(retirements: Seq<RetirementModel>, id: u64) -> Seq<RetirementModel>
    decreases retirements.len(),
{
    if retirements.len() == 0 {
        Seq::empty()
    } else {
        let before = completed_by(retirements.drop_last(), id);
        let last = after_task(retirements.last(), id);
        if last.remaining.len() == 0 {
            before.push(last)
        } else {
            before
        }
    }
}

/// What retirements claim together.
pub open spec fn claims_of(retirements: Seq<RetirementModel>) -> Multiset<ScopeModel>
    decreases retirements.len(),
{
    if retirements.len() == 0 {
        Multiset::empty()
    } else {
        installed(claims_of(retirements.drop_last()), retirements.last().claim)
    }
}

/// Claims without those of retirements.
pub open spec fn released_by(
    claims: Multiset<ScopeModel>,
    retirements: Seq<RetirementModel>,
) -> Multiset<ScopeModel>
    decreases retirements.len(),
{
    if retirements.len() == 0 {
        claims
    } else {
        released(
            released_by(claims, retirements.drop_last()),
            retirements.last().claim,
        )
    }
}

/// Model of [`TaskActor`].
pub struct ActorModel {
    pub tasks: Seq<TaskModel>,
    pub claims: Multiset<ScopeModel>,
    pub retirements: Seq<RetirementModel>,
    pub queued: Seq<RetirementModel>,
}

/// The actor once mounts are being retired: their claim is installed for as long as
/// tasks of theirs run.
pub open spec fn installed_for(
    actor: ActorModel,
    scopes: Seq<ScopeModel>,
    claim: Seq<ScopeModel>,
    ticket: u64,
) -> ActorModel {
    let remaining = affected(actor.tasks, scopes);
    if remaining.len() == 0 {
        actor
    } else {
        ActorModel {
            claims: installed(actor.claims, claim),
            retirements: actor.retirements.push(RetirementModel { ticket, claim, remaining }),
            ..actor
        }
    }
}

/// What holds of the actor at all times: no id runs twice; the claims are those of the
/// retirements under way; and each of these waits for a task that still runs, and for
/// such tasks only.
pub open spec fn is_consistent(actor: ActorModel) -> bool {
    &&& forall|i: int, j: int|
        0 <= i < j < actor.tasks.len() ==> (#[trigger] actor.tasks[i]).id != (
        #[trigger] actor.tasks[j]).id
    &&& actor.claims == claims_of(actor.retirements)
    &&& forall|i: int|
        0 <= i < actor.retirements.len() ==> waits_for_running(
            actor.tasks,
            #[trigger] actor.retirements[i],
        )
}

/// Whether a retirement waits for something, and only for tasks that run.
pub open spec fn waits_for_running(tasks: Seq<TaskModel>, retirement: RetirementModel) -> bool {
    &&& retirement.remaining.len() > 0
    &&& forall|i: int|
        0 <= i < retirement.remaining.len() ==> runs(tasks, #[trigger] retirement.remaining[i])
}

/// Which tasks run, which mounts are being retired, and what their retirements wait
/// for.
#[derive(Debug)]
pub struct TaskActor {
    pub(crate) registry: Vec<ActorTask>,
    pub(crate) claims: ActiveRetirementClaims,
    pub(crate) retirements: Vec<ActorRetirement>,
    pub(crate) queued: Vec<ActorRetirement>,
}

impl View for TaskActor {
    type V = ActorModel;

    open(crate) spec fn view(&self) -> ActorModel {
        ActorModel {
            tasks: task_models(self.registry@),
            claims: self.claims@,
            retirements: retirement_models(self.retirements@),
            queued: retirement_models(self.queued@),
        }
    }
}

proof fn lemma_affected(tasks: Seq<TaskModel>, scopes: Seq<ScopeModel>)
    ensures
        forall|i: int|
            0 <= i < affected(tasks, scopes).len() ==> runs(
                tasks,
                #[trigger] affected(tasks, scopes)[i],
            ),
    decreases tasks.len(),
{
    if tasks.len() > 0 {
        let before = tasks.drop_last();
        lemma_affected(before, scopes);
        let ids = affected(tasks, scopes);
        assert forall|i: int| 0 <= i < ids.len() implies runs(tasks, #[trigger] ids[i]) by {
            if i < affected(before, scopes).len() {
                assert(runs(before, affected(before, scopes)[i]));
                let j = choose|j: int| 0 <= j < before.len() && (#[trigger] before[j]).id == ids[i];
                assert(tasks[j].id == ids[i]);
            } else {
                assert(tasks[tasks.len() - 1].id == ids[i]);
            }
        }
    }
}

pub(crate) proof fn lemma_without_task(tasks: Seq<TaskModel>, id: u64)
    requires
        forall|i: int, j: int|
            0 <= i < j < tasks.len() ==> (#[trigger] tasks[i]).id != (#[trigger] tasks[j]).id,
    ensures
        forall|i: int, j: int|
            0 <= i < j < without_task(tasks, id).len() ==> (#[trigger] without_task(
                tasks,
                id,
            )[i]).id != (#[trigger] without_task(tasks, id)[j]).id,
        forall|other: u64| other != id && runs(tasks, other) ==> #[trigger] runs(
            without_task(tasks, id),
            other,
        ),
        forall|i: int|
            0 <= i < without_task(tasks, id).len() ==> runs(
                tasks,
                (#[trigger] without_task(tasks, id)[i]).id,
            ),
    decreases tasks.len(),
{
    if tasks.len() > 0 {
        let before = tasks.drop_last();
        let rest = without_task(before, id);
        let all = without_task(tasks, id);
        assert forall|i: int, j: int| 0 <= i < j < before.len() implies (#[trigger] before[i]).id
            != (#[trigger] before[j]).id by {
            assert(tasks[i].id != tasks[j].id);
        }
        lemma_without_task(before, id);
        assert forall|i: int| 0 <= i < all.len() implies runs(tasks, (#[trigger] all[i]).id) by {
            if i < rest.len() {
                assert(runs(before, rest[i].id));
                let k = choose|k: int|
                    0 <= k < before.len() && (#[trigger] before[k]).id == rest[i].id;
                assert(tasks[k].id == all[i].id);
            } else {
                assert(tasks[tasks.len() - 1].id == all[i].id);
            }
        }
        assert forall|i: int, j: int| 0 <= i < j < all.len() implies (#[trigger] all[i]).id != (
        #[trigger] all[j]).id by {
            if j >= rest.len() {
                assert(runs(before, rest[i].id));
                let k = choose|k: int|
                    0 <= k < before.len() && (#[trigger] before[k]).id == rest[i].id;
                assert(tasks[k].id != tasks[tasks.len() - 1].id);
            }
        }
        assert forall|other: u64| other != id && runs(tasks, other) implies #[trigger] runs(
            all,
            other,
        ) by {
            let k = choose|k: int| 0 <= k < tasks.len() && (#[trigger] tasks[k]).id == other;
            if k < before.len() {
                assert(before[k].id == other);
                assert(runs(rest, other));
                let m = choose|m: int| 0 <= m < rest.len() && (#[trigger] rest[m]).id == other;
                assert(all[m].id == other);
            } else {
                assert(all[all.len() - 1].id == other);
            }
        }
    }
}

proof fn lemma_without_id(ids: Seq<u64>, id: u64)
    ensures
        forall|i: int|
            0 <= i < without_id(ids, id).len() ==> #[trigger] without_id(ids, id)[i] != id
                && ids.contains(without_id(ids, id)[i]),
    decreases ids.len(),
{
    if ids.len() > 0 {
        let before = ids.drop_last();
        lemma_without_id(before, id);
        let all = without_id(ids, id);
        assert forall|i: int| 0 <= i < all.len() implies #[trigger] all[i] != id && ids.contains(
            all[i],
        ) by {
            if i < without_id(before, id).len() {
                assert(before.contains(without_id(before, id)[i]));
                let k = choose|k: int| 0 <= k < before.len() && before[k] == all[i];
                assert(ids[k] == all[i]);
            } else {
                assert(ids[ids.len() - 1] == all[i]);
            }
        }
    }
}

proof fn lemma_still_waiting(tasks: Seq<TaskModel>, retirements: Seq<RetirementModel>, id: u64)
    requires
        forall|i: int, j: int|
            0 <= i < j < tasks.len() ==> (#[trigger] tasks[i]).id != (#[trigger] tasks[j]).id,
        forall|i: int|
            0 <= i < retirements.len() ==> waits_for_running(tasks, #[trigger] retirements[i]),
    ensures
        forall|i: int|
            0 <= i < still_waiting(retirements, id).len() ==> waits_for_running(
                without_task(tasks, id),
                #[trigger] still_waiting(retirements, id)[i],
            ),
    decreases retirements.len(),
{
    if retirements.len() > 0 {
        let before = retirements.drop_last();
        let last = retirements.last();
        assert(forall|i: int|
            0 <= i < before.len() ==> #[trigger] before[i] == retirements[i]);
        lemma_still_waiting(tasks, before, id);
        lemma_without_task(tasks, id);
        lemma_without_id(last.remaining, id);
        let left = after_task(last, id);
        assert(waits_for_running(tasks, retirements[retirements.len() - 1]));
        assert forall|i: int| 0 <= i < left.remaining.len() implies runs(
            without_task(tasks, id),
            #[trigger] left.remaining[i],
        ) by {
            assert(last.remaining.contains(left.remaining[i]));
            let k = choose|k: int|
                0 <= k < last.remaining.len() && last.remaining[k] == left.remaining[i];
            assert(runs(tasks, last.remaining[k]));
        }
        let earlier = still_waiting(before, id);
        let all = still_waiting(retirements, id);
        assert forall|i: int| 0 <= i < all.len() implies waits_for_running(
            without_task(tasks, id),
            #[trigger] all[i],
        ) by {
            if i < earlier.len() {
                assert(all[i] == earlier[i]);
            } else {
                assert(all[i] == left);
            }
        }
    }
}

proof fn lemma_claims_parted(retirements: Seq<RetirementModel>, id: u64, entry: ScopeModel)
    ensures
        claims_of(retirements).count(entry) == claims_of(still_waiting(retirements, id)).count(
            entry,
        ) + claims_of(completed_by(retirements, id)).count(entry),
    decreases retirements.len(),
{
    if retirements.len() > 0 {
        let before = retirements.drop_last();
        let last = after_task(retirements.last(), id);
        lemma_claims_parted(before, id, entry);
        let waiting = still_waiting(retirements, id);
        let completed = completed_by(retirements, id);
        lemma_installed_count(claims_of(before), last.claim, entry);
        if last.remaining.len() == 0 {
            assert(completed.drop_last() =~= completed_by(before, id));
            lemma_installed_count(claims_of(completed_by(before, id)), last.claim, entry);
        } else {
            assert(waiting.drop_last() =~= still_waiting(before, id));
            lemma_installed_count(claims_of(still_waiting(before, id)), last.claim, entry);
        }
    }
}

proof fn lemma_released_by(
    claims: Multiset<ScopeModel>,
    retirements: Seq<RetirementModel>,
    entry: ScopeModel,
)
    requires
        forall|other: ScopeModel|
            claims_of(retirements).count(other) <= #[trigger] claims.count(other),
    ensures
        released_by(claims, retirements).count(entry) == claims.count(entry) - claims_of(
            retirements,
        ).count(entry),
    decreases retirements.len(),
{
    if retirements.len() > 0 {
        let before = retirements.drop_last();
        let claim = retirements.last().claim;
        assert forall|other: ScopeModel| claims_of(before).count(other) <= #[trigger] claims.count(
            other,
        ) by {
            lemma_installed_count(claims_of(before), claim, other);
            assert(claims_of(retirements).count(other) <= claims.count(other));
        }
        let left = released_by(claims, before);
        assert forall|other: ScopeModel| claim.to_multiset().count(other) <= #[trigger] left.count(
            other,
        ) by {
            lemma_released_by(claims, before, other);
            lemma_installed_count(claims_of(before), claim, other);
            assert(claims_of(retirements).count(other) <= claims.count(other));
        }
        lemma_released_by(claims, before, entry);
        lemma_released_count(left, claim, entry);
        lemma_installed_count(claims_of(before), claim, entry);
    }
}

pub(crate) proof fn lemma_claims_after_completion(retirements: Seq<RetirementModel>, id: u64)
    ensures
        released_by(claims_of(retirements), completed_by(retirements, id)) == claims_of(
            still_waiting(retirements, id),
        ),
{
    let claims = claims_of(retirements);
    let completed = completed_by(retirements, id);
    let waiting = claims_of(still_waiting(retirements, id));
    assert forall|other: ScopeModel| claims_of(completed).count(other) <= #[trigger] claims.count(
        other,
    ) by {
        lemma_claims_parted(retirements, id, other);
    }
    assert forall|entry: ScopeModel| #[trigger] released_by(claims, completed).count(entry)
        == waiting.count(entry) by {
        lemma_claims_parted(retirements, id, entry);
        lemma_released_by(claims, completed, entry);
    }
    assert(released_by(claims, completed) =~= waiting);
}

fn scope_among(scopes: &Vec<MountTaskScope>, scope: &MountTaskScope) -> (found: bool)
    ensures
        found == scope_models(scopes@).contains(scope@),
{
    let ghost models = scope_models(scopes@);
    let count: usize = scopes.len();
    for i in 0..count
        invariant
            count == scopes@.len(),
            models == scope_models(scopes@),
            forall|j: int| 0 <= j < i ==> #[trigger] models[j] != scope@,
    {
        assert(models[i as int] == scopes@[i as int]@);
        if scopes[i] == *scope {
            assert(models[i as int] == scope@);
            return true;
        }
    }
    false
}

fn remaining_without(ids: &Vec<u64>, id: u64) -> (left: Vec<u64>)
    ensures
        left@ == without_id(ids@, id),
{
    let mut left: Vec<u64> = Vec::new();
    let count: usize = ids.len();
    assert(ids@.take(0) =~= Seq::empty());
    for i in 0..count
        invariant
            count == ids@.len(),
            left@ == without_id(ids@.take(i as int), id),
    {
        assert(ids@.take(i as int + 1).drop_last() =~= ids@.take(i as int));
        if ids[i] != id {
            left.push(ids[i]);
        }
    }
    assert(ids@.take(ids@.len() as int) =~= ids@);
    left
}

/// What a retirement asks for.
#[derive(Debug)]
pub struct RetireOutcome {
    /// The tasks to abort.
    pub abort: Vec<u64>,
    /// Whether there was nothing to wait for.
    pub completed: bool,
}

impl TaskActor {
    #[verifier::type_invariant]
    pub(crate) open(crate) spec fn inv(self) -> bool {
        is_consistent(self@)
    }

    /// Nothing runs.
    pub fn new() -> (actor: Self)
        ensures
            actor@ == (ActorModel {
                tasks: Seq::empty(),
                claims: Multiset::empty(),
                retirements: Seq::empty(),
                queued: Seq::empty(),
            }),
    {
        let registry: Vec<ActorTask> = Vec::new();
        let retirements: Vec<ActorRetirement> = Vec::new();
        let queued: Vec<ActorRetirement> = Vec::new();
        assert(task_models(registry@) =~= Seq::empty());
        assert(retirement_models(retirements@) =~= Seq::empty());
        Self { registry, claims: ActiveRetirementClaims::new(), retirements, queued }
    }

    /// What holds at all times.
    pub fn assure(&self)
        ensures
            is_consistent(self@),
    {
        proof {
            use_type_invariant(self);
        }
    }

    pub fn live_tasks(&self) -> (count: usize)
        ensures
            count == self@.tasks.len(),
    {
        self.registry.len()
    }

    pub fn pending_retirements(&self) -> (count: usize)
        ensures
            count == self@.retirements.len(),
    {
        self.retirements.len()
    }

    /// How many components have mounts that are being retired.
    pub fn retiring_components(&self) -> (count: usize)
        ensures
            claimed_components(self@.claims).finite(),
            count == claimed_components(self@.claims).len(),
    {
        self.claims.component_count()
    }

    /// Whether a task of a mount may start.
    pub fn admits(&self, scope: &MountTaskScope) -> (admitted: bool)
        ensures
            admitted == !is_rejected(self@.claims, scope@),
    {
        !self.claims.rejects(scope)
    }

    /// Takes in a task that was started.
    pub fn started(&mut self, id: u64, scope: MountTaskScope)
        requires
            !runs(old(self)@.tasks, id),
        ensures
            final(self)@ == (ActorModel {
                tasks: old(self)@.tasks.push(TaskModel { id, scope: scope@ }),
                ..old(self)@
            }),
    {
        proof {
            use_type_invariant(&*self);
        }
        let ghost before = self@;
        let mut registry: Vec<ActorTask> = Vec::new();
        let mut claims = ActiveRetirementClaims::new();
        let mut retirements: Vec<ActorRetirement> = Vec::new();
        let mut queued: Vec<ActorRetirement> = Vec::new();
        self.take_out(&mut registry, &mut claims, &mut retirements, &mut queued);
        let task = ActorTask { id, scope };
        let ghost added = task@;
        registry.push(task);
        proof {
            let tasks = task_models(registry@);
            assert(tasks =~= before.tasks.push(added));
            assert forall|i: int, j: int| 0 <= i < j < tasks.len() implies (#[trigger] tasks[i]).id
                != (#[trigger] tasks[j]).id by {
                if j < before.tasks.len() {
                    assert(before.tasks[i].id != before.tasks[j].id);
                } else {
                    assert(tasks[i] == before.tasks[i]);
                }
            }
            assert forall|i: int| 0 <= i < before.retirements.len() implies waits_for_running(
                tasks,
                #[trigger] before.retirements[i],
            ) by {
                lemma_more_tasks(before.tasks, added, before.retirements[i]);
            }
        }
        *self = TaskActor { registry, claims, retirements, queued };
    }

    fn take_out(
        &mut self,
        registry: &mut Vec<ActorTask>,
        claims: &mut ActiveRetirementClaims,
        retirements: &mut Vec<ActorRetirement>,
        queued: &mut Vec<ActorRetirement>,
    )
        ensures
            task_models(final(registry)@) == old(self)@.tasks,
            final(claims)@ == old(self)@.claims,
            retirement_models(final(retirements)@) == old(self)@.retirements,
            retirement_models(final(queued)@) == old(self)@.queued,
    {
        let mut taken = TaskActor::new();
        std::mem::swap(&mut taken, self);
        let TaskActor { registry: r, claims: c, retirements: s, queued: q } = taken;
        *registry = r;
        *claims = c;
        *retirements = s;
        *queued = q;
    }

    /// Begins a retirement: the mounts can start nothing from here on, and the tasks
    /// that they have are to be aborted. Where there are none, it is complete at once.
    pub fn retire(
        &mut self,
        scopes: &Vec<MountTaskScope>,
        claim: &RetirementClaim,
        ticket: u64,
    ) -> (outcome: RetireOutcome)
        ensures
            outcome.abort@ == affected(old(self)@.tasks, scope_models(scopes@)),
            outcome.completed == (outcome.abort@.len() == 0),
            final(self)@ == installed_for(old(self)@, scope_models(scopes@), claim@, ticket),
    {
        proof {
            use_type_invariant(&*self);
        }
        let ghost before = self@;
        let ghost models = task_models(self.registry@);
        let ghost wanted = scope_models(scopes@);
        let mut remaining: Vec<u64> = Vec::new();
        let mut abort: Vec<u64> = Vec::new();
        let count: usize = self.registry.len();
        assert(models.take(0) =~= Seq::empty());
        for i in 0..count
            invariant
                count == self.registry@.len(),
                models == task_models(self.registry@),
                wanted == scope_models(scopes@),
                *self == *old(self),
                remaining@ == affected(models.take(i as int), wanted),
                abort@ == remaining@,
        {
            proof {
                assert(models[i as int] == self.registry@[i as int]@);
                assert(models.take(i as int + 1).drop_last() =~= models.take(i as int));
                assert(models.take(i as int + 1).last() == models[i as int]);
            }
            if scope_among(scopes, &self.registry[i].scope) {
                remaining.push(self.registry[i].id);
                abort.push(self.registry[i].id);
            }
        }
        assert(models.take(models.len() as int) =~= models);
        if remaining.len() == 0 {
            return RetireOutcome { abort, completed: true };
        }
        let mut registry: Vec<ActorTask> = Vec::new();
        let mut claims = ActiveRetirementClaims::new();
        let mut retirements: Vec<ActorRetirement> = Vec::new();
        let mut queued: Vec<ActorRetirement> = Vec::new();
        self.take_out(&mut registry, &mut claims, &mut retirements, &mut queued);
        claims.install(claim);
        let retirement = ActorRetirement { ticket, claim: claim.clone(), remaining };
        let ghost added = retirement@;
        retirements.push(retirement);
        proof {
            let all = retirement_models(retirements@);
            assert(all =~= before.retirements.push(added));
            assert(all.drop_last() =~= before.retirements);
            lemma_affected(before.tasks, wanted);
            assert forall|i: int| 0 <= i < all.len() implies waits_for_running(
                before.tasks,
                #[trigger] all[i],
            ) by {
                if i < before.retirements.len() {
                    assert(all[i] == before.retirements[i]);
                }
            }
        }
        *self = TaskActor { registry, claims, retirements, queued };
        RetireOutcome { abort, completed: false }
    }

    /// Takes the end of a task, however it ended. The retirements that waited for
    /// nothing else are complete: they are handed out, and their claims are released.
    pub fn finished(&mut self, id: u64) -> (completed: Vec<ActorRetirement>)
        ensures
            retirement_models(completed@) == completed_by(old(self)@.retirements, id),
            final(self)@ == (ActorModel {
                tasks: without_task(old(self)@.tasks, id),
                claims: released_by(
                    old(self)@.claims,
                    completed_by(old(self)@.retirements, id),
                ),
                retirements: still_waiting(old(self)@.retirements, id),
                ..old(self)@
            }),
    {
        proof {
            use_type_invariant(&*self);
        }
        let ghost before = self@;
        let mut registry: Vec<ActorTask> = Vec::new();
        let mut claims = ActiveRetirementClaims::new();
        let mut retirements: Vec<ActorRetirement> = Vec::new();
        let mut queued: Vec<ActorRetirement> = Vec::new();
        self.take_out(&mut registry, &mut claims, &mut retirements, &mut queued);
        let left = tasks_without(registry, id);
        let (waiting, completed) = part_retirements(retirements, id);
        let ghost done = retirement_models(completed@);
        let count: usize = completed.len();
        assert(done.take(0) =~= Seq::empty());
        for i in 0..count
            invariant
                count == completed@.len(),
                done == retirement_models(completed@),
                claims@ == released_by(before.claims, done.take(i as int)),
        {
            proof {
                assert(done[i as int] == completed@[i as int]@);
                assert(done.take(i as int + 1).drop_last() =~= done.take(i as int));
                assert(done.take(i as int + 1).last() == done[i as int]);
            }
            claims.release(&completed[i].claim);
        }
        proof {
            assert(done.take(done.len() as int) =~= done);
            lemma_without_task(before.tasks, id);
            lemma_still_waiting(before.tasks, before.retirements, id);
            lemma_claims_after_completion(before.retirements, id);
        }
        *self = TaskActor { registry: left, claims, retirements: waiting, queued };
        completed
    }

    /// Keeps a retirement that came while everything was being shut down.
    pub fn queue(&mut self, claim: RetirementClaim, ticket: u64)
        ensures
            final(self)@ == (ActorModel {
                queued: old(self)@.queued.push(
                    RetirementModel { ticket, claim: claim@, remaining: Seq::empty() },
                ),
                ..old(self)@
            }),
    {
        proof {
            use_type_invariant(&*self);
        }
        let ghost before = self@;
        let mut registry: Vec<ActorTask> = Vec::new();
        let mut claims = ActiveRetirementClaims::new();
        let mut retirements: Vec<ActorRetirement> = Vec::new();
        let mut queued: Vec<ActorRetirement> = Vec::new();
        self.take_out(&mut registry, &mut claims, &mut retirements, &mut queued);
        let retirement = ActorRetirement { ticket, claim, remaining: Vec::new() };
        let ghost added = retirement@;
        queued.push(retirement);
        assert(retirement_models(queued@) =~= before.queued.push(added));
        *self = TaskActor { registry, claims, retirements, queued };
    }

    /// What is left to complete when all ends: what is still waited for, which is
    /// nothing once no task runs, and then what came during the shutdown.
    pub fn drained(self) -> (left: Vec<ActorRetirement>)
        ensures
            retirement_models(left@) == self@.retirements + self@.queued,
            self@.tasks.len() == 0 ==> self@.retirements.len() == 0 && self@.claims
                == Multiset::<ScopeModel>::empty(),
    {
        proof {
            use_type_invariant(&self);
            if self@.tasks.len() == 0 {
                law_idle_actors_owe_nothing(self@);
            }
        }
        let ghost models = self@;
        let mut left = self.retirements;
        let mut queued = self.queued;
        left.append(&mut queued);
        assert(retirement_models(left@) =~= models.retirements + models.queued);
        left
    }
}

/// An actor whose tasks have all ended waits for nothing and claims nothing.
pub proof fn law_idle_actors_owe_nothing(actor: ActorModel)
    requires
        is_consistent(actor),
        actor.tasks.len() == 0,
    ensures
        actor.retirements.len() == 0,
        actor.claims == Multiset::<ScopeModel>::empty(),
{
    if actor.retirements.len() > 0 {
        let first = actor.retirements[0];
        assert(waits_for_running(actor.tasks, first));
        assert(runs(actor.tasks, first.remaining[0]));
    }
}

/// A mount keeps others of its component from starting tasks only while its retirement
/// is under way: without retirements, every mount may start tasks.
pub proof fn law_nothing_is_rejected_without_retirements(actor: ActorModel, scope: ScopeModel)
    requires
        is_consistent(actor),
        actor.retirements.len() == 0,
    ensures
        !is_rejected(actor.claims, scope),
{
}

proof fn lemma_more_tasks(tasks: Seq<TaskModel>, task: TaskModel, retirement: RetirementModel)
    requires
        waits_for_running(tasks, retirement),
    ensures
        waits_for_running(tasks.push(task), retirement),
{
    assert forall|i: int| 0 <= i < retirement.remaining.len() implies runs(
        tasks.push(task),
        #[trigger] retirement.remaining[i],
    ) by {
        assert(runs(tasks, retirement.remaining[i]));
        let j = choose|j: int|
            0 <= j < tasks.len() && (#[trigger] tasks[j]).id == retirement.remaining[i];
        assert(tasks.push(task)[j].id == retirement.remaining[i]);
    }
}

fn tasks_without(tasks: Vec<ActorTask>, id: u64) -> (left: Vec<ActorTask>)
    ensures
        task_models(left@) == without_task(task_models(tasks@), id),
{
    let ghost all = tasks@;
    let ghost models = task_models(tasks@);
    let mut left: Vec<ActorTask> = Vec::new();
    assert(models.take(0) =~= Seq::empty());
    assert(task_models(left@) =~= Seq::empty());
    for task in iter: tasks
        invariant
            iter.seq() == all,
            models == task_models(all),
            models == task_models(tasks@),
            task_models(left@) == without_task(models.take(iter.index() as int), id),
    {
        let ghost at = iter.index() as int;
        let ghost before = task_models(left@);
        proof {
            assert(models[at] == task@);
            assert(models.take(at + 1).drop_last() =~= models.take(at));
            assert(models.take(at + 1).last() == task@);
        }
        if task.id != id {
            let ghost added = task@;
            left.push(task);
            assert(task_models(left@) =~= before.push(added));
        }
    }
    assert(models.take(models.len() as int) =~= models);
    left
}

fn part_retirements(retirements: Vec<ActorRetirement>, id: u64) -> (parts: (
    Vec<ActorRetirement>,
    Vec<ActorRetirement>,
))
    ensures
        retirement_models(parts.0@) == still_waiting(retirement_models(retirements@), id),
        retirement_models(parts.1@) == completed_by(retirement_models(retirements@), id),
{
    let ghost all = retirements@;
    let ghost models = retirement_models(retirements@);
    let mut waiting: Vec<ActorRetirement> = Vec::new();
    let mut completed: Vec<ActorRetirement> = Vec::new();
    assert(models.take(0) =~= Seq::empty());
    assert(retirement_models(waiting@) =~= Seq::empty());
    for retirement in iter: retirements
        invariant
            iter.seq() == all,
            models == retirement_models(all),
            models == retirement_models(retirements@),
            retirement_models(waiting@) == still_waiting(models.take(iter.index() as int), id),
            retirement_models(completed@) == completed_by(models.take(iter.index() as int), id),
    {
        let ghost at = iter.index() as int;
        let ghost waiting_before = retirement_models(waiting@);
        let ghost completed_before = retirement_models(completed@);
        proof {
            assert(models[at] == retirement@);
            assert(models.take(at + 1).drop_last() =~= models.take(at));
            assert(models.take(at + 1).last() == retirement@);
        }
        let remaining = remaining_without(&retirement.remaining, id);
        let next = ActorRetirement {
            ticket: retirement.ticket,
            claim: retirement.claim,
            remaining,
        };
        let ghost model = next@;
        if next.remaining.len() == 0 {
            completed.push(next);
            assert(retirement_models(completed@) =~= completed_before.push(model));
        } else {
            waiting.push(next);
            assert(retirement_models(waiting@) =~= waiting_before.push(model));
        }
    }
    assert(models.take(models.len() as int) =~= models);
    (waiting, completed)
}

} // verus!
