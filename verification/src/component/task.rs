//! Component tasks: who may run, what a retirement waits for, and when all is over.
//!
//! A task belongs to one mount of a component. Retiring mounts stops their tasks and
//! keeps late ones from starting until the retirement is complete.

use vstd::multiset::Multiset;
use vstd::prelude::*;
use vstd::seq_lib::group_to_multiset_ensures;
use crate::component::identity::ComponentId;

verus! {

/// Model of [`MountTaskScope`], and of what a retirement claims.
pub struct ScopeModel {
    pub component: Seq<char>,
    pub generation: u64,
}

/// One mount of a component.
#[derive(Debug)]
pub struct MountTaskScope {
    pub(crate) component: ComponentId,
    pub(crate) generation: u64,
}

impl View for MountTaskScope {
    type V = ScopeModel;

    open(crate) spec fn view(&self) -> ScopeModel {
        ScopeModel { component: self.component@, generation: self.generation }
    }
}

impl MountTaskScope {
    pub fn new(component: ComponentId, generation: u64) -> (scope: Self)
        ensures
            scope@ == (ScopeModel { component: component@, generation }),
    {
        Self { component, generation }
    }

    pub fn component(&self) -> (value: &ComponentId)
        ensures
            value@ == self@.component,
    {
        &self.component
    }

    pub fn generation(&self) -> (value: u64)
        ensures
            value == self@.generation,
    {
        self.generation
    }
}

impl Clone for MountTaskScope {
    fn clone(&self) -> (copy: Self)
        ensures
            copy@ == self@,
    {
        Self { component: self.component.clone(), generation: self.generation }
    }
}

impl PartialEq for MountTaskScope {
    fn eq(&self, other: &Self) -> (equal: bool) {
        self.component == other.component && self.generation == other.generation
    }
}

impl Eq for MountTaskScope {

}

impl vstd::std_specs::cmp::PartialEqSpecImpl for MountTaskScope {
    open spec fn obeys_eq_spec() -> bool {
        true
    }

    open spec fn eq_spec(&self, other: &Self) -> bool {
        self@ == other@
    }
}

/// The models of several scopes.
pub open spec fn scope_models(scopes: Seq<MountTaskScope>) -> Seq<ScopeModel> {
    scopes.map_values(|scope: MountTaskScope| scope@)
}

/// What a retirement claims: for each component the newest mount that it retires.
#[derive(Debug)]
pub struct RetirementClaim {
    pub(crate) entries: Vec<MountTaskScope>,
}

impl View for RetirementClaim {
    type V = Seq<ScopeModel>;

    open(crate) spec fn view(&self) -> Seq<ScopeModel> {
        scope_models(self.entries@)
    }
}

/// Whether a claim has an entry for a component.
pub open spec fn claims_component(claim: Seq<ScopeModel>, component: Seq<char>) -> bool {
    exists|i: int| 0 <= i < claim.len() && (#[trigger] claim[i]).component == component
}

/// A claim that also covers a scope. Of two mounts of a component the newer one counts.
pub open spec fn covering(claim: Seq<ScopeModel>, scope: ScopeModel) -> Seq<ScopeModel>
    decreases claim.len(),
{
    if claim.len() == 0 {
        seq![scope]
    } else if claim[0].component == scope.component {
        let newest = if claim[0].generation < scope.generation {
            scope
        } else {
            claim[0]
        };
        seq![newest] + claim.drop_first()
    } else {
        seq![claim[0]] + covering(claim.drop_first(), scope)
    }
}

/// The claim of a retirement of scopes.
pub open spec fn claim_of(scopes: Seq<ScopeModel>) -> Seq<ScopeModel>
    decreases scopes.len(),
{
    if scopes.len() == 0 {
        Seq::empty()
    } else {
        covering(claim_of(scopes.drop_last()), scopes.last())
    }
}

pub(crate) proof fn lemma_covering_at(claim: Seq<ScopeModel>, scope: ScopeModel, at: int)
    requires
        0 <= at < claim.len(),
        claim[at].component == scope.component,
        forall|i: int| 0 <= i < at ==> (#[trigger] claim[i]).component != scope.component,
    ensures
        covering(claim, scope) == claim.update(
            at,
            if claim[at].generation < scope.generation {
                scope
            } else {
                claim[at]
            },
        ),
    decreases claim.len(),
{
    if at > 0 {
        let rest = claim.drop_first();
        assert(claim[0].component != scope.component);
        assert forall|i: int| 0 <= i < at - 1 implies (#[trigger] rest[i]).component
            != scope.component by {
            assert(rest[i] == claim[i + 1]);
        }
        lemma_covering_at(rest, scope, at - 1);
    }
    assert(covering(claim, scope) =~= claim.update(
        at,
        if claim[at].generation < scope.generation {
            scope
        } else {
            claim[at]
        },
    ));
}

pub(crate) proof fn lemma_covering_new(claim: Seq<ScopeModel>, scope: ScopeModel)
    requires
        !claims_component(claim, scope.component),
    ensures
        covering(claim, scope) == claim.push(scope),
    decreases claim.len(),
{
    if claim.len() > 0 {
        let rest = claim.drop_first();
        assert(claim[0].component != scope.component);
        assert forall|i: int| 0 <= i < rest.len() implies (#[trigger] rest[i]).component
            != scope.component by {
            assert(rest[i] == claim[i + 1]);
        }
        lemma_covering_new(rest, scope);
    }
    assert(covering(claim, scope) =~= claim.push(scope));
}

/// The claim of a retirement.
pub fn retirement_claim(scopes: &Vec<MountTaskScope>) -> (claim: RetirementClaim)
    ensures
        claim@ == claim_of(scope_models(scopes@)),
{
    let ghost models = scope_models(scopes@);
    let mut entries: Vec<MountTaskScope> = Vec::new();
    let count: usize = scopes.len();
    assert(models.take(0) =~= Seq::empty());
    assert(scope_models(entries@) =~= Seq::empty());
    for i in 0..count
        invariant
            count == scopes@.len(),
            models == scope_models(scopes@),
            scope_models(entries@) == claim_of(models.take(i as int)),
    {
        let scope = &scopes[i];
        let ghost before = scope_models(entries@);
        let mut at: usize = 0;
        while at < entries.len() && entries[at].component != scope.component
            invariant
                at <= entries@.len(),
                before == scope_models(entries@),
                forall|j: int| 0 <= j < at ==> (#[trigger] before[j]).component != scope@.component,
            decreases entries@.len() - at,
        {
            assert(before[at as int] == entries@[at as int]@);
            at += 1;
        }
        proof {
            assert(models[i as int] == scope@);
            assert(models.take(i as int + 1).drop_last() =~= models.take(i as int));
            assert(models.take(i as int + 1).last() == scope@);
        }
        if at < entries.len() {
            proof {
                assert(before[at as int] == entries@[at as int]@);
                lemma_covering_at(before, scope@, at as int);
            }
            if entries[at].generation < scope.generation {
                entries.set(at, scope.clone());
                assert(scope_models(entries@) =~= before.update(at as int, scope@));
            } else {
                assert(before.update(at as int, before[at as int]) =~= before);
            }
        } else {
            proof {
                lemma_covering_new(before, scope@);
            }
            entries.push(scope.clone());
            assert(scope_models(entries@) =~= before.push(scope@));
        }
    }
    assert(models.take(models.len() as int) =~= models);
    RetirementClaim { entries }
}

impl Clone for RetirementClaim {
    fn clone(&self) -> (copy: Self)
        ensures
            copy@ == self@,
    {
        let mut entries: Vec<MountTaskScope> = Vec::new();
        let count: usize = self.entries.len();
        for i in 0..count
            invariant
                count == self.entries@.len(),
                entries@.len() == i,
                forall|j: int| 0 <= j < i ==> (#[trigger] entries@[j])@ == self.entries@[j]@,
        {
            entries.push(self.entries[i].clone());
        }
        assert(scope_models(entries@) =~= self@);
        Self { entries }
    }
}

/// Claims with more installed.
pub open spec fn installed(claims: Multiset<ScopeModel>, claim: Seq<ScopeModel>) -> Multiset<
    ScopeModel,
>
    decreases claim.len(),
{
    if claim.len() == 0 {
        claims
    } else {
        installed(claims, claim.drop_last()).insert(claim.last())
    }
}

/// Claims with one released, if it is there.
pub open spec fn released_one(claims: Multiset<ScopeModel>, entry: ScopeModel) -> Multiset<
    ScopeModel,
> {
    if claims.count(entry) > 0 {
        claims.remove(entry)
    } else {
        claims
    }
}

/// Claims with some released.
pub open spec fn released(claims: Multiset<ScopeModel>, claim: Seq<ScopeModel>) -> Multiset<
    ScopeModel,
>
    decreases claim.len(),
{
    if claim.len() == 0 {
        claims
    } else {
        released_one(released(claims, claim.drop_last()), claim.last())
    }
}

/// Whether claims keep a mount from starting tasks: a claim on its component is for
/// this mount or a newer one.
pub open spec fn is_rejected(claims: Multiset<ScopeModel>, scope: ScopeModel) -> bool {
    exists|claimed: ScopeModel| #[trigger]
        claims.count(claimed) > 0 && claimed.component == scope.component && scope.generation
            <= claimed.generation
}

/// The components that claims are about.
pub open spec fn claimed_components(claims: Multiset<ScopeModel>) -> Set<Seq<char>> {
    Set::new(
        |component: Seq<char>|
            exists|claimed: ScopeModel| #[trigger]
                claims.count(claimed) > 0 && claimed.component == component,
    )
}

/// The claims of retirements that are not complete.
#[derive(Debug)]
pub struct ActiveRetirementClaims {
    pub(crate) entries: Vec<MountTaskScope>,
}

impl View for ActiveRetirementClaims {
    type V = Multiset<ScopeModel>;

    open(crate) spec fn view(&self) -> Multiset<ScopeModel> {
        scope_models(self.entries@).to_multiset()
    }
}

impl ActiveRetirementClaims {
    pub fn new() -> (claims: Self)
        ensures
            claims@ == Multiset::<ScopeModel>::empty(),
    {
        broadcast use group_to_multiset_ensures;

        let claims = Self { entries: Vec::new() };
        assert(scope_models(claims.entries@) =~= Seq::empty());
        assert(claims@ =~= Multiset::<ScopeModel>::empty());
        claims
    }

    /// Installs the claim of a retirement.
    pub fn install(&mut self, claim: &RetirementClaim)
        ensures
            final(self)@ == installed(old(self)@, claim@),
    {
        let ghost before = self@;
        let ghost models = claim@;
        let count: usize = claim.entries.len();
        assert(models.take(0) =~= Seq::empty());
        for i in 0..count
            invariant
                count == claim.entries@.len(),
                models == scope_models(claim.entries@),
                self@ == installed(before, models.take(i as int)),
        {
            broadcast use group_to_multiset_ensures;

            let ghost so_far = scope_models(self.entries@);
            let entry = claim.entries[i].clone();
            let ghost added = entry@;
            self.entries.push(entry);
            proof {
                assert(models[i as int] == added);
                assert(scope_models(self.entries@) =~= so_far.push(added));
                assert(models.take(i as int + 1).drop_last() =~= models.take(i as int));
                assert(models.take(i as int + 1).last() == added);
            }
        }
        assert(models.take(models.len() as int) =~= models);
    }

    fn release_one(&mut self, entry: &MountTaskScope)
        ensures
            final(self)@ == released_one(old(self)@, entry@),
    {
        broadcast use group_to_multiset_ensures;

        let ghost before = scope_models(self.entries@);
        let count: usize = self.entries.len();
        for i in 0..count
            invariant
                count == self.entries@.len(),
                before == scope_models(self.entries@),
                before == scope_models(old(self).entries@),
                forall|j: int| 0 <= j < i ==> #[trigger] before[j] != entry@,
        {
            broadcast use group_to_multiset_ensures;

            assert(before[i as int] == self.entries@[i as int]@);
            if self.entries[i] == *entry {
                let removed = self.entries.remove(i);
                assert(scope_models(self.entries@) =~= before.remove(i as int));
                assert(before.contains(entry@));
                return ;
            }
        }
        assert(!before.contains(entry@));
    }

    /// Releases the claim of a retirement.
    pub fn release(&mut self, claim: &RetirementClaim)
        ensures
            final(self)@ == released(old(self)@, claim@),
    {
        let ghost before = self@;
        let ghost models = claim@;
        let count: usize = claim.entries.len();
        assert(models.take(0) =~= Seq::empty());
        for i in 0..count
            invariant
                count == claim.entries@.len(),
                models == scope_models(claim.entries@),
                self@ == released(before, models.take(i as int)),
        {
            proof {
                assert(models[i as int] == claim.entries@[i as int]@);
                assert(models.take(i as int + 1).drop_last() =~= models.take(i as int));
                assert(models.take(i as int + 1).last() == models[i as int]);
            }
            self.release_one(&claim.entries[i]);
        }
        assert(models.take(models.len() as int) =~= models);
    }

    /// Whether a mount is kept from starting tasks.
    pub fn rejects(&self, scope: &MountTaskScope) -> (rejected: bool)
        ensures
            rejected == is_rejected(self@, scope@),
    {
        broadcast use group_to_multiset_ensures;

        let ghost models = scope_models(self.entries@);
        let count: usize = self.entries.len();
        for i in 0..count
            invariant
                count == self.entries@.len(),
                models == scope_models(self.entries@),
                forall|j: int|
                    0 <= j < i ==> !((#[trigger] models[j]).component == scope@.component
                        && scope@.generation <= models[j].generation),
        {
            broadcast use group_to_multiset_ensures;

            assert(models[i as int] == self.entries@[i as int]@);
            if self.entries[i].component == scope.component && scope.generation
                <= self.entries[i].generation {
                assert(models.contains(models[i as int]));
                assert(self@.count(models[i as int]) > 0);
                return true;
            }
        }
        proof {
            if is_rejected(self@, scope@) {
                let claimed = choose|claimed: ScopeModel| #[trigger]
                    self@.count(claimed) > 0 && claimed.component == scope@.component
                        && scope@.generation <= claimed.generation;
                assert(models.contains(claimed));
            }
        }
        false
    }

    /// How many components have claims on them.
    pub fn component_count(&self) -> (count: usize)
        ensures
            claimed_components(self@).finite(),
            count == claimed_components(self@).len(),
    {
        broadcast use group_to_multiset_ensures;

        let ghost models = scope_models(self.entries@);
        let ghost mut seen: Set<Seq<char>> = Set::empty();
        let mut components: usize = 0;
        let count: usize = self.entries.len();
        for i in 0..count
            invariant
                count == self.entries@.len(),
                models == scope_models(self.entries@),
                components <= i,
                seen.finite(),
                components == seen.len(),
                forall|j: int| 0 <= j < i ==> seen.contains((#[trigger] models[j]).component),
                forall|component: Seq<char>| #[trigger]
                    seen.contains(component) ==> exists|j: int|
                        0 <= j < i && (#[trigger] models[j]).component == component,
        {
            let mut known: bool = false;
            for k in 0..i
                invariant
                    i < count,
                    count == self.entries@.len(),
                    models == scope_models(self.entries@),
                    known <==> exists|j: int|
                        0 <= j < k && (#[trigger] models[j]).component
                            == models[i as int].component,
            {
                assert(models[k as int] == self.entries@[k as int]@);
                assert(models[i as int] == self.entries@[i as int]@);
                if self.entries[k].component == self.entries[i].component {
                    known = true;
                }
            }
            if !known {
                components += 1;
            }
            proof {
                seen = seen.insert(models[i as int].component);
            }
        }
        proof {
            assert forall|component: Seq<char>|
                seen.contains(component) == claimed_components(self@).contains(component) by {
                if seen.contains(component) {
                    let j = choose|j: int|
                        0 <= j < count && (#[trigger] models[j]).component == component;
                    assert(models.contains(models[j]));
                    assert(self@.count(models[j]) > 0);
                }
                if claimed_components(self@).contains(component) {
                    let claimed = choose|claimed: ScopeModel| #[trigger]
                        self@.count(claimed) > 0 && claimed.component == component;
                    assert(models.contains(claimed));
                    let j = choose|j: int| 0 <= j < models.len() && models[j] == claimed;
                    assert(seen.contains(models[j].component));
                }
            }
            assert(seen =~= claimed_components(self@));
        }
        components
    }

    pub fn clear(&mut self)
        ensures
            final(self)@ == Multiset::<ScopeModel>::empty(),
    {
        broadcast use group_to_multiset_ensures;

        self.entries.clear();
        assert(scope_models(self.entries@) =~= Seq::empty());
        assert(self@ =~= Multiset::<ScopeModel>::empty());
    }
}

pub(crate) proof fn lemma_installed_count(
    claims: Multiset<ScopeModel>,
    claim: Seq<ScopeModel>,
    entry: ScopeModel,
)
    ensures
        installed(claims, claim).count(entry) == claims.count(entry) + claim.to_multiset().count(
            entry,
        ),
    decreases claim.len(),
{
    broadcast use group_to_multiset_ensures;

    if claim.len() == 0 {
        assert(claim =~= Seq::empty());
        assert(claim.to_multiset() =~= Multiset::empty());
    } else {
        lemma_installed_count(claims, claim.drop_last(), entry);
        assert(claim =~= claim.drop_last().push(claim.last()));
    }
}

pub(crate) proof fn lemma_released_count(
    claims: Multiset<ScopeModel>,
    claim: Seq<ScopeModel>,
    entry: ScopeModel,
)
    requires
        forall|other: ScopeModel|
            claim.to_multiset().count(other) <= #[trigger] claims.count(other),
    ensures
        released(claims, claim).count(entry) == claims.count(entry) - claim.to_multiset().count(
            entry,
        ),
    decreases claim.len(),
{
    broadcast use group_to_multiset_ensures;

    if claim.len() == 0 {
        assert(claim =~= Seq::empty());
        assert(claim.to_multiset() =~= Multiset::empty());
    } else {
        let before = claim.drop_last();
        let last = claim.last();
        assert(claim =~= before.push(last));
        assert(claim.to_multiset() =~= before.to_multiset().insert(last));
        assert forall|other: ScopeModel| before.to_multiset().count(other)
            <= #[trigger] claims.count(other) by {
            assert(claim.to_multiset().count(other) <= claims.count(other));
        }
        lemma_released_count(claims, before, entry);
        lemma_released_count(claims, before, last);
        assert(claim.to_multiset().count(last) <= claims.count(last));
    }
}

/// Completing a retirement takes back exactly what it claimed.
pub proof fn law_releasing_undoes_installing(claims: Multiset<ScopeModel>, claim: Seq<ScopeModel>)
    ensures
        released(installed(claims, claim), claim) == claims,
{
    let with = installed(claims, claim);
    assert forall|other: ScopeModel| claim.to_multiset().count(other) <= #[trigger] with.count(
        other,
    ) by {
        lemma_installed_count(claims, claim, other);
    }
    assert forall|entry: ScopeModel| #[trigger] released(with, claim).count(entry) == claims.count(
        entry,
    ) by {
        lemma_installed_count(claims, claim, entry);
        lemma_released_count(with, claim, entry);
    }
    assert(released(with, claim) =~= claims);
}

proof fn lemma_claim_covers(scopes: Seq<ScopeModel>, at: int)
    requires
        0 <= at < scopes.len(),
    ensures
        exists|i: int|
            0 <= i < claim_of(scopes).len() && (#[trigger] claim_of(scopes)[i]).component
                == scopes[at].component && scopes[at].generation <= claim_of(scopes)[i].generation,
    decreases scopes.len(),
{
    let before = claim_of(scopes.drop_last());
    let last = scopes.last();
    let claim = claim_of(scopes);
    let wanted = scopes[at];
    lemma_covering_keeps(before, last);
    if at < scopes.len() - 1 {
        lemma_claim_covers(scopes.drop_last(), at);
        assert(scopes.drop_last()[at] == wanted);
        let i = choose|i: int|
            0 <= i < before.len() && (#[trigger] before[i]).component == wanted.component
                && wanted.generation <= before[i].generation;
        assert(claim[i].component == before[i].component && before[i].generation
            <= claim[i].generation);
    }
}

proof fn lemma_covering_keeps(claim: Seq<ScopeModel>, scope: ScopeModel)
    ensures
        covering(claim, scope).len() >= claim.len(),
        forall|i: int|
            0 <= i < claim.len() ==> (#[trigger] covering(claim, scope)[i]).component
                == claim[i].component && claim[i].generation <= covering(claim, scope)[i].generation,
        exists|i: int|
            0 <= i < covering(claim, scope).len() && (#[trigger] covering(
                claim,
                scope,
            )[i]).component == scope.component && scope.generation <= covering(
                claim,
                scope,
            )[i].generation,
    decreases claim.len(),
{
    let all = covering(claim, scope);
    if claim.len() == 0 {
        assert(all[0] == scope);
    } else if claim[0].component == scope.component {
        assert(all[0].component == scope.component);
        assert forall|i: int| 0 <= i < claim.len() implies (#[trigger] all[i]).component
            == claim[i].component && claim[i].generation <= all[i].generation by {
            if i > 0 {
                assert(all[i] == claim.drop_first()[i - 1]);
            }
        }
    } else {
        let rest = claim.drop_first();
        let covered = covering(rest, scope);
        lemma_covering_keeps(rest, scope);
        assert forall|i: int| 0 <= i < claim.len() implies (#[trigger] all[i]).component
            == claim[i].component && claim[i].generation <= all[i].generation by {
            if i > 0 {
                assert(all[i] == covered[i - 1]);
                assert(rest[i - 1] == claim[i]);
            }
        }
        let j = choose|j: int|
            0 <= j < covered.len() && (#[trigger] covered[j]).component == scope.component
                && scope.generation <= covered[j].generation;
        assert(all[j + 1] == covered[j]);
    }
}

/// While a retirement is under way, none of the mounts that it retires can start a
/// task, and neither can an older mount of the same component.
pub proof fn law_retired_mounts_start_nothing(
    claims: Multiset<ScopeModel>,
    scopes: Seq<ScopeModel>,
    at: int,
    scope: ScopeModel,
)
    requires
        0 <= at < scopes.len(),
        scope.component == scopes[at].component,
        scope.generation <= scopes[at].generation,
    ensures
        is_rejected(installed(claims, claim_of(scopes)), scope),
{
    broadcast use group_to_multiset_ensures;

    let claim = claim_of(scopes);
    lemma_claim_covers(scopes, at);
    let i = choose|i: int|
        0 <= i < claim.len() && (#[trigger] claim[i]).component == scopes[at].component
            && scopes[at].generation <= claim[i].generation;
    assert(claim.contains(claim[i]));
    lemma_installed_count(claims, claim, claim[i]);
    assert(installed(claims, claim).count(claim[i]) > 0);
}

/// A mount that is newer than everything a claim retires is not kept from starting
/// tasks by it.
pub proof fn law_newer_mounts_are_not_held_up(scopes: Seq<ScopeModel>, scope: ScopeModel)
    requires
        forall|i: int|
            0 <= i < scopes.len() ==> (#[trigger] scopes[i]).component != scope.component
                || scopes[i].generation < scope.generation,
    ensures
        !is_rejected(installed(Multiset::empty(), claim_of(scopes)), scope),
{
    broadcast use group_to_multiset_ensures;

    let claim = claim_of(scopes);
    let claims = installed(Multiset::empty(), claim);
    if is_rejected(claims, scope) {
        let claimed = choose|claimed: ScopeModel| #[trigger]
            claims.count(claimed) > 0 && claimed.component == scope.component && scope.generation
                <= claimed.generation;
        lemma_installed_count(Multiset::empty(), claim, claimed);
        assert(claim.contains(claimed));
        lemma_claim_is_of_scopes(scopes);
        let j = choose|j: int| 0 <= j < claim.len() && claim[j] == claimed;
        assert(scopes.contains(claim[j]));
        let i = choose|i: int| 0 <= i < scopes.len() && scopes[i] == claimed;
        assert(scopes[i] == claimed);
    }
}

proof fn lemma_claim_is_of_scopes(scopes: Seq<ScopeModel>)
    ensures
        forall|i: int|
            0 <= i < claim_of(scopes).len() ==> scopes.contains(#[trigger] claim_of(scopes)[i]),
    decreases scopes.len(),
{
    if scopes.len() > 0 {
        let before = scopes.drop_last();
        lemma_claim_is_of_scopes(before);
        lemma_covering_is_of_parts(claim_of(before), scopes.last());
        let claim = claim_of(scopes);
        assert forall|i: int| 0 <= i < claim.len() implies scopes.contains(#[trigger] claim[i]) by {
            if claim[i] != scopes.last() {
                assert(claim_of(before).contains(claim[i]));
                let j = choose|j: int| 0 <= j < claim_of(before).len() && claim_of(before)[j]
                    == claim[i];
                assert(before.contains(claim_of(before)[j]));
                let k = choose|k: int| 0 <= k < before.len() && before[k] == claim[i];
                assert(scopes[k] == claim[i]);
            } else {
                assert(scopes[scopes.len() - 1] == claim[i]);
            }
        }
    }
}

proof fn lemma_covering_is_of_parts(claim: Seq<ScopeModel>, scope: ScopeModel)
    ensures
        forall|i: int|
            0 <= i < covering(claim, scope).len() ==> #[trigger] covering(claim, scope)[i] == scope
                || claim.contains(covering(claim, scope)[i]),
    decreases claim.len(),
{
    let all = covering(claim, scope);
    if claim.len() > 0 {
        let rest = claim.drop_first();
        lemma_covering_is_of_parts(rest, scope);
        assert forall|i: int| 0 <= i < all.len() implies #[trigger] all[i] == scope
            || claim.contains(all[i]) by {
            if i == 0 {
                assert(claim[0] == claim[0]);
            } else if claim[0].component == scope.component {
                assert(all[i] == claim[i]);
            } else {
                assert(all[i] == covering(rest, scope)[i - 1]);
                if all[i] != scope {
                    let j = choose|j: int| 0 <= j < rest.len() && rest[j] == all[i];
                    assert(claim[j + 1] == all[i]);
                }
            }
        }
    }
}

} // verus!
