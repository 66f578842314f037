//! Durable baselines for stateful user-document diff slots.

use vstd::prelude::*;
use crate::pom::diff_slot::DiffStrategy;
use crate::pom::model::{xml_equiv, StrategyModel, XmlModel};
use crate::pom::xml::{XmlName, XmlNode};

verus! {

/// Model of what was last sent for one role.
pub struct BaselineModel {
    pub strategy: StrategyModel,
    pub value: XmlModel,
}

/// What was last sent for one role.
#[derive(Debug)]
pub(crate) struct SlotBaseline {
    pub(crate) role: XmlName,
    pub(crate) strategy: DiffStrategy,
    pub(crate) value: XmlNode,
}

/// What was last sent for each role of a user document.
#[derive(Debug)]
pub struct UserDocumentCursor {
    pub(crate) slots: Vec<SlotBaseline>,
}

pub(crate) open(crate) spec fn role_of(slots: Seq<SlotBaseline>) -> Seq<Seq<char>> {
    slots.map_values(|slot: SlotBaseline| slot.role@)
}

pub(crate) open(crate) spec fn baseline_of(slot: SlotBaseline) -> BaselineModel {
    BaselineModel { strategy: slot.strategy@, value: slot.value@ }
}

pub(crate) open(crate) spec fn baselines(slots: Seq<SlotBaseline>) -> Map<
    Seq<char>,
    BaselineModel,
> {
    Map::new(
        |role: Seq<char>| role_of(slots).contains(role),
        |role: Seq<char>| baseline_of(slots[role_of(slots).index_of(role)]),
    )
}

impl View for UserDocumentCursor {
    type V = Map<Seq<char>, BaselineModel>;

    open(crate) spec fn view(&self) -> Map<Seq<char>, BaselineModel> {
        baselines(self.slots@)
    }
}

proof fn lemma_baseline_at(slots: Seq<SlotBaseline>, at: int)
    requires
        role_of(slots).no_duplicates(),
        0 <= at < slots.len(),
    ensures
        baselines(slots).contains_key(slots[at].role@),
        baselines(slots)[slots[at].role@] == baseline_of(slots[at]),
{
    let role = slots[at].role@;
    assert(role_of(slots)[at] == role);
    let found = role_of(slots).index_of(role);
    assert(role_of(slots)[found] == role);
}

proof fn lemma_remove_baseline(slots: Seq<SlotBaseline>, at: int)
    requires
        role_of(slots).no_duplicates(),
        0 <= at < slots.len(),
    ensures
        role_of(slots.remove(at)).no_duplicates(),
        baselines(slots.remove(at)) == baselines(slots).remove(slots[at].role@),
{
    let rest = slots.remove(at);
    let role = slots[at].role@;
    assert forall|i: int, j: int|
        0 <= i < rest.len() && 0 <= j < rest.len() && i != j implies role_of(rest)[i]
        != role_of(rest)[j] by {
        let p = if i < at {
            i
        } else {
            i + 1
        };
        let q = if j < at {
            j
        } else {
            j + 1
        };
        assert(role_of(slots)[p] != role_of(slots)[q]);
    }
    assert forall|key: Seq<char>| #[trigger]
        baselines(rest).contains_key(key) implies baselines(slots).remove(role).contains_key(key)
        && baselines(rest)[key] == baselines(slots)[key] by {
        let i = role_of(rest).index_of(key);
        assert(role_of(rest)[i] == key);
        let p = if i < at {
            i
        } else {
            i + 1
        };
        assert(role_of(slots)[p] == key);
        assert(role_of(slots)[at] == role);
        lemma_baseline_at(rest, i);
        lemma_baseline_at(slots, p);
    }
    assert forall|key: Seq<char>| #[trigger]
        baselines(slots).remove(role).contains_key(key) implies baselines(rest).contains_key(key) by {
        let p = role_of(slots).index_of(key);
        assert(role_of(slots)[p] == key);
        let i = if p < at {
            p
        } else {
            p - 1
        };
        assert(role_of(rest)[i] == key);
    }
    assert(baselines(rest) =~= baselines(slots).remove(role));
}

proof fn lemma_push_baseline(slots: Seq<SlotBaseline>, slot: SlotBaseline)
    requires
        role_of(slots).no_duplicates(),
        !baselines(slots).contains_key(slot.role@),
    ensures
        role_of(slots.push(slot)).no_duplicates(),
        baselines(slots.push(slot)) == baselines(slots).insert(slot.role@, baseline_of(slot)),
{
    let more = slots.push(slot);
    let role = slot.role@;
    assert forall|i: int| 0 <= i < slots.len() implies role_of(more)[i] == role_of(slots)[i]
        && role_of(more)[i] != role by {
        assert(role_of(slots).contains(role_of(slots)[i]));
    }
    assert(role_of(more)[slots.len() as int] == role);
    assert(role_of(more).no_duplicates());
    lemma_baseline_at(more, slots.len() as int);
    assert forall|key: Seq<char>| #[trigger]
        baselines(more).contains_key(key) implies baselines(slots).insert(
        role,
        baseline_of(slot),
    ).contains_key(key) && baselines(more)[key] == baselines(slots).insert(
        role,
        baseline_of(slot),
    )[key] by {
        let i = role_of(more).index_of(key);
        assert(role_of(more)[i] == key);
        lemma_baseline_at(more, i);
        if i < slots.len() {
            assert(role_of(slots)[i] == key);
            lemma_baseline_at(slots, i);
        }
    }
    assert forall|key: Seq<char>| #[trigger]
        baselines(slots).insert(role, baseline_of(slot)).contains_key(key) implies baselines(
        more,
    ).contains_key(key) by {
        if key != role {
            let i = role_of(slots).index_of(key);
            assert(role_of(slots)[i] == key);
            assert(role_of(more)[i] == key);
        }
    }
    assert(baselines(more) =~= baselines(slots).insert(role, baseline_of(slot)));
}

impl UserDocumentCursor {
    #[verifier::type_invariant]
    pub(crate) open(crate) spec fn inv(self) -> bool {
        role_of(self.slots@).no_duplicates()
    }

    /// A cursor that remembers nothing.
    pub fn new() -> (cursor: Self)
        ensures
            cursor@ == Map::<Seq<char>, BaselineModel>::empty(),
    {
        let slots: Vec<SlotBaseline> = Vec::new();
        assert(baselines(slots@) =~= Map::<Seq<char>, BaselineModel>::empty());
        Self { slots }
    }

    pub fn len(&self) -> (len: usize)
        ensures
            len == self@.dom().len(),
    {
        proof {
            use_type_invariant(self);
            role_of(self.slots@).unique_seq_to_set();
            assert(self@.dom() =~= role_of(self.slots@).to_set());
        }
        self.slots.len()
    }

    pub fn is_empty(&self) -> (empty: bool)
        ensures
            empty == (self@ == Map::<Seq<char>, BaselineModel>::empty()),
    {
        proof {
            use_type_invariant(self);
            if self.slots@.len() > 0 {
                lemma_baseline_at(self.slots@, 0);
            } else {
                assert(self@ =~= Map::<Seq<char>, BaselineModel>::empty());
            }
        }
        self.slots.is_empty()
    }

    fn find(&self, role: &XmlName) -> (found: Option<usize>)
        ensures
            match found {
                Some(at) => at < self.slots@.len() && self.slots@[at as int].role@ == role@
                    && self@.contains_key(role@) && self@[role@] == baseline_of(
                    self.slots@[at as int],
                ),
                None => !self@.contains_key(role@),
            },
    {
        proof {
            use_type_invariant(self);
        }
        for i in 0..self.slots.len()
            invariant
                role_of(self.slots@).no_duplicates(),
                forall|j: int| 0 <= j < i ==> role_of(self.slots@)[j] != role@,
        {
            if self.slots[i].role == *role {
                proof {
                    lemma_baseline_at(self.slots@, i as int);
                }
                return Some(i);
            }
        }
        None
    }

    pub fn contains(&self, role: &XmlName) -> (contained: bool)
        ensures
            contained == self@.contains_key(role@),
    {
        self.find(role).is_some()
    }

    pub fn strategy(&self, role: &XmlName) -> (strategy: Option<&DiffStrategy>)
        ensures
            match strategy {
                Some(strategy) => self@.contains_key(role@) && strategy@ == self@[role@].strategy,
                None => !self@.contains_key(role@),
            },
    {
        match self.find(role) {
            Some(at) => Some(&self.slots[at].strategy),
            None => None,
        }
    }

    pub fn value(&self, role: &XmlName) -> (value: Option<&XmlNode>)
        ensures
            match value {
                Some(value) => self@.contains_key(role@) && value@ == self@[role@].value,
                None => !self@.contains_key(role@),
            },
    {
        match self.find(role) {
            Some(at) => Some(&self.slots[at].value),
            None => None,
        }
    }

    pub(crate) fn baseline(&self, role: &XmlName) -> (baseline: Option<(&DiffStrategy, &XmlNode)>)
        ensures
            match baseline {
                Some((strategy, value)) => self@.contains_key(role@) && self@[role@] == (
                BaselineModel { strategy: strategy@, value: value@ }),
                None => !self@.contains_key(role@),
            },
    {
        match self.find(role) {
            Some(at) => Some((&self.slots[at].strategy, &self.slots[at].value)),
            None => None,
        }
    }

    /// Forgets a role, and says whether it was known.
    pub fn remove(&mut self, role: &XmlName) -> (removed: bool)
        ensures
            removed == old(self)@.contains_key(role@),
            final(self)@ == old(self)@.remove(role@),
    {
        proof {
            use_type_invariant(&*self);
        }
        match self.find(role) {
            Some(at) => {
                let ghost before = self.slots@;
                let mut slots: Vec<SlotBaseline> = Vec::new();
                std::mem::swap(&mut slots, &mut self.slots);
                proof {
                    lemma_remove_baseline(before, at as int);
                }
                let _ = slots.remove(at);
                self.slots = slots;
                true
            },
            None => {
                assert(self@.remove(role@) =~= self@);
                false
            },
        }
    }

    /// Forgets every role.
    pub fn clear(&mut self)
        ensures
            final(self)@ == Map::<Seq<char>, BaselineModel>::empty(),
    {
        let slots: Vec<SlotBaseline> = Vec::new();
        assert(baselines(slots@) =~= Map::<Seq<char>, BaselineModel>::empty());
        self.slots = slots;
    }

    /// Remembers what was sent for a role.
    pub(crate) fn insert(&mut self, role: XmlName, strategy: DiffStrategy, value: XmlNode)
        ensures
            final(self)@ == old(self)@.insert(
                role@,
                BaselineModel { strategy: strategy@, value: value@ },
            ),
    {
        let ghost name = role@;
        let ghost baseline = BaselineModel { strategy: strategy@, value: value@ };
        let ghost original = self@;
        let _ = self.remove(&role);
        proof {
            use_type_invariant(&*self);
        }
        let ghost before = self.slots@;
        let slot = SlotBaseline { role, strategy, value };
        let mut slots: Vec<SlotBaseline> = Vec::new();
        std::mem::swap(&mut slots, &mut self.slots);
        proof {
            lemma_push_baseline(before, slot);
        }
        slots.push(slot);
        self.slots = slots;
        assert(self@ =~= original.insert(name, baseline));
    }

    /// Whether everything that this cursor remembers, the other one remembers too.
    fn within(&self, other: &Self) -> (within: bool)
        ensures
            within == cursor_within(self@, other@),
    {
        proof {
            use_type_invariant(self);
        }
        for i in 0..self.slots.len()
            invariant
                role_of(self.slots@).no_duplicates(),
                forall|j: int|
                    0 <= j < i ==> same_baseline(other@, role_of(self.slots@)[j], baseline_of(
                        self.slots@[j],
                    )),
        {
            let slot = &self.slots[i];
            proof {
                lemma_baseline_at(self.slots@, i as int);
            }
            let same = match other.find(&slot.role) {
                Some(at) => slot.strategy.equals(&other.slots[at].strategy) && slot.value.equals(
                    &other.slots[at].value,
                ),
                None => false,
            };
            if !same {
                assert(self@.contains_key(slot.role@));
                assert(!same_baseline(other@, slot.role@, self@[slot.role@]));
                return false;
            }
        }
        assert forall|role: Seq<char>| #[trigger] self@.contains_key(role) implies same_baseline(
            other@,
            role,
            self@[role],
        ) by {
            let i = role_of(self.slots@).index_of(role);
            assert(role_of(self.slots@)[i] == role);
            lemma_baseline_at(self.slots@, i);
        }
        true
    }
}

/// Whether a cursor remembers an equal baseline for a role.
pub open spec fn same_baseline(
    cursor: Map<Seq<char>, BaselineModel>,
    role: Seq<char>,
    baseline: BaselineModel,
) -> bool {
    &&& cursor.contains_key(role)
    &&& baseline.strategy == cursor[role].strategy
    &&& xml_equiv(baseline.value, cursor[role].value)
}

/// Whether everything that one cursor remembers, the other one remembers too.
pub open spec fn cursor_within(
    a: Map<Seq<char>, BaselineModel>,
    b: Map<Seq<char>, BaselineModel>,
) -> bool {
    forall|role: Seq<char>| #[trigger] a.contains_key(role) ==> same_baseline(b, role, a[role])
}

impl Default for UserDocumentCursor {
    fn default() -> (cursor: Self)
        ensures
            cursor@ == Map::<Seq<char>, BaselineModel>::empty(),
    {
        Self::new()
    }
}

impl Clone for UserDocumentCursor {
    fn clone(&self) -> (copy: Self)
        ensures
            copy@ == self@,
    {
        proof {
            use_type_invariant(self);
        }
        let mut slots: Vec<SlotBaseline> = Vec::new();
        for i in 0..self.slots.len()
            invariant
                slots@.len() == i,
                forall|j: int|
                    0 <= j < i ==> (#[trigger] slots@[j]).role@ == self.slots@[j].role@
                        && baseline_of(slots@[j]) == baseline_of(self.slots@[j]),
        {
            let slot = &self.slots[i];
            slots.push(
                SlotBaseline {
                    role: slot.role.clone(),
                    strategy: slot.strategy.clone(),
                    value: slot.value.clone(),
                },
            );
        }
        proof {
            assert(role_of(slots@) =~= role_of(self.slots@));
            assert forall|role: Seq<char>| #[trigger]
                baselines(slots@).contains_key(role) implies baselines(slots@)[role]
                == self@[role] by {
                let i = role_of(slots@).index_of(role);
                assert(role_of(slots@)[i] == role);
                assert(baseline_of(slots@[i]) == baseline_of(self.slots@[i]));
            }
            assert(baselines(slots@) =~= self@);
        }
        Self { slots }
    }
}

impl PartialEq for UserDocumentCursor {
    fn eq(&self, other: &Self) -> (equal: bool) {
        self.within(other) && other.within(self)
    }
}

impl Eq for UserDocumentCursor {

}

impl vstd::std_specs::cmp::PartialEqSpecImpl for UserDocumentCursor {
    open spec fn obeys_eq_spec() -> bool {
        true
    }

    open spec fn eq_spec(&self, other: &Self) -> bool {
        cursor_within(self@, other@) && cursor_within(other@, self@)
    }
}

} // verus!
