use vstd::prelude::*;
use crate::pom::model::{
    slot_equiv, well_formed_slot, well_formed_strategy, SlotModel, StrategyModel,
};
use crate::pom::xml::{XmlName, XmlNode};

verus! {

/// How a slot's value is compared with its baseline.
#[derive(Debug)]
pub enum DiffStrategy {
    Recursive,
    Replace,
    Append,
    Sequence,
    UnorderedSet,
    Keyed(XmlName),
}

impl View for DiffStrategy {
    type V = StrategyModel;

    open spec fn view(&self) -> StrategyModel {
        match self {
            DiffStrategy::Recursive => StrategyModel::Recursive,
            DiffStrategy::Replace => StrategyModel::Replace,
            DiffStrategy::Append => StrategyModel::Append,
            DiffStrategy::Sequence => StrategyModel::Sequence,
            DiffStrategy::UnorderedSet => StrategyModel::UnorderedSet,
            DiffStrategy::Keyed(name) => StrategyModel::Keyed(name@),
        }
    }
}

impl DiffStrategy {
    pub(crate) fn assure(&self)
        ensures
            well_formed_strategy(self@),
    {
        match self {
            DiffStrategy::Keyed(name) => proof {
                use_type_invariant(name);
            },
            _ => {},
        }
    }

    pub(crate) fn equals(&self, other: &Self) -> (equal: bool)
        ensures
            equal == (self@ == other@),
    {
        match (self, other) {
            (DiffStrategy::Recursive, DiffStrategy::Recursive) => true,
            (DiffStrategy::Replace, DiffStrategy::Replace) => true,
            (DiffStrategy::Append, DiffStrategy::Append) => true,
            (DiffStrategy::Sequence, DiffStrategy::Sequence) => true,
            (DiffStrategy::UnorderedSet, DiffStrategy::UnorderedSet) => true,
            (DiffStrategy::Keyed(a), DiffStrategy::Keyed(b)) => *a == *b,
            _ => false,
        }
    }
}

impl Clone for DiffStrategy {
    fn clone(&self) -> (copy: Self)
        ensures
            copy@ == self@,
    {
        match self {
            DiffStrategy::Recursive => DiffStrategy::Recursive,
            DiffStrategy::Replace => DiffStrategy::Replace,
            DiffStrategy::Append => DiffStrategy::Append,
            DiffStrategy::Sequence => DiffStrategy::Sequence,
            DiffStrategy::UnorderedSet => DiffStrategy::UnorderedSet,
            DiffStrategy::Keyed(name) => DiffStrategy::Keyed(name.clone()),
        }
    }
}

impl PartialEq for DiffStrategy {
    fn eq(&self, other: &Self) -> (equal: bool) {
        self.equals(other)
    }
}

impl Eq for DiffStrategy {

}

impl vstd::std_specs::cmp::PartialEqSpecImpl for DiffStrategy {
    open spec fn obeys_eq_spec() -> bool {
        true
    }

    open spec fn eq_spec(&self, other: &Self) -> bool {
        self@ == other@
    }
}

/// A stored slot whose role is not the name of its value.
#[derive(Debug)]
pub struct DiffSlotMismatch {
    pub role: XmlName,
    pub root: XmlName,
}

/// A place of a document whose value is compared with what was sent before.
#[derive(Debug)]
pub struct DiffSlot {
    pub(crate) role: XmlName,
    pub(crate) strategy: DiffStrategy,
    pub(crate) value: Option<XmlNode>,
}

impl View for DiffSlot {
    type V = SlotModel;

    open(crate) spec fn view(&self) -> SlotModel {
        self.model()
    }
}

impl DiffSlot {
    pub(crate) open(crate) spec fn model(&self) -> SlotModel
        decreases self,
    {
        SlotModel {
            role: self.role.view(),
            strategy: self.strategy.view(),
            value: match self.value {
                Some(value) => Some(value.model()),
                None => None,
            },
        }
    }
}

impl DiffSlot {
    #[verifier::type_invariant]
    pub(crate) open(crate) spec fn inv(self) -> bool {
        well_formed_slot(self@)
    }

    /// A slot that holds a value. Its role is the name of the value.
    pub fn present(strategy: DiffStrategy, value: XmlNode) -> (slot: Self)
        ensures
            slot@ == (SlotModel {
                role: value@.name,
                strategy: strategy@,
                value: Some(value@),
            }),
    {
        strategy.assure();
        proof {
            use_type_invariant(&value);
        }
        Self { role: value.name().clone(), strategy, value: Some(value) }
    }

    /// A slot that holds no value now.
    pub fn absent(role: XmlName, strategy: DiffStrategy) -> (slot: Self)
        ensures
            slot@ == (SlotModel { role: role@, strategy: strategy@, value: None }),
    {
        strategy.assure();
        proof {
            use_type_invariant(&role);
        }
        Self { role, strategy, value: None }
    }

    /// A slot of parts that were stored. The role of a slot that holds a value has to be
    /// the name of the value.
    pub fn from_parts(role: XmlName, strategy: DiffStrategy, value: Option<XmlNode>) -> (result:
        Result<Self, DiffSlotMismatch>)
        ensures
            match result {
                Ok(slot) => {
                    &&& value is Some ==> value->Some_0@.name == role@
                    &&& slot@ == (SlotModel {
                        role: role@,
                        strategy: strategy@,
                        value: match value {
                            Some(value) => Some(value@),
                            None => None,
                        },
                    })
                },
                Err(mismatch) => {
                    &&& value is Some
                    &&& value->Some_0@.name != role@
                    &&& mismatch.role@ == role@
                    &&& mismatch.root@ == value->Some_0@.name
                },
            },
    {
        match value {
            Some(value) => {
                if role != *value.name() {
                    return Err(DiffSlotMismatch { role, root: value.name().clone() });
                }
                Ok(Self::present(strategy, value))
            },
            None => Ok(Self::absent(role, strategy)),
        }
    }

    pub fn role(&self) -> (role: &XmlName)
        ensures
            role@ == self@.role,
    {
        &self.role
    }

    pub fn strategy(&self) -> (strategy: &DiffStrategy)
        ensures
            strategy@ == self@.strategy,
    {
        &self.strategy
    }

    pub fn value(&self) -> (value: Option<&XmlNode>)
        ensures
            match value {
                Some(value) => self@.value == Some(value@),
                None => self@.value is None,
            },
    {
        match &self.value {
            Some(value) => Some(value),
            None => None,
        }
    }

    pub fn is_present(&self) -> (present: bool)
        ensures
            present == (self@.value is Some),
    {
        self.value.is_some()
    }

    pub(crate) fn duplicate(&self) -> (copy: Self)
        ensures
            copy@ == self@,
        decreases self,
    {
        proof {
            use_type_invariant(self);
        }
        let value = match &self.value {
            Some(value) => Some(value.duplicate()),
            None => None,
        };
        Self { role: self.role.clone(), strategy: self.strategy.clone(), value }
    }

    pub(crate) fn equals(&self, other: &Self) -> (equal: bool)
        ensures
            equal == slot_equiv(self@, other@),
        decreases self,
    {
        let same_value = match (&self.value, &other.value) {
            (Some(a), Some(b)) => a.equals(b),
            (None, None) => true,
            _ => false,
        };
        same_value && self.role == other.role && self.strategy.equals(&other.strategy)
    }
}

impl Clone for DiffSlot {
    fn clone(&self) -> (copy: Self)
        ensures
            copy@ == self@,
    {
        self.duplicate()
    }
}

impl PartialEq for DiffSlot {
    fn eq(&self, other: &Self) -> (equal: bool) {
        self.equals(other)
    }
}

impl Eq for DiffSlot {

}

impl vstd::std_specs::cmp::PartialEqSpecImpl for DiffSlot {
    open spec fn obeys_eq_spec() -> bool {
        true
    }

    open spec fn eq_spec(&self, other: &Self) -> bool {
        slot_equiv(self@, other@)
    }
}

} // verus!
