//! Identities of components, bindings, turns and provider attempts.

use vstd::prelude::*;
use crate::text_chars::{has_control, with_control};
use crate::text_chars::{joined, decimal, decimal_text};

verus! {

/// What is wrong with an authored component.
#[derive(Debug)]
#[allow(inconsistent_fields)]
pub enum ComponentError {
    /// A binding breaks its contract.
    InvalidBindingContract { message: String },
    /// A key is empty or holds control characters.
    InvalidKey { value: String },
    /// A component was given a second key.
    ComponentAlreadyKeyed,
    /// A key was given to something that is not one component.
    KeyRequiresComponent,
}

/// Model of [`ComponentError`].
#[allow(inconsistent_fields)]
pub enum ComponentErrorModel {
    InvalidBindingContract { message: Seq<char> },
    InvalidKey { value: Seq<char> },
    ComponentAlreadyKeyed,
    KeyRequiresComponent,
}

impl View for ComponentError {
    type V = ComponentErrorModel;

    open spec fn view(&self) -> ComponentErrorModel {
        match *self {
            ComponentError::InvalidBindingContract { message } => {
                ComponentErrorModel::InvalidBindingContract { message: message@ }
            },
            ComponentError::InvalidKey { value } => ComponentErrorModel::InvalidKey {
                value: value@,
            },
            ComponentError::ComponentAlreadyKeyed => ComponentErrorModel::ComponentAlreadyKeyed,
            ComponentError::KeyRequiresComponent => ComponentErrorModel::KeyRequiresComponent,
        }
    }
}

/// A contract error with a message.
pub open spec fn contract_error(message: Seq<char>) -> ComponentErrorModel {
    ComponentErrorModel::InvalidBindingContract { message }
}

impl ComponentError {
    pub(crate) fn contract(message: String) -> (error: Self)
        ensures
            error@ == contract_error(message@),
    {
        ComponentError::InvalidBindingContract { message }
    }

    /// Whether two errors say the same.
    pub fn equals(&self, other: &Self) -> (equal: bool)
        ensures
            equal == (self@ == other@),
    {
        match (self, other) {
            (
                ComponentError::InvalidBindingContract { message },
                ComponentError::InvalidBindingContract { message: second },
            ) => *message == *second,
            (
                ComponentError::InvalidKey { value },
                ComponentError::InvalidKey { value: second },
            ) => *value == *second,
            (ComponentError::ComponentAlreadyKeyed, ComponentError::ComponentAlreadyKeyed) => true,
            (ComponentError::KeyRequiresComponent, ComponentError::KeyRequiresComponent) => true,
            _ => false,
        }
    }
}

impl Clone for ComponentError {
    fn clone(&self) -> (copy: Self)
        ensures
            copy@ == self@,
    {
        match self {
            ComponentError::InvalidBindingContract { message } => {
                ComponentError::InvalidBindingContract { message: message.clone() }
            },
            ComponentError::InvalidKey { value } => ComponentError::InvalidKey {
                value: value.clone(),
            },
            ComponentError::ComponentAlreadyKeyed => ComponentError::ComponentAlreadyKeyed,
            ComponentError::KeyRequiresComponent => ComponentError::KeyRequiresComponent,
        }
    }
}

impl PartialEq for ComponentError {
    fn eq(&self, other: &Self) -> (equal: bool) {
        self.equals(other)
    }
}

impl Eq for ComponentError {

}

impl vstd::std_specs::cmp::PartialEqSpecImpl for ComponentError {
    open spec fn obeys_eq_spec() -> bool {
        true
    }

    open spec fn eq_spec(&self, other: &Self) -> bool {
        self@ == other@
    }
}

/// Keys are non-empty and hold no control characters.
pub open spec fn is_key(value: Seq<char>) -> bool {
    value.len() > 0 && !has_control(value)
}

fn key_text(value: &str) -> (result: Result<String, ComponentError>)
    ensures
        result is Ok <==> is_key(value@),
        result is Ok ==> result->Ok_0@ == value@,
        result is Err ==> result->Err_0@ == (ComponentErrorModel::InvalidKey { value: value@ }),
{
    if value.is_empty() || with_control(value) {
        return Err(ComponentError::InvalidKey { value: value.to_owned() });
    }
    Ok(value.to_owned())
}

/// The name of a binding within its component.
#[derive(Debug)]
pub struct BindingKey {
    pub(crate) value: String,
}

impl View for BindingKey {
    type V = Seq<char>;

    open(crate) spec fn view(&self) -> Seq<char> {
        self.value@
    }
}

impl BindingKey {
    pub fn new(value: &str) -> (result: Result<Self, ComponentError>)
        ensures
            result is Ok <==> is_key(value@),
            result is Ok ==> result->Ok_0@ == value@,
            result is Err ==> result->Err_0@ == (ComponentErrorModel::InvalidKey {
                value: value@,
            }),
    {
        match key_text(value) {
            Ok(value) => Ok(Self { value }),
            Err(error) => Err(error),
        }
    }

    pub fn as_str(&self) -> (text: &str)
        ensures
            text@ == self@,
    {
        self.value.as_str()
    }
}

impl Clone for BindingKey {
    fn clone(&self) -> (copy: Self)
        ensures
            copy@ == self@,
    {
        Self { value: self.value.clone() }
    }
}

impl PartialEq for BindingKey {
    fn eq(&self, other: &Self) -> (equal: bool) {
        self.value == other.value
    }
}

impl Eq for BindingKey {

}

impl vstd::std_specs::cmp::PartialEqSpecImpl for BindingKey {
    open spec fn obeys_eq_spec() -> bool {
        true
    }

    open spec fn eq_spec(&self, other: &Self) -> bool {
        self@ == other@
    }
}

/// The author's name for one of several sibling components.
#[derive(Debug)]
pub struct ComponentKey {
    pub(crate) value: String,
}

impl View for ComponentKey {
    type V = Seq<char>;

    open(crate) spec fn view(&self) -> Seq<char> {
        self.value@
    }
}

impl ComponentKey {
    pub fn new(value: &str) -> (result: Result<Self, ComponentError>)
        ensures
            result is Ok <==> is_key(value@),
            result is Ok ==> result->Ok_0@ == value@,
            result is Err ==> result->Err_0@ == (ComponentErrorModel::InvalidKey {
                value: value@,
            }),
    {
        match key_text(value) {
            Ok(value) => Ok(Self { value }),
            Err(error) => Err(error),
        }
    }

    pub fn as_str(&self) -> (text: &str)
        ensures
            text@ == self@,
    {
        self.value.as_str()
    }
}

impl Clone for ComponentKey {
    fn clone(&self) -> (copy: Self)
        ensures
            copy@ == self@,
    {
        Self { value: self.value.clone() }
    }
}

impl PartialEq for ComponentKey {
    fn eq(&self, other: &Self) -> (equal: bool) {
        self.value == other.value
    }
}

impl Eq for ComponentKey {

}

impl vstd::std_specs::cmp::PartialEqSpecImpl for ComponentKey {
    open spec fn obeys_eq_spec() -> bool {
        true
    }

    open spec fn eq_spec(&self, other: &Self) -> bool {
        self@ == other@
    }
}

/// The path of the child at a position.
pub open spec fn child_path(parent: Seq<char>, name: Seq<char>, position: nat) -> Seq<char> {
    parent + seq!['/'] + name + seq!['#'] + decimal(position)
}

/// The path of a child with a key.
pub open spec fn keyed_child_path(parent: Seq<char>, name: Seq<char>, key: Seq<char>) -> Seq<char> {
    parent + seq!['/'] + name + seq!['['] + key + seq![']']
}

/// Where a component stands in the tree.
#[derive(Debug)]
pub struct ComponentId {
    pub(crate) value: String,
}

impl View for ComponentId {
    type V = Seq<char>;

    open(crate) spec fn view(&self) -> Seq<char> {
        self.value@
    }
}

impl ComponentId {
    /// The component that holds all others.
    pub fn root() -> (id: Self)
        ensures
            id@ == Seq::<char>::empty(),
    {
        let id = Self { value: String::new() };
        assert(id@ =~= Seq::<char>::empty());
        id
    }

    /// The child at a position among its siblings.
    pub fn child(&self, name: &str, position: u64) -> (id: Self)
        ensures
            id@ == child_path(self@, name@, position as nat),
    {
        let mut path: String = joined(self.value.as_str(), "/");
        path.append(name);
        path.append("#");
        let number: String = decimal_text(position);
        path.append(number.as_str());
        proof {
            reveal_strlit("/");
            reveal_strlit("#");
        }
        assert(path@ =~= child_path(self@, name@, position as nat));
        Self { value: path }
    }

    /// The child with a key, wherever it stands among its siblings.
    pub fn keyed_child(&self, name: &str, key: &ComponentKey) -> (id: Self)
        ensures
            id@ == keyed_child_path(self@, name@, key@),
    {
        let mut path: String = joined(self.value.as_str(), "/");
        path.append(name);
        path.append("[");
        path.append(key.as_str());
        path.append("]");
        proof {
            reveal_strlit("/");
            reveal_strlit("[");
            reveal_strlit("]");
        }
        assert(path@ =~= keyed_child_path(self@, name@, key@));
        Self { value: path }
    }

    pub fn as_str(&self) -> (text: &str)
        ensures
            text@ == self@,
    {
        self.value.as_str()
    }
}

impl Clone for ComponentId {
    fn clone(&self) -> (copy: Self)
        ensures
            copy@ == self@,
    {
        Self { value: self.value.clone() }
    }
}

impl PartialEq for ComponentId {
    fn eq(&self, other: &Self) -> (equal: bool) {
        self.value == other.value
    }
}

impl Eq for ComponentId {

}

impl vstd::std_specs::cmp::PartialEqSpecImpl for ComponentId {
    open spec fn obeys_eq_spec() -> bool {
        true
    }

    open spec fn eq_spec(&self, other: &Self) -> bool {
        self@ == other@
    }
}

/// Model of [`BindingId`].
pub struct BindingIdModel {
    pub component: Seq<char>,
    pub key: Seq<char>,
}

/// Where a binding stands: its component, and its key there.
#[derive(Debug)]
pub struct BindingId {
    pub(crate) component: ComponentId,
    pub(crate) key: BindingKey,
}

impl View for BindingId {
    type V = BindingIdModel;

    open(crate) spec fn view(&self) -> BindingIdModel {
        BindingIdModel { component: self.component@, key: self.key@ }
    }
}

impl BindingId {
    pub fn new(component: ComponentId, key: BindingKey) -> (id: Self)
        ensures
            id@ == (BindingIdModel { component: component@, key: key@ }),
    {
        Self { component, key }
    }

    /// The component that holds the binding.
    pub fn component(&self) -> (value: &ComponentId)
        ensures
            value@ == self@.component,
    {
        &self.component
    }

    /// The key of the binding in its component.
    pub fn key(&self) -> (value: &BindingKey)
        ensures
            value@ == self@.key,
    {
        &self.key
    }
}

impl Clone for BindingId {
    fn clone(&self) -> (copy: Self)
        ensures
            copy@ == self@,
    {
        Self { component: self.component.clone(), key: self.key.clone() }
    }
}

impl PartialEq for BindingId {
    fn eq(&self, other: &Self) -> (equal: bool) {
        self.component == other.component && self.key == other.key
    }
}

impl Eq for BindingId {

}

impl vstd::std_specs::cmp::PartialEqSpecImpl for BindingId {
    open spec fn obeys_eq_spec() -> bool {
        true
    }

    open spec fn eq_spec(&self, other: &Self) -> bool {
        self@ == other@
    }
}

/// Which prompt a component is rendered into.
#[derive(Debug, Clone, Copy, PartialEq, Eq, Structural)]
pub enum PromptRole {
    System,
    User,
}

/// One epoch of a mounted harness.
#[derive(Debug, Clone, Copy, PartialEq, Eq, Structural)]
pub struct HarnessEpochId {
    pub value: u64,
}

impl HarnessEpochId {
    pub fn new(value: u64) -> (id: Self)
        ensures
            id.value == value,
    {
        Self { value }
    }
}

/// One turn.
#[derive(Debug, Clone, Copy, PartialEq, Eq, Structural)]
pub struct TurnInstanceId {
    pub value: u64,
}

impl TurnInstanceId {
    pub fn new(value: u64) -> (id: Self)
        ensures
            id.value == value,
    {
        Self { value }
    }
}

/// One attempt at running a turn on a provider.
#[derive(Debug, Clone, Copy, PartialEq, Eq, Structural)]
pub struct ProviderAttemptId {
    pub value: u64,
}

impl ProviderAttemptId {
    pub fn new(value: u64) -> (id: Self)
        ensures
            id.value == value,
    {
        Self { value }
    }
}

/// The scope of the live effects of one attempt.
#[derive(Debug, Clone, Copy, PartialEq, Eq, Structural)]
pub struct LiveScopeId {
    pub value: u64,
}

impl LiveScopeId {
    pub fn new(value: u64) -> (id: Self)
        ensures
            id.value == value,
    {
        Self { value }
    }
}

/// Model of [`ProviderAttemptIdentity`].
pub struct AttemptModel {
    pub epoch_id: HarnessEpochId,
    pub turn_instance_id: TurnInstanceId,
    pub provider_attempt_id: ProviderAttemptId,
    pub live_scope_id: LiveScopeId,
    pub call_label: Seq<char>,
}

/// The identity of one provider attempt.
#[derive(Debug)]
pub struct ProviderAttemptIdentity {
    pub(crate) epoch_id: HarnessEpochId,
    pub(crate) turn_instance_id: TurnInstanceId,
    pub(crate) provider_attempt_id: ProviderAttemptId,
    pub(crate) live_scope_id: LiveScopeId,
    pub(crate) call_label: String,
}

impl View for ProviderAttemptIdentity {
    type V = AttemptModel;

    open(crate) spec fn view(&self) -> AttemptModel {
        AttemptModel {
            epoch_id: self.epoch_id,
            turn_instance_id: self.turn_instance_id,
            provider_attempt_id: self.provider_attempt_id,
            live_scope_id: self.live_scope_id,
            call_label: self.call_label@,
        }
    }
}

impl ProviderAttemptIdentity {
    /// The identity of an attempt whose own numbers were just drawn.
    pub fn new(
        epoch_id: HarnessEpochId,
        turn_instance_id: TurnInstanceId,
        provider_attempt_id: ProviderAttemptId,
        live_scope_id: LiveScopeId,
        call_label: &str,
    ) -> (identity: Self)
        ensures
            identity@ == (AttemptModel {
                epoch_id,
                turn_instance_id,
                provider_attempt_id,
                live_scope_id,
                call_label: call_label@,
            }),
    {
        Self {
            epoch_id,
            turn_instance_id,
            provider_attempt_id,
            live_scope_id,
            call_label: call_label.to_owned(),
        }
    }

    pub fn epoch_id(&self) -> (value: HarnessEpochId)
        ensures
            value == self@.epoch_id,
    {
        self.epoch_id
    }

    pub fn turn_instance_id(&self) -> (value: TurnInstanceId)
        ensures
            value == self@.turn_instance_id,
    {
        self.turn_instance_id
    }

    pub fn provider_attempt_id(&self) -> (value: ProviderAttemptId)
        ensures
            value == self@.provider_attempt_id,
    {
        self.provider_attempt_id
    }

    pub fn live_scope_id(&self) -> (value: LiveScopeId)
        ensures
            value == self@.live_scope_id,
    {
        self.live_scope_id
    }

    pub fn call_label(&self) -> (text: &str)
        ensures
            text@ == self@.call_label,
    {
        self.call_label.as_str()
    }
}

impl Clone for ProviderAttemptIdentity {
    fn clone(&self) -> (copy: Self)
        ensures
            copy@ == self@,
    {
        Self {
            epoch_id: self.epoch_id,
            turn_instance_id: self.turn_instance_id,
            provider_attempt_id: self.provider_attempt_id,
            live_scope_id: self.live_scope_id,
            call_label: self.call_label.clone(),
        }
    }
}

impl PartialEq for ProviderAttemptIdentity {
    fn eq(&self, other: &Self) -> (equal: bool) {
        self.epoch_id == other.epoch_id
            && self.turn_instance_id == other.turn_instance_id
            && self.provider_attempt_id == other.provider_attempt_id
            && self.live_scope_id == other.live_scope_id
            && self.call_label == other.call_label
    }
}

impl Eq for ProviderAttemptIdentity {

}

impl vstd::std_specs::cmp::PartialEqSpecImpl for ProviderAttemptIdentity {
    open spec fn obeys_eq_spec() -> bool {
        true
    }

    open spec fn eq_spec(&self, other: &Self) -> bool {
        self@ == other@
    }
}

} // verus!
