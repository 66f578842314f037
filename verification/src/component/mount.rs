//! Mount plans: what the declarations of a component amount to.

use vstd::prelude::*;
use crate::component::declaration::{CapabilityModel, DeclarationModel, FactoryDeclaration};
use crate::component::declaration::{FactoryModel, ProviderCapabilityDeclaration};
use crate::component::declaration::RuntimeDeclaration;
use crate::component::identity::{BindingId, BindingIdModel, ComponentError, ComponentErrorModel};
use crate::component::identity::PromptRole;
use crate::component::tools::{spec_models, ProviderToolSpec, RouteModel, RuntimeRoute};
use crate::component::tools::ToolSpecModel;
use crate::pom::document::Document;
use crate::pom::model::EdgeModel;
use crate::text_chars::optional_str;

verus! {

/// Model of [`PlacedBinding`].
pub struct PlacedModel<V> {
    pub id: BindingIdModel,
    pub role: Option<PromptRole>,
    pub binding: V,
}

/// A binding, where it stands, and the prompt that it belongs to.
#[derive(Debug)]
pub struct PlacedBinding<B> {
    pub id: BindingId,
    pub role: Option<PromptRole>,
    pub binding: B,
}

impl<B: View> View for PlacedBinding<B> {
    type V = PlacedModel<B::V>;

    open spec fn view(&self) -> PlacedModel<B::V> {
        PlacedModel { id: self.id@, role: self.role, binding: self.binding@ }
    }
}

/// The models of several placed bindings.
pub open spec fn placed_models<B: View>(bindings: Seq<PlacedBinding<B>>) -> Seq<PlacedModel<B::V>> {
    bindings.map_values(|placed: PlacedBinding<B>| placed@)
}

/// A component taken apart: its two documents, and its bindings in author order.
#[derive(Debug)]
pub struct CompiledTurn<B> {
    pub system: Document,
    pub user: Document,
    pub bindings: Vec<PlacedBinding<B>>,
}

/// Who declared a name.
pub struct OwnerModel {
    pub name: Seq<char>,
    pub owner: BindingIdModel,
}

/// The first to declare a name.
pub open spec fn owner_of(owners: Seq<OwnerModel>, name: Seq<char>) -> Option<BindingIdModel>
    decreases owners.len(),
{
    if owners.len() == 0 {
        None
    } else if owners[0].name == name {
        Some(owners[0].owner)
    } else {
        owner_of(owners.drop_first(), name)
    }
}

/// Model of [`MountedBindingFactory`].
pub struct MountedFactoryModel<F> {
    pub id: BindingIdModel,
    pub declaration: FactoryModel<F>,
}

/// Model of [`MountedProviderCapability`].
pub struct MountedCapabilityModel<D> {
    pub id: BindingIdModel,
    pub declaration: CapabilityModel<D>,
}

/// The first factory on a route.
pub open spec fn route_owner<F>(factories: Seq<MountedFactoryModel<F>>, route: RouteModel) -> Option<
    BindingIdModel,
>
    decreases factories.len(),
{
    if factories.len() == 0 {
        None
    } else if factories[0].declaration.route == route {
        Some(factories[0].id)
    } else {
        route_owner(factories.drop_first(), route)
    }
}

/// The tools of one capability.
pub open spec fn tools_of(specs: Seq<ToolSpecModel>, owner: BindingIdModel) -> Seq<OwnerModel> {
    specs.map_values(|spec: ToolSpecModel| OwnerModel { name: spec.name, owner })
}

/// The durable declarations among bindings.
pub open spec fn declared_ids<F, D>(bindings: Seq<PlacedModel<DeclarationModel<F, D>>>) -> Seq<
    OwnerModel,
>
    decreases bindings.len(),
{
    if bindings.len() == 0 {
        Seq::empty()
    } else {
        let before = declared_ids(bindings.drop_last());
        match bindings.last().binding.declaration_id() {
            Some(name) => before.push(OwnerModel { name, owner: bindings.last().id }),
            None => before,
        }
    }
}

/// The provider tools among bindings.
pub open spec fn declared_tools<F, D>(bindings: Seq<PlacedModel<DeclarationModel<F, D>>>) -> Seq<
    OwnerModel,
>
    decreases bindings.len(),
{
    if bindings.len() == 0 {
        Seq::empty()
    } else {
        let before = declared_tools(bindings.drop_last());
        match bindings.last().binding {
            DeclarationModel::ProviderCapability(capability) => before + tools_of(
                capability.specs,
                bindings.last().id,
            ),
            DeclarationModel::BindingFactory(_) => before,
        }
    }
}

/// The factories among bindings, in author order.
pub open spec fn mounted_factories<F, D>(bindings: Seq<PlacedModel<DeclarationModel<F, D>>>) -> Seq<
    MountedFactoryModel<F>,
>
    decreases bindings.len(),
{
    if bindings.len() == 0 {
        Seq::empty()
    } else {
        let before = mounted_factories(bindings.drop_last());
        match bindings.last().binding {
            DeclarationModel::BindingFactory(declaration) => before.push(
                MountedFactoryModel { id: bindings.last().id, declaration },
            ),
            DeclarationModel::ProviderCapability(_) => before,
        }
    }
}

/// The capabilities among bindings, in author order.
pub open spec fn mounted_capabilities<F, D>(
    bindings: Seq<PlacedModel<DeclarationModel<F, D>>>,
) -> Seq<MountedCapabilityModel<D>>
    decreases bindings.len(),
{
    if bindings.len() == 0 {
        Seq::empty()
    } else {
        let before = mounted_capabilities(bindings.drop_last());
        match bindings.last().binding {
            DeclarationModel::ProviderCapability(declaration) => before.push(
                MountedCapabilityModel { id: bindings.last().id, declaration },
            ),
            DeclarationModel::BindingFactory(_) => before,
        }
    }
}

/// Model of [`MountPlanError`].
#[allow(inconsistent_fields)]
pub enum MountErrorModel {
    Component(ComponentErrorModel),
    RuntimeDeclarationOutsideSystem { id: BindingIdModel, role: Option<PromptRole> },
    NonDurableRuntimeDeclaration { id: BindingIdModel },
    DuplicateRuntimeDeclaration {
        declaration_id: Seq<char>,
        first: BindingIdModel,
        second: BindingIdModel,
    },
    DuplicateBindingRoute { route: RouteModel, first: BindingIdModel, second: BindingIdModel },
    DuplicateProviderTool { name: Seq<char>, first: BindingIdModel, second: BindingIdModel },
}

/// The first of a capability's tools that was declared before, be it by another
/// capability or by itself.
pub open spec fn tool_fault(
    declared: Seq<OwnerModel>,
    specs: Seq<ToolSpecModel>,
    owner: BindingIdModel,
) -> Option<MountErrorModel>
    decreases specs.len(),
{
    if specs.len() == 0 {
        None
    } else {
        match tool_fault(declared, specs.drop_last(), owner) {
            Some(fault) => Some(fault),
            None => match owner_of(
                declared + tools_of(specs.drop_last(), owner),
                specs.last().name,
            ) {
                Some(first) => Some(
                    MountErrorModel::DuplicateProviderTool {
                        name: specs.last().name,
                        first,
                        second: owner,
                    },
                ),
                None => None,
            },
        }
    }
}

/// What is wrong with one binding behind others that are fine.
pub open spec fn binding_fault<F, D>(
    before: Seq<PlacedModel<DeclarationModel<F, D>>>,
    placed: PlacedModel<DeclarationModel<F, D>>,
    require_durable: bool,
) -> Option<MountErrorModel> {
    let id = placed.binding.declaration_id();
    if placed.role != Some(PromptRole::System) {
        Some(
            MountErrorModel::RuntimeDeclarationOutsideSystem { id: placed.id, role: placed.role },
        )
    } else if require_durable && id is None {
        Some(MountErrorModel::NonDurableRuntimeDeclaration { id: placed.id })
    } else if id is Some && owner_of(declared_ids(before), id->Some_0) is Some {
        Some(
            MountErrorModel::DuplicateRuntimeDeclaration {
                declaration_id: id->Some_0,
                first: owner_of(declared_ids(before), id->Some_0)->Some_0,
                second: placed.id,
            },
        )
    } else {
        match placed.binding {
            DeclarationModel::BindingFactory(factory) => match route_owner(
                mounted_factories(before),
                factory.route,
            ) {
                Some(first) => Some(
                    MountErrorModel::DuplicateBindingRoute {
                        route: factory.route,
                        first,
                        second: placed.id,
                    },
                ),
                None => None,
            },
            DeclarationModel::ProviderCapability(capability) => tool_fault(
                declared_tools(before),
                capability.specs,
                placed.id,
            ),
        }
    }
}

/// What is wrong with the first binding that cannot be mounted.
pub open spec fn mount_fault<F, D>(
    bindings: Seq<PlacedModel<DeclarationModel<F, D>>>,
    require_durable: bool,
) -> Option<MountErrorModel>
    decreases bindings.len(),
{
    if bindings.len() == 0 {
        None
    } else {
        match mount_fault(bindings.drop_last(), require_durable) {
            Some(fault) => Some(fault),
            None => binding_fault(bindings.drop_last(), bindings.last(), require_durable),
        }
    }
}

/// Why declarations cannot be mounted.
#[derive(Debug)]
#[allow(inconsistent_fields)]
pub enum MountPlanError {
    /// The component itself is broken.
    Component(ComponentError),
    /// A declaration stands outside the system prompt.
    RuntimeDeclarationOutsideSystem { id: BindingId, role: Option<PromptRole> },
    /// A durable root holds a declaration that is not durable.
    NonDurableRuntimeDeclaration { id: BindingId },
    /// Two declarations have the same durable id.
    DuplicateRuntimeDeclaration { declaration_id: String, first: BindingId, second: BindingId },
    /// Two factories have the same route.
    DuplicateBindingRoute { route: RuntimeRoute, first: BindingId, second: BindingId },
    /// Two capabilities offer the same tool.
    DuplicateProviderTool { name: String, first: BindingId, second: BindingId },
}

impl View for MountPlanError {
    type V = MountErrorModel;

    open spec fn view(&self) -> MountErrorModel {
        match *self {
            MountPlanError::Component(error) => MountErrorModel::Component(error@),
            MountPlanError::RuntimeDeclarationOutsideSystem { id, role } => {
                MountErrorModel::RuntimeDeclarationOutsideSystem { id: id@, role }
            },
            MountPlanError::NonDurableRuntimeDeclaration { id } => {
                MountErrorModel::NonDurableRuntimeDeclaration { id: id@ }
            },
            MountPlanError::DuplicateRuntimeDeclaration { declaration_id, first, second } => {
                MountErrorModel::DuplicateRuntimeDeclaration {
                    declaration_id: declaration_id@,
                    first: first@,
                    second: second@,
                }
            },
            MountPlanError::DuplicateBindingRoute { route, first, second } => {
                MountErrorModel::DuplicateBindingRoute {
                    route: route@,
                    first: first@,
                    second: second@,
                }
            },
            MountPlanError::DuplicateProviderTool { name, first, second } => {
                MountErrorModel::DuplicateProviderTool {
                    name: name@,
                    first: first@,
                    second: second@,
                }
            },
        }
    }
}

/// A mounted binding factory.
#[derive(Debug)]
pub struct MountedBindingFactory<F> {
    pub(crate) id: BindingId,
    pub(crate) declaration: FactoryDeclaration<F>,
}

impl<F> View for MountedBindingFactory<F> {
    type V = MountedFactoryModel<F>;

    open(crate) spec fn view(&self) -> MountedFactoryModel<F> {
        MountedFactoryModel { id: self.id@, declaration: self.declaration@ }
    }
}

impl<F> MountedBindingFactory<F> {
    pub fn id(&self) -> (id: &BindingId)
        ensures
            id@ == self@.id,
    {
        &self.id
    }

    pub fn declaration(&self) -> (declaration: &FactoryDeclaration<F>)
        ensures
            declaration@ == self@.declaration,
    {
        &self.declaration
    }

    pub fn route(&self) -> (route: &RuntimeRoute)
        ensures
            route@ == self@.declaration.route,
    {
        self.declaration.route()
    }

    pub fn implementation_version(&self) -> (version: Option<&str>)
        ensures
            optional_str(version) == self@.declaration.implementation_version(),
    {
        self.declaration.implementation_version()
    }

    pub fn declaration_id(&self) -> (id: Option<&str>)
        ensures
            optional_str(id) == self@.declaration.declaration_id(),
    {
        self.declaration.declaration_id()
    }
}

impl<F> Clone for MountedBindingFactory<F> {
    fn clone(&self) -> (copy: Self)
        ensures
            copy@ == self@,
    {
        Self { id: self.id.clone(), declaration: self.declaration.clone() }
    }
}

/// A mounted provider capability.
#[derive(Debug)]
pub struct MountedProviderCapability<D> {
    pub(crate) id: BindingId,
    pub(crate) declaration: ProviderCapabilityDeclaration<D>,
}

impl<D> View for MountedProviderCapability<D> {
    type V = MountedCapabilityModel<D>;

    open(crate) spec fn view(&self) -> MountedCapabilityModel<D> {
        MountedCapabilityModel { id: self.id@, declaration: self.declaration@ }
    }
}

impl<D> MountedProviderCapability<D> {
    pub fn id(&self) -> (id: &BindingId)
        ensures
            id@ == self@.id,
    {
        &self.id
    }

    pub fn declaration(&self) -> (declaration: &ProviderCapabilityDeclaration<D>)
        ensures
            declaration@ == self@.declaration,
    {
        &self.declaration
    }

    pub fn specs(&self) -> (specs: &Vec<ProviderToolSpec>)
        ensures
            spec_models(specs@) == self@.declaration.specs,
    {
        self.declaration.specs()
    }

    pub fn implementation_version(&self) -> (version: Option<&str>)
        ensures
            optional_str(version) == self@.declaration.contract_version(),
    {
        self.declaration.implementation_version()
    }

    pub fn declaration_id(&self) -> (id: Option<&str>)
        ensures
            optional_str(id) == self@.declaration.declaration_id(),
    {
        self.declaration.declaration_id()
    }
}

impl<D> Clone for MountedProviderCapability<D> {
    fn clone(&self) -> (copy: Self)
        ensures
            copy@ == self@,
    {
        Self { id: self.id.clone(), declaration: self.declaration.clone() }
    }
}

/// The models of several factories.
pub open spec fn factory_models<F>(factories: Seq<MountedBindingFactory<F>>) -> Seq<MountedFactoryModel<F>> {
    factories.map_values(|mounted: MountedBindingFactory<F>| mounted@)
}

/// The factories of a component, in author order.
#[derive(Debug)]
pub struct BindingFactoryPlan<F> {
    pub(crate) factories: Vec<MountedBindingFactory<F>>,
}

impl<F> View for BindingFactoryPlan<F> {
    type V = Seq<MountedFactoryModel<F>>;

    open(crate) spec fn view(&self) -> Seq<MountedFactoryModel<F>> {
        factory_models(self.factories@)
    }
}

impl<F> BindingFactoryPlan<F> {
    /// The plan without anything.
    pub fn empty() -> (plan: Self)
        ensures
            plan@ == Seq::<MountedFactoryModel<F>>::empty(),
    {
        let plan = Self { factories: Vec::new() };
        assert(plan@ =~= Seq::<MountedFactoryModel<F>>::empty());
        plan
    }

    pub fn factories(&self) -> (factories: &Vec<MountedBindingFactory<F>>)
        ensures
            factory_models(factories@) == self@,
    {
        &self.factories
    }

    pub fn len(&self) -> (len: usize)
        ensures
            len == self@.len(),
    {
        self.factories.len()
    }

    pub fn is_empty(&self) -> (empty: bool)
        ensures
            empty == (self@.len() == 0),
    {
        self.factories.is_empty()
    }
}

impl<F> Clone for BindingFactoryPlan<F> {
    fn clone(&self) -> (copy: Self)
        ensures
            copy@ == self@,
    {
        let mut copies: Vec<MountedBindingFactory<F>> = Vec::new();
        let count: usize = self.factories.len();
        for i in 0..count
            invariant
                count == self.factories@.len(),
                copies@.len() == i,
                forall|j: int| 0 <= j < i ==> (#[trigger] copies@[j])@ == self.factories@[j]@,
        {
            copies.push(self.factories[i].clone());
        }
        assert(factory_models(copies@) =~= self@);
        Self { factories: copies }
    }
}

/// The models of several capabilities.
pub open spec fn capability_models<D>(capabilities: Seq<MountedProviderCapability<D>>) -> Seq<MountedCapabilityModel<D>> {
    capabilities.map_values(|mounted: MountedProviderCapability<D>| mounted@)
}

/// The capabilities of a component, in author order.
#[derive(Debug)]
pub struct ProviderCapabilityPlan<D> {
    pub(crate) capabilities: Vec<MountedProviderCapability<D>>,
}

impl<D> View for ProviderCapabilityPlan<D> {
    type V = Seq<MountedCapabilityModel<D>>;

    open(crate) spec fn view(&self) -> Seq<MountedCapabilityModel<D>> {
        capability_models(self.capabilities@)
    }
}

impl<D> ProviderCapabilityPlan<D> {
    /// The plan without anything.
    pub fn empty() -> (plan: Self)
        ensures
            plan@ == Seq::<MountedCapabilityModel<D>>::empty(),
    {
        let plan = Self { capabilities: Vec::new() };
        assert(plan@ =~= Seq::<MountedCapabilityModel<D>>::empty());
        plan
    }

    pub fn capabilities(&self) -> (capabilities: &Vec<MountedProviderCapability<D>>)
        ensures
            capability_models(capabilities@) == self@,
    {
        &self.capabilities
    }

    pub fn len(&self) -> (len: usize)
        ensures
            len == self@.len(),
    {
        self.capabilities.len()
    }

    pub fn is_empty(&self) -> (empty: bool)
        ensures
            empty == (self@.len() == 0),
    {
        self.capabilities.is_empty()
    }
}

impl<D> Clone for ProviderCapabilityPlan<D> {
    fn clone(&self) -> (copy: Self)
        ensures
            copy@ == self@,
    {
        let mut copies: Vec<MountedProviderCapability<D>> = Vec::new();
        let count: usize = self.capabilities.len();
        for i in 0..count
            invariant
                count == self.capabilities@.len(),
                copies@.len() == i,
                forall|j: int| 0 <= j < i ==> (#[trigger] copies@[j])@ == self.capabilities@[j]@,
        {
            copies.push(self.capabilities[i].clone());
        }
        assert(capability_models(copies@) =~= self@);
        Self { capabilities: copies }
    }
}

/// What a component amounts to: its documents, its factories and its capabilities.
#[derive(Debug)]
pub struct MountPlan<F, D> {
    pub(crate) system: Document,
    pub(crate) user: Document,
    pub(crate) binding_factories: BindingFactoryPlan<F>,
    pub(crate) provider_capabilities: ProviderCapabilityPlan<D>,
}

/// Model of [`MountPlan`].
pub struct PlanModel<F, D> {
    pub system: Seq<EdgeModel>,
    pub user: Seq<EdgeModel>,
    pub factories: Seq<MountedFactoryModel<F>>,
    pub capabilities: Seq<MountedCapabilityModel<D>>,
}

impl<F, D> View for MountPlan<F, D> {
    type V = PlanModel<F, D>;

    open(crate) spec fn view(&self) -> PlanModel<F, D> {
        PlanModel {
            system: self.system@,
            user: self.user@,
            factories: self.binding_factories@,
            capabilities: self.provider_capabilities@,
        }
    }
}

impl<F, D> MountPlan<F, D> {
    pub fn system_document(&self) -> (document: &Document)
        ensures
            document@ == self@.system,
    {
        &self.system
    }

    pub fn user_document(&self) -> (document: &Document)
        ensures
            document@ == self@.user,
    {
        &self.user
    }

    pub fn binding_factories(&self) -> (plan: &BindingFactoryPlan<F>)
        ensures
            plan@ == self@.factories,
    {
        &self.binding_factories
    }

    pub fn provider_capabilities(&self) -> (plan: &ProviderCapabilityPlan<D>)
        ensures
            plan@ == self@.capabilities,
    {
        &self.provider_capabilities
    }

    pub fn into_parts(self) -> (parts: (
        Document,
        Document,
        BindingFactoryPlan<F>,
        ProviderCapabilityPlan<D>,
    ))
        ensures
            parts.0@ == self@.system,
            parts.1@ == self@.user,
            parts.2@ == self@.factories,
            parts.3@ == self@.capabilities,
    {
        (self.system, self.user, self.binding_factories, self.provider_capabilities)
    }
}

struct NameOwner {
    name: String,
    owner: BindingId,
}

impl View for NameOwner {
    type V = OwnerModel;

    closed spec fn view(&self) -> OwnerModel {
        OwnerModel { name: self.name@, owner: self.owner@ }
    }
}

spec fn owner_models(owners: Seq<NameOwner>) -> Seq<OwnerModel> {
    owners.map_values(|owner: NameOwner| owner@)
}

proof fn lemma_owner_found(owners: Seq<OwnerModel>, name: Seq<char>, at: int)
    requires
        0 <= at < owners.len(),
        owners[at].name == name,
        forall|i: int| 0 <= i < at ==> (#[trigger] owners[i]).name != name,
    ensures
        owner_of(owners, name) == Some(owners[at].owner),
    decreases owners.len(),
{
    if at > 0 {
        let rest = owners.drop_first();
        assert(owners[0].name != name);
        assert forall|i: int| 0 <= i < at - 1 implies (#[trigger] rest[i]).name != name by {
            assert(rest[i] == owners[i + 1]);
        }
        lemma_owner_found(rest, name, at - 1);
    }
}

proof fn lemma_owner_missing(owners: Seq<OwnerModel>, name: Seq<char>)
    requires
        forall|i: int| 0 <= i < owners.len() ==> (#[trigger] owners[i]).name != name,
    ensures
        owner_of(owners, name) is None,
    decreases owners.len(),
{
    if owners.len() > 0 {
        let rest = owners.drop_first();
        assert(owners[0].name != name);
        assert forall|i: int| 0 <= i < rest.len() implies (#[trigger] rest[i]).name != name by {
            assert(rest[i] == owners[i + 1]);
        }
        lemma_owner_missing(rest, name);
    }
}

fn find_owner<'a>(owners: &'a Vec<NameOwner>, name: &String) -> (owner: Option<&'a BindingId>)
    ensures
        match owner {
            Some(owner) => owner_of(owner_models(owners@), name@) == Some(owner@),
            None => owner_of(owner_models(owners@), name@) is None,
        },
{
    let ghost models = owner_models(owners@);
    let count: usize = owners.len();
    for i in 0..count
        invariant
            count == owners@.len(),
            models == owner_models(owners@),
            forall|j: int| 0 <= j < i ==> (#[trigger] models[j]).name != name@,
    {
        assert(models[i as int] == owners@[i as int]@);
        if owners[i].name == *name {
            proof {
                lemma_owner_found(models, name@, i as int);
            }
            return Some(&owners[i].owner);
        }
    }
    proof {
        lemma_owner_missing(models, name@);
    }
    None
}

proof fn lemma_route_found<F>(
    factories: Seq<MountedFactoryModel<F>>,
    route: RouteModel,
    at: int,
)
    requires
        0 <= at < factories.len(),
        factories[at].declaration.route == route,
        forall|i: int| 0 <= i < at ==> (#[trigger] factories[i]).declaration.route != route,
    ensures
        route_owner(factories, route) == Some(factories[at].id),
    decreases factories.len(),
{
    if at > 0 {
        let rest = factories.drop_first();
        assert(factories[0].declaration.route != route);
        assert forall|i: int| 0 <= i < at - 1 implies (#[trigger] rest[i]).declaration.route
            != route by {
            assert(rest[i] == factories[i + 1]);
        }
        lemma_route_found(rest, route, at - 1);
    }
}

proof fn lemma_route_missing<F>(factories: Seq<MountedFactoryModel<F>>, route: RouteModel)
    requires
        forall|i: int|
            0 <= i < factories.len() ==> (#[trigger] factories[i]).declaration.route != route,
    ensures
        route_owner(factories, route) is None,
    decreases factories.len(),
{
    if factories.len() > 0 {
        let rest = factories.drop_first();
        assert(factories[0].declaration.route != route);
        assert forall|i: int| 0 <= i < rest.len() implies (#[trigger] rest[i]).declaration.route
            != route by {
            assert(rest[i] == factories[i + 1]);
        }
        lemma_route_missing(rest, route);
    }
}

fn find_route<'a, F>(
    factories: &'a Vec<MountedBindingFactory<F>>,
    route: &RuntimeRoute,
) -> (owner: Option<&'a BindingId>)
    ensures
        match owner {
            Some(owner) => route_owner(factory_models(factories@), route@) == Some(owner@),
            None => route_owner(factory_models(factories@), route@) is None,
        },
{
    let ghost models = factory_models(factories@);
    let count: usize = factories.len();
    for i in 0..count
        invariant
            count == factories@.len(),
            models == factory_models(factories@),
            forall|j: int| 0 <= j < i ==> (#[trigger] models[j]).declaration.route != route@,
    {
        assert(models[i as int] == factories@[i as int]@);
        if factories[i].declaration.route == *route {
            proof {
                lemma_route_found(models, route@, i as int);
            }
            return Some(&factories[i].id);
        }
    }
    proof {
        lemma_route_missing(models, route@);
    }
    None
}

/// Claims the names of a capability's tools.
fn claim_tools(
    tools: &mut Vec<NameOwner>,
    specs: &Vec<ProviderToolSpec>,
    owner: &BindingId,
) -> (result: Result<(), MountPlanError>)
    ensures
        match result {
            Ok(_) => {
                &&& tool_fault(owner_models(old(tools)@), spec_models(specs@), owner@) is None
                &&& owner_models(final(tools)@) == owner_models(old(tools)@) + tools_of(
                    spec_models(specs@),
                    owner@,
                )
            },
            Err(error) => tool_fault(owner_models(old(tools)@), spec_models(specs@), owner@)
                == Some(error@),
        },
{
    let ghost declared = owner_models(tools@);
    let ghost models = spec_models(specs@);
    let count: usize = specs.len();
    assert(tools_of(models.take(0), owner@) =~= Seq::<OwnerModel>::empty());
    assert(declared + Seq::<OwnerModel>::empty() =~= declared);
    for i in 0..count
        invariant
            count == specs@.len(),
            models == spec_models(specs@),
            owner_models(tools@) == declared + tools_of(models.take(i as int), owner@),
            tool_fault(declared, models.take(i as int), owner@) is None,
            declared == owner_models(old(tools)@),
    {
        let name: String = specs[i].name.clone();
        let ghost before = models.take(i as int);
        let ghost after = models.take(i as int + 1);
        proof {
            assert(models[i as int] == specs@[i as int]@);
            assert(after.drop_last() =~= before);
            assert(after.last().name == name@);
        }
        let found = match find_owner(tools, &name) {
            Some(first) => Some(first.clone()),
            None => None,
        };
        match found {
            Some(first) => {
                proof {
                    lemma_tool_fault_stays(declared, models, owner@, i as int + 1);
                }
                return Err(
                    MountPlanError::DuplicateProviderTool { name, first, second: owner.clone() },
                );
            },
            None => {},
        }
        let ghost so_far = owner_models(tools@);
        let entry = NameOwner { name, owner: owner.clone() };
        let ghost added = entry@;
        tools.push(entry);
        assert(owner_models(tools@) =~= so_far.push(added));
        assert(tools_of(after, owner@) =~= tools_of(before, owner@).push(added));
        assert(so_far.push(added) =~= declared + tools_of(after, owner@));
    }
    assert(models.take(models.len() as int) =~= models);
    Ok(())
}

proof fn lemma_tool_fault_stays(
    declared: Seq<OwnerModel>,
    specs: Seq<ToolSpecModel>,
    owner: BindingIdModel,
    at: int,
)
    requires
        0 <= at <= specs.len(),
        tool_fault(declared, specs.take(at), owner) is Some,
    ensures
        tool_fault(declared, specs, owner) == tool_fault(declared, specs.take(at), owner),
    decreases specs.len(),
{
    if at < specs.len() {
        assert(specs.drop_last().take(at) =~= specs.take(at));
        lemma_tool_fault_stays(declared, specs.drop_last(), owner, at);
    } else {
        assert(specs.take(at) =~= specs);
    }
}

proof fn lemma_mount_fault_stays<F, D>(
    bindings: Seq<PlacedModel<DeclarationModel<F, D>>>,
    require_durable: bool,
    at: int,
)
    requires
        0 <= at <= bindings.len(),
        mount_fault(bindings.take(at), require_durable) is Some,
    ensures
        mount_fault(bindings, require_durable) == mount_fault(bindings.take(at), require_durable),
    decreases bindings.len(),
{
    if at < bindings.len() {
        assert(bindings.drop_last().take(at) =~= bindings.take(at));
        lemma_mount_fault_stays(bindings.drop_last(), require_durable, at);
    } else {
        assert(bindings.take(at) =~= bindings);
    }
}

/// Takes the declarations of a component into a plan. Every declaration stands in
/// the system prompt; durable ids, routes and tool names are declared once each;
/// and under `require_durable` every declaration is durable. The first declaration
/// that breaks this is the error.
fn compile_mount_provided_inner<F, D>(
    turn: CompiledTurn<RuntimeDeclaration<F, D>>,
    require_durable: bool,
) -> (result: Result<MountPlan<F, D>, MountPlanError>)
    ensures
        match result {
            Ok(plan) => {
                &&& mount_fault(placed_models(turn.bindings@), require_durable) is None
                &&& plan@ == mount_plan(turn)
            },
            Err(error) => mount_fault(placed_models(turn.bindings@), require_durable) == Some(
                error@,
            ),
        },
{
    let ghost models = placed_models(turn.bindings@);
    let mut factories: Vec<MountedBindingFactory<F>> = Vec::new();
    let mut capabilities: Vec<MountedProviderCapability<D>> = Vec::new();
    let mut ids: Vec<NameOwner> = Vec::new();
    let mut tools: Vec<NameOwner> = Vec::new();
    let CompiledTurn { system, user, bindings } = turn;
    let ghost all = bindings@;
    proof {
        assert(models.take(0) =~= Seq::empty());
        assert(owner_models(ids@) =~= Seq::empty());
        assert(factory_models(factories@) =~= Seq::empty());
        assert(capability_models(capabilities@) =~= Seq::empty());
    }
    for placed in iter: bindings
        invariant
            iter.seq() == all,
            models == placed_models(all),
            models == placed_models(turn.bindings@),
            mount_fault(models.take(iter.index() as int), require_durable) is None,
            owner_models(ids@) == declared_ids(models.take(iter.index() as int)),
            owner_models(tools@) == declared_tools(models.take(iter.index() as int)),
            factory_models(factories@) == mounted_factories(models.take(iter.index() as int)),
            capability_models(capabilities@) == mounted_capabilities(
                models.take(iter.index() as int),
            ),
    {
        let ghost at = iter.index() as int;
        let ghost before = models.take(at);
        let ghost after = models.take(at + 1);
        let ghost model = placed@;
        let ghost before_ids = owner_models(ids@);
        let ghost before_tools = owner_models(tools@);
        let ghost before_factories = factory_models(factories@);
        let ghost before_capabilities = capability_models(capabilities@);
        proof {
            assert(models[at] == all[at]@);
            assert(placed == all[at]);
            assert(after.drop_last() =~= before);
            assert(after.last() == model);
            if binding_fault(before, model, require_durable) is Some {
                assert(mount_fault(after, require_durable) is Some);
                lemma_mount_fault_stays(models, require_durable, at + 1);
            }
        }
        let PlacedBinding { id, role, binding } = placed;
        let in_system = match role {
            Some(PromptRole::System) => true,
            _ => false,
        };
        if !in_system {
            return Err(MountPlanError::RuntimeDeclarationOutsideSystem { id, role });
        }
        let durable_id: Option<String> = match binding.declaration_id() {
            Some(name) => Some(name.to_owned()),
            None => None,
        };
        match durable_id {
            None => {
                if require_durable {
                    return Err(MountPlanError::NonDurableRuntimeDeclaration { id });
                }
            },
            Some(declaration_id) => {
                let found = match find_owner(&ids, &declaration_id) {
                    Some(first) => Some(first.clone()),
                    None => None,
                };
                match found {
                    Some(first) => {
                        return Err(
                            MountPlanError::DuplicateRuntimeDeclaration {
                                declaration_id,
                                first,
                                second: id,
                            },
                        );
                    },
                    None => {},
                }
                let entry = NameOwner { name: declaration_id, owner: id.clone() };
                let ghost added = entry@;
                ids.push(entry);
                assert(owner_models(ids@) =~= before_ids.push(added));
            },
        }
        assert(owner_models(ids@) == declared_ids(after));
        match binding {
            RuntimeDeclaration::BindingFactory(declaration) => {
                let found = match find_route(&factories, declaration.route()) {
                    Some(first) => Some(first.clone()),
                    None => None,
                };
                match found {
                    Some(first) => {
                        return Err(
                            MountPlanError::DuplicateBindingRoute {
                                route: declaration.route.clone(),
                                first,
                                second: id,
                            },
                        );
                    },
                    None => {},
                }
                let mounted = MountedBindingFactory { id, declaration };
                let ghost added = mounted@;
                factories.push(mounted);
                assert(factory_models(factories@) =~= before_factories.push(added));
            },
            RuntimeDeclaration::ProviderCapability(declaration) => {
                match claim_tools(&mut tools, declaration.specs(), &id) {
                    Ok(_) => {},
                    Err(error) => return Err(error),
                }
                let mounted = MountedProviderCapability { id, declaration };
                let ghost added = mounted@;
                capabilities.push(mounted);
                assert(capability_models(capabilities@) =~= before_capabilities.push(added));
            },
        }
    }
    assert(models.take(models.len() as int) =~= models);
    Ok(
        MountPlan {
            system,
            user,
            binding_factories: BindingFactoryPlan { factories },
            provider_capabilities: ProviderCapabilityPlan { capabilities },
        },
    )
}

/// The plan of a component all of whose declarations can be mounted.
pub open spec fn mount_plan<F, D>(turn: CompiledTurn<RuntimeDeclaration<F, D>>) -> PlanModel<F, D> {
    PlanModel {
        system: turn.system@,
        user: turn.user@,
        factories: mounted_factories(placed_models(turn.bindings@)),
        capabilities: mounted_capabilities(placed_models(turn.bindings@)),
    }
}

/// Takes the declarations of a component into a plan.
pub fn compile_mount_provided<F, D>(turn: CompiledTurn<RuntimeDeclaration<F, D>>) -> (result:
    Result<MountPlan<F, D>, MountPlanError>)
    ensures
        match result {
            Ok(plan) => {
                &&& mount_fault(placed_models(turn.bindings@), false) is None
                &&& plan@ == mount_plan(turn)
            },
            Err(error) => mount_fault(placed_models(turn.bindings@), false) == Some(error@),
        },
{
    compile_mount_provided_inner(turn, false)
}

/// Takes the declarations of a component into a plan. All of them are durable.
pub fn compile_durable_mount_provided<F, D>(
    turn: CompiledTurn<RuntimeDeclaration<F, D>>,
) -> (result: Result<MountPlan<F, D>, MountPlanError>)
    ensures
        match result {
            Ok(plan) => {
                &&& mount_fault(placed_models(turn.bindings@), true) is None
                &&& plan@ == mount_plan(turn)
            },
            Err(error) => mount_fault(placed_models(turn.bindings@), true) == Some(error@),
        },
{
    compile_mount_provided_inner(turn, true)
}

} // verus!
