//! How authors declare bindings and provider tools.

use std::sync::Arc;
use vstd::prelude::*;
use crate::component::contract::{is_first_repeat, is_tool_group, no_specs_error};
use crate::component::contract::{repeated_spec_error, structural_key};
use crate::component::contract::{CapabilityContractModel, ProviderCapabilityContract};
use crate::component::contract::{RuntimeContract, RuntimeContractModel};
use crate::component::declaration::{CapabilityModel, DeclarationModel, DispatcherModel};
use crate::component::declaration::{FactoryDeclaration, FactoryModel};
use crate::component::declaration::{ProviderCapabilityDeclaration, RuntimeDeclaration};
use crate::component::durable::{DurableComponent, LeafModel};
use crate::component::identity::{is_key, BindingKey, ComponentErrorModel};
use crate::component::mountable::{component, Component};
use crate::component::tools::{spec_models, ProviderToolSpec, RouteModel, RuntimeRoute};
use crate::component::tools::ToolSpecModel;
use crate::component::tree::{tree_models, ComponentNode, TreeModel};
use crate::pom::document::Document;
use crate::pom::model::EdgeModel;

verus! {

/// A binding under its key, or the failure of a key that is none.
pub open spec fn binding_node<V>(key: Seq<char>, binding: V) -> TreeModel<V> {
    if is_key(key) {
        TreeModel::Binding { key, binding }
    } else {
        TreeModel::Failed(ComponentErrorModel::InvalidKey { value: key })
    }
}

/// A binding under its key.
pub fn binding<B: View>(key: &str, value: B) -> (node: ComponentNode<B>)
    ensures
        node@ == binding_node(key@, value@),
{
    match BindingKey::new(key) {
        Ok(key) => ComponentNode::Binding { key, binding: value },
        Err(error) => ComponentNode::Failed(error),
    }
}

/// A binding factory behind its prompt.
pub open spec fn factory_nodes<F, D>(
    key: Seq<char>,
    prompt: Seq<EdgeModel>,
    route: RouteModel,
    instantiate: F,
) -> Seq<TreeModel<DeclarationModel<F, D>>> {
    seq![
        TreeModel::Pom(prompt),
        binding_node(
            key,
            DeclarationModel::BindingFactory(FactoryModel { route, contract: None, instantiate }),
        ),
    ]
}

/// A binding factory behind its prompt.
pub fn binding_factory_with_context<F, D>(
    key: &str,
    prompt_contract: Document,
    route: RuntimeRoute,
    instantiate: Arc<F>,
) -> (result: Component<F, D>)
    ensures
        result@ == factory_nodes::<F, D>(key@, prompt_contract@, route@, *instantiate),
{
    let declaration = RuntimeDeclaration::<F, D>::BindingFactory(
        FactoryDeclaration::with_context(route, instantiate),
    );
    let ghost model = declaration@;
    let mut nodes: Vec<ComponentNode<RuntimeDeclaration<F, D>>> = Vec::new();
    nodes.push(ComponentNode::Pom(prompt_contract));
    nodes.push(binding(key, declaration));
    assert(tree_models(nodes@) =~= seq![
        TreeModel::Pom(prompt_contract@),
        binding_node(key@, model),
    ]);
    component(nodes)
}

/// A binding factory behind its prompt, with a maker that reads nothing of its context.
pub fn binding_factory<F, D>(
    key: &str,
    prompt_contract: Document,
    route: RuntimeRoute,
    instantiate: Arc<F>,
) -> (result: Component<F, D>)
    ensures
        result@ == factory_nodes::<F, D>(key@, prompt_contract@, route@, *instantiate),
{
    binding_factory_with_context(key, prompt_contract, route, instantiate)
}

/// The leaf of a durable binding.
pub open spec fn durable_binding_leaf<F, D>(
    key: Seq<char>,
    contract: RuntimeContractModel,
    prompt: Seq<EdgeModel>,
    route: RouteModel,
    instantiate: F,
) -> LeafModel<F, D> {
    LeafModel {
        name: "agentview::component::DurableBinding"@,
        key,
        prompt: Some(prompt),
        declaration: DeclarationModel::BindingFactory(
            FactoryModel { route, contract: Some(contract), instantiate },
        ),
    }
}

/// A durable component under a key of the author's, or the failure of a key that is
/// none.
pub open spec fn under_key<F, D>(key: Seq<char>, leaf: LeafModel<F, D>) -> Result<
    LeafModel<F, D>,
    ComponentErrorModel,
> {
    if is_key(key) {
        Ok(LeafModel { key, ..leaf })
    } else {
        Err(ComponentErrorModel::InvalidKey { value: key })
    }
}

/// A durable binding, placed by the id of its contract.
pub fn durable_binding_factory_with_context<F, D>(
    contract: RuntimeContract,
    prompt_contract: Document,
    route: RuntimeRoute,
    instantiate: Arc<F>,
) -> (component: DurableComponent<F, D>)
    ensures
        component@ == Ok::<_, ComponentErrorModel>(
            durable_binding_leaf::<F, D>(
                structural_key(contract@.id),
                contract@,
                prompt_contract@,
                route@,
                *instantiate,
            ),
        ),
{
    DurableComponent::binding(
        contract,
        prompt_contract,
        FactoryDeclaration::with_context(route, instantiate),
    )
}

/// A durable binding under a key of the author's.
pub fn durable_binding_factory_with_context_key<F, D>(
    key: &str,
    contract: RuntimeContract,
    prompt_contract: Document,
    route: RuntimeRoute,
    instantiate: Arc<F>,
) -> (component: DurableComponent<F, D>)
    ensures
        component@ == under_key(
            key@,
            durable_binding_leaf::<F, D>(
                key@,
                contract@,
                prompt_contract@,
                route@,
                *instantiate,
            ),
        ),
{
    durable_binding_factory_with_context(contract, prompt_contract, route, instantiate).key(key)
}

/// A durable binding, placed by the id of its contract, with a maker that reads nothing
/// of its context.
pub fn durable_binding_factory<F, D>(
    contract: RuntimeContract,
    prompt_contract: Document,
    route: RuntimeRoute,
    instantiate: Arc<F>,
) -> (component: DurableComponent<F, D>)
    ensures
        component@ == Ok::<_, ComponentErrorModel>(
            durable_binding_leaf::<F, D>(
                structural_key(contract@.id),
                contract@,
                prompt_contract@,
                route@,
                *instantiate,
            ),
        ),
{
    durable_binding_factory_with_context(contract, prompt_contract, route, instantiate)
}

/// A durable binding under a key of the author's, with a maker that reads nothing of its
/// context.
pub fn durable_binding_factory_with_key<F, D>(
    key: &str,
    contract: RuntimeContract,
    prompt_contract: Document,
    route: RuntimeRoute,
    instantiate: Arc<F>,
) -> (component: DurableComponent<F, D>)
    ensures
        component@ == under_key(
            key@,
            durable_binding_leaf::<F, D>(
                key@,
                contract@,
                prompt_contract@,
                route@,
                *instantiate,
            ),
        ),
{
    durable_binding_factory(contract, prompt_contract, route, instantiate).key(key)
}

/// Whether an error is the one that a broken tool group gives.
pub open spec fn is_group_error(specs: Seq<ToolSpecModel>, error: ComponentErrorModel) -> bool {
    if specs.len() == 0 {
        error == no_specs_error()
    } else {
        exists|at: int| #[trigger]
            is_first_repeat(specs, at) && error == repeated_spec_error(specs[at].name)
    }
}

/// A capability with its own dispatcher.
pub open spec fn embedded_capability<H>(specs: Seq<ToolSpecModel>, instantiate: H) -> CapabilityModel<
    H,
> {
    CapabilityModel {
        specs,
        contract: None,
        dispatcher: Some(DispatcherModel { host_version: None, instantiate }),
    }
}

/// Whether nodes are provider tools with their own dispatcher, or the failure of their
/// group, or else that of their key.
pub open spec fn are_tool_nodes<F, D>(
    nodes: Seq<TreeModel<DeclarationModel<F, D>>>,
    key: Seq<char>,
    specs: Seq<ToolSpecModel>,
    instantiate: D,
) -> bool {
    if is_tool_group(specs) {
        nodes == seq![
            binding_node(
                key,
                DeclarationModel::<F, D>::ProviderCapability(
                    embedded_capability(specs, instantiate),
                ),
            ),
        ]
    } else {
        nodes.len() == 1 && nodes[0] is Failed && is_group_error(specs, nodes[0]->Failed_0)
    }
}

/// Provider tools with their own dispatcher. A broken group fails before a bad key
/// does.
pub fn provider_tools_with_context<F, D>(
    key: &str,
    specs: Vec<ProviderToolSpec>,
    instantiate_dispatcher: Arc<D>,
) -> (component: Component<F, D>)
    ensures
        are_tool_nodes(component@, key@, spec_models(specs@), *instantiate_dispatcher),
{
    assert(spec_models(specs@).len() == specs@.len());
    match ProviderCapabilityDeclaration::with_context(specs, instantiate_dispatcher) {
        Ok(declaration) => Component::from_node(
            binding(key, RuntimeDeclaration::ProviderCapability(declaration)),
        ),
        Err(error) => Component::from_error(error),
    }
}

/// Provider tools with their own dispatcher, whose maker reads nothing of its context. A
/// broken group fails before a bad key does.
pub fn provider_tools<F, D>(
    key: &str,
    specs: Vec<ProviderToolSpec>,
    instantiate_dispatcher: Arc<D>,
) -> (component: Component<F, D>)
    ensures
        are_tool_nodes(component@, key@, spec_models(specs@), *instantiate_dispatcher),
{
    provider_tools_with_context(key, specs, instantiate_dispatcher)
}

fn one_spec(spec: ProviderToolSpec) -> (specs: Vec<ProviderToolSpec>)
    ensures
        spec_models(specs@) == seq![spec@],
        is_tool_group(seq![spec@]),
{
    let mut specs: Vec<ProviderToolSpec> = Vec::new();
    let ghost model = spec@;
    specs.push(spec);
    assert(spec_models(specs@) =~= seq![model]);
    specs
}

/// One provider tool with its own dispatcher.
pub fn provider_tool_with_context<F, D>(
    key: &str,
    spec: ProviderToolSpec,
    instantiate_dispatcher: Arc<D>,
) -> (component: Component<F, D>)
    ensures
        component@ == seq![
            binding_node(
                key@,
                DeclarationModel::<F, D>::ProviderCapability(
                    embedded_capability(seq![spec@], *instantiate_dispatcher),
                ),
            ),
        ],
{
    provider_tools_with_context(key, one_spec(spec), instantiate_dispatcher)
}

/// One provider tool with its own dispatcher, whose maker reads nothing of its context.
pub fn provider_tool<F, D>(
    key: &str,
    spec: ProviderToolSpec,
    instantiate_dispatcher: Arc<D>,
) -> (component: Component<F, D>)
    ensures
        component@ == seq![
            binding_node(
                key@,
                DeclarationModel::<F, D>::ProviderCapability(
                    embedded_capability(seq![spec@], *instantiate_dispatcher),
                ),
            ),
        ],
{
    provider_tools(key, one_spec(spec), instantiate_dispatcher)
}

/// Durable provider tools whose dispatcher the host brings.
pub fn durable_provider_contract<F, D>(
    contract: ProviderCapabilityContract,
    prompt_contract: Document,
) -> (component: DurableComponent<F, D>)
    ensures
        component@ == Ok::<LeafModel<F, D>, ComponentErrorModel>(
            LeafModel {
                name: "agentview::component::DurableProviderContract"@,
                key: structural_key(contract@.declaration_id),
                prompt: Some(prompt_contract@),
                declaration: DeclarationModel::ProviderCapability(
                    CapabilityModel {
                        specs: contract@.specs,
                        contract: Some(contract@),
                        dispatcher: None,
                    },
                ),
            },
        ),
{
    DurableComponent::provider_contract(contract, prompt_contract)
}

/// The leaf of durable provider tools with their own dispatcher.
pub open spec fn durable_tools_leaf<F, D>(
    key: Seq<char>,
    contract: RuntimeContractModel,
    prompt: Seq<EdgeModel>,
    specs: Seq<ToolSpecModel>,
    instantiate: D,
) -> LeafModel<F, D> {
    LeafModel {
        name: "agentview::component::DurableProviderTools"@,
        key,
        prompt: Some(prompt),
        declaration: DeclarationModel::ProviderCapability(
            CapabilityModel {
                specs,
                contract: Some(
                    CapabilityContractModel {
                        declaration_id: contract.id,
                        contract_version: contract.implementation_version,
                        specs,
                    },
                ),
                dispatcher: Some(
                    DispatcherModel {
                        host_version: Some(contract.implementation_version),
                        instantiate,
                    },
                ),
            },
        ),
    }
}

/// Whether a component is that of durable provider tools under a key, or the failure of
/// their group.
pub open spec fn is_tools_component<F, D>(
    component: Result<LeafModel<F, D>, ComponentErrorModel>,
    key: Seq<char>,
    contract: RuntimeContractModel,
    prompt: Seq<EdgeModel>,
    specs: Seq<ToolSpecModel>,
    instantiate: D,
) -> bool {
    if is_tool_group(specs) {
        component == Ok::<_, ComponentErrorModel>(
            durable_tools_leaf::<F, D>(key, contract, prompt, specs, instantiate),
        )
    } else {
        component is Err && is_group_error(specs, component->Err_0)
    }
}

/// Durable provider tools with their own dispatcher.
pub fn durable_provider_tools_with_context<F, D>(
    contract: RuntimeContract,
    prompt_contract: Document,
    specs: Vec<ProviderToolSpec>,
    instantiate_dispatcher: Arc<D>,
) -> (component: DurableComponent<F, D>)
    ensures
        is_tools_component(
            component@,
            structural_key(contract@.id),
            contract@,
            prompt_contract@,
            spec_models(specs@),
            *instantiate_dispatcher,
        ),
{
    assert(spec_models(specs@).len() == specs@.len());
    match ProviderCapabilityDeclaration::with_context(specs, instantiate_dispatcher) {
        Ok(declaration) => DurableComponent::provider(contract, prompt_contract, declaration),
        Err(error) => DurableComponent::from_error(error),
    }
}

/// Durable provider tools under a key of the author's. A bad key fails before a broken
/// group does.
pub fn durable_provider_tools_with_context_key<F, D>(
    key: &str,
    contract: RuntimeContract,
    prompt_contract: Document,
    specs: Vec<ProviderToolSpec>,
    instantiate_dispatcher: Arc<D>,
) -> (component: DurableComponent<F, D>)
    ensures
        !is_key(key@) ==> component@ == Err::<LeafModel<F, D>, ComponentErrorModel>(
            ComponentErrorModel::InvalidKey { value: key@ },
        ),
        is_key(key@) ==> is_tools_component(
            component@,
            key@,
            contract@,
            prompt_contract@,
            spec_models(specs@),
            *instantiate_dispatcher,
        ),
{
    durable_provider_tools_with_context(contract, prompt_contract, specs, instantiate_dispatcher).key(key)
}

/// Durable provider tools with their own dispatcher, whose maker reads nothing of its
/// context.
pub fn durable_provider_tools<F, D>(
    contract: RuntimeContract,
    prompt_contract: Document,
    specs: Vec<ProviderToolSpec>,
    instantiate_dispatcher: Arc<D>,
) -> (component: DurableComponent<F, D>)
    ensures
        is_tools_component(
            component@,
            structural_key(contract@.id),
            contract@,
            prompt_contract@,
            spec_models(specs@),
            *instantiate_dispatcher,
        ),
{
    durable_provider_tools_with_context(contract, prompt_contract, specs, instantiate_dispatcher)
}

/// Durable provider tools under a key of the author's, with a maker that reads nothing of
/// its context. A bad key fails before a broken group does.
pub fn durable_provider_tools_with_key<F, D>(
    key: &str,
    contract: RuntimeContract,
    prompt_contract: Document,
    specs: Vec<ProviderToolSpec>,
    instantiate_dispatcher: Arc<D>,
) -> (component: DurableComponent<F, D>)
    ensures
        !is_key(key@) ==> component@ == Err::<LeafModel<F, D>, ComponentErrorModel>(
            ComponentErrorModel::InvalidKey { value: key@ },
        ),
        is_key(key@) ==> is_tools_component(
            component@,
            key@,
            contract@,
            prompt_contract@,
            spec_models(specs@),
            *instantiate_dispatcher,
        ),
{
    durable_provider_tools(contract, prompt_contract, specs, instantiate_dispatcher).key(key)
}

/// One durable provider tool with its own dispatcher.
pub fn durable_provider_tool_with_context<F, D>(
    contract: RuntimeContract,
    prompt_contract: Document,
    spec: ProviderToolSpec,
    instantiate_dispatcher: Arc<D>,
) -> (component: DurableComponent<F, D>)
    ensures
        component@ == Ok::<_, ComponentErrorModel>(
            durable_tools_leaf::<F, D>(
                structural_key(contract@.id),
                contract@,
                prompt_contract@,
                seq![spec@],
                *instantiate_dispatcher,
            ),
        ),
{
    durable_provider_tools_with_context(contract, prompt_contract, one_spec(spec), instantiate_dispatcher)
}

/// One durable provider tool under a key of the author's.
pub fn durable_provider_tool_with_context_key<F, D>(
    key: &str,
    contract: RuntimeContract,
    prompt_contract: Document,
    spec: ProviderToolSpec,
    instantiate_dispatcher: Arc<D>,
) -> (component: DurableComponent<F, D>)
    ensures
        component@ == under_key(
            key@,
            durable_tools_leaf::<F, D>(
                key@,
                contract@,
                prompt_contract@,
                seq![spec@],
                *instantiate_dispatcher,
            ),
        ),
{
    durable_provider_tool_with_context(contract, prompt_contract, spec, instantiate_dispatcher).key(key)
}

/// One durable provider tool with its own dispatcher, whose maker reads nothing of its
/// context.
pub fn durable_provider_tool<F, D>(
    contract: RuntimeContract,
    prompt_contract: Document,
    spec: ProviderToolSpec,
    instantiate_dispatcher: Arc<D>,
) -> (component: DurableComponent<F, D>)
    ensures
        component@ == Ok::<_, ComponentErrorModel>(
            durable_tools_leaf::<F, D>(
                structural_key(contract@.id),
                contract@,
                prompt_contract@,
                seq![spec@],
                *instantiate_dispatcher,
            ),
        ),
{
    durable_provider_tools(contract, prompt_contract, one_spec(spec), instantiate_dispatcher)
}

/// One durable provider tool under a key of the author's, with a maker that reads nothing
/// of its context.
pub fn durable_provider_tool_with_key<F, D>(
    key: &str,
    contract: RuntimeContract,
    prompt_contract: Document,
    spec: ProviderToolSpec,
    instantiate_dispatcher: Arc<D>,
) -> (component: DurableComponent<F, D>)
    ensures
        component@ == under_key(
            key@,
            durable_tools_leaf::<F, D>(
                key@,
                contract@,
                prompt_contract@,
                seq![spec@],
                *instantiate_dispatcher,
            ),
        ),
{
    durable_provider_tool(contract, prompt_contract, spec, instantiate_dispatcher).key(key)
}

} // verus!
