//! What authors write down, and what becomes of it.

use vstd::prelude::*;
use crate::component::attempt_start::{binding_cx, mounted_from, xml_factories, StartedBinding};
use crate::component::authoring::{are_tool_nodes, binding_node, durable_binding_leaf};
use crate::component::authoring::{durable_tools_leaf, factory_nodes};
use crate::component::authoring::{is_group_error, is_tools_component, under_key};
use crate::component::binding::{phase_name, BindingPhase, OriginModel};
use crate::component::channel_map::{emission_mapped, update_mapped, ChannelMap};
use crate::component::channels::{TurnChannels, TurnEmission, UpdateModel};
use crate::component::contract::{is_durable_text, is_first_repeat, is_tool_group, repeated_spec_error};
use crate::component::contract::{repeats_earlier, RuntimeContractModel};
use crate::component::declaration::{declaration_mapped, CapabilityModel, DeclarationModel};
use crate::component::durable::LeafModel;
use crate::component::durable_keys::{key_error_message, KeyErrorModel};
use crate::component::identity::{child_path, is_key, keyed_child_path, AttemptModel};
use crate::component::identity::ComponentErrorModel;
use crate::component::live::uninterpreted;
use crate::component::mount::{MountedFactoryModel, PlacedModel};
use crate::component::mountable::keyed_component;
use crate::component::sink::{all_updates, bindings_of, distinct_tags, repeats_tag};
use crate::component::handlers::StreamingBindingModel;
use crate::component::stateful_provider::{adapter_phase_name, needs_operation, AdapterPhase};
use crate::component::streaming::{contract_tag, keyed_view};
use crate::component::tools::{call_identity, xml_route, RouteModel, ToolSpecModel};
use crate::component::tree::{tree_error, TreeModel};
use crate::pom::model::{is_xml_name, EdgeModel, XmlModel};
use crate::pom::xml::{attribute_value, has_attribute};
use crate::text_chars::{decimal, is_control};

verus! {

/// A key is any text that is not empty and holds no control character. So is every durable
/// name.
pub proof fn law_keys_are_plain_text(value: Seq<char>)
    ensures
        is_key(value) <==> value.len() > 0 && forall|i: int|
            0 <= i < value.len() ==> !is_control(#[trigger] value[i]),
        is_durable_text(value) <==> value.len() > 0 && forall|i: int|
            0 <= i < value.len() ==> !is_control(#[trigger] value[i]),
{
}

/// Control characters are those of the two control blocks.
pub proof fn law_control_characters(c: char)
    ensures
        is_control(c) <==> (0 <= c as int <= 31 || 127 <= c as int <= 159),
{
}

/// A component is named behind its parent, with its place or with its key. The two never
/// meet.
pub proof fn law_paths_name_their_component(
    parent: Seq<char>,
    name: Seq<char>,
    position: nat,
    key: Seq<char>,
)
    ensures
        child_path(parent, name, position) == parent + seq!['/'] + name + seq!['#'] + decimal(
            position,
        ),
        keyed_child_path(parent, name, key) == parent + seq!['/'] + name + seq!['['] + key
            + seq![']'],
        child_path(parent, name, position) != keyed_child_path(parent, name, key),
{
    let by_place = child_path(parent, name, position);
    let by_key = keyed_child_path(parent, name, key);
    let at = parent.len() + 1 + name.len();
    assert(by_place[at as int] == '#');
    assert(by_key[at as int] == '[');
}

/// What is said of a value that is no key names what it was meant for, and the value.
pub proof fn law_broken_keys_are_named(error: KeyErrorModel)
    ensures
        key_error_message(error) == "invalid "@ + error.kind + " `"@ + error.value
            + "`; the value must be non-empty and contain no control characters"@,
{
}

/// A binding stands under its key, and fails where that is none.
pub proof fn law_bindings_need_a_key<V>(key: Seq<char>, binding: V)
    ensures
        is_key(key) ==> binding_node(key, binding) == (TreeModel::Binding { key, binding }),
        !is_key(key) ==> binding_node(key, binding) == TreeModel::<V>::Failed(
            ComponentErrorModel::InvalidKey { value: key },
        ),
{
}

/// A factory stands behind its prompt, on its route.
pub proof fn law_factories_stand_behind_their_prompt<F, D>(
    key: Seq<char>,
    prompt: Seq<EdgeModel>,
    route: RouteModel,
    instantiate: F,
)
    ensures
        ({
            let nodes = factory_nodes::<F, D>(key, prompt, route, instantiate);
            &&& nodes.len() == 2
            &&& nodes[0] == TreeModel::<DeclarationModel<F, D>>::Pom(prompt)
            &&& is_key(key) ==> {
                &&& nodes[1] is Binding
                &&& nodes[1]->Binding_key == key
                &&& nodes[1]->binding is BindingFactory
                &&& nodes[1]->binding->BindingFactory_0.route == route
                &&& nodes[1]->binding->BindingFactory_0.instantiate == instantiate
                &&& nodes[1]->binding.declaration_id() is None
            }
            &&& !is_key(key) ==> nodes[1] is Failed
        }),
{
}

/// The component of a durable binding says its prompt and declares one factory on its route,
/// under the id and the version of its contract.
pub proof fn law_durable_bindings_declare_their_contract<F, D>(
    key: Seq<char>,
    contract: RuntimeContractModel,
    prompt: Seq<EdgeModel>,
    route: RouteModel,
    instantiate: F,
)
    ensures
        ({
            let leaf = durable_binding_leaf::<F, D>(key, contract, prompt, route, instantiate);
            &&& leaf.key == key
            &&& leaf.prompt == Some(prompt)
            &&& leaf.name == "agentview::component::DurableBinding"@
            &&& leaf.declaration is BindingFactory
            &&& leaf.declaration->BindingFactory_0.route == route
            &&& leaf.declaration->BindingFactory_0.instantiate == instantiate
            &&& leaf.declaration->BindingFactory_0.contract == Some(contract)
            &&& leaf.declaration.declaration_id() == Some(contract.id)
        }),
{
}

/// The component of durable tools says its prompt and declares those tools, under the id and
/// the version of its contract, with a dispatcher of the same version.
pub proof fn law_durable_tools_declare_their_contract<F, D>(
    key: Seq<char>,
    contract: RuntimeContractModel,
    prompt: Seq<EdgeModel>,
    specs: Seq<ToolSpecModel>,
    instantiate: D,
)
    ensures
        ({
            let leaf = durable_tools_leaf::<F, D>(key, contract, prompt, specs, instantiate);
            let tools = leaf.declaration->ProviderCapability_0;
            &&& leaf.key == key
            &&& leaf.prompt == Some(prompt)
            &&& leaf.name == "agentview::component::DurableProviderTools"@
            &&& leaf.declaration is ProviderCapability
            &&& tools.specs == specs
            &&& tools.contract is Some
            &&& tools.contract->Some_0.declaration_id == contract.id
            &&& tools.contract->Some_0.contract_version == contract.implementation_version
            &&& tools.contract->Some_0.specs == specs
            &&& tools.dispatcher is Some
            &&& tools.dispatcher->Some_0.host_version == Some(contract.implementation_version)
            &&& tools.dispatcher->Some_0.instantiate == instantiate
        }),
{
}

/// Tools that were made durable keep their names and their dispatcher, and take the id and
/// the version of the contract.
pub proof fn law_contracts_make_tools_durable<H>(
    tools: CapabilityModel<H>,
    contract: RuntimeContractModel,
)
    ensures
        ({
            let durable = tools.with_contract(contract);
            &&& durable.specs == tools.specs
            &&& durable.declaration_id() == Some(contract.id)
            &&& durable.contract_version() == Some(contract.implementation_version)
            &&& durable.contract->Some_0.specs == tools.specs
            &&& durable.dispatcher is Some <==> tools.dispatcher is Some
            &&& tools.dispatcher is Some ==> {
                &&& durable.dispatcher->Some_0.instantiate == tools.dispatcher->Some_0.instantiate
                &&& durable.host_version() == Some(contract.implementation_version)
            }
        }),
{
}

/// A durable component that is given another key keeps everything else.
pub proof fn law_keys_are_given_by_the_author<F, D>(key: Seq<char>, leaf: LeafModel<F, D>)
    ensures
        under_key(key, leaf) is Ok <==> is_key(key),
        is_key(key) ==> {
            let keyed = under_key(key, leaf)->Ok_0;
            keyed.key == key && keyed.name == leaf.name && keyed.prompt == leaf.prompt
                && keyed.declaration == leaf.declaration
        },
        !is_key(key) ==> under_key(key, leaf)->Err_0 == (ComponentErrorModel::InvalidKey {
            value: key,
        }),
{
}

/// A tool group is at least one tool, and no two of one name.
pub proof fn law_tool_groups_have_distinct_names(specs: Seq<ToolSpecModel>)
    ensures
        is_tool_group(specs) <==> specs.len() > 0 && forall|i: int, j: int|
            0 <= i < j < specs.len() ==> (#[trigger] specs[i]).name != (#[trigger] specs[j]).name,
{
    if is_tool_group(specs) {
        assert forall|i: int, j: int| 0 <= i < j < specs.len() implies (#[trigger] specs[i]).name
            != (#[trigger] specs[j]).name by {
            assert(!repeats_earlier(specs, j));
        }
    }
}

/// Of a broken tool group it is said that it is empty, or which name occurs a second time
/// first.
pub proof fn law_broken_tool_groups_are_explained(
    specs: Seq<ToolSpecModel>,
    error: ComponentErrorModel,
    at: int,
)
    requires
        is_group_error(specs, error),
    ensures
        specs.len() == 0 ==> error == (ComponentErrorModel::InvalidBindingContract {
            message: "a provider tool group requires at least one tool spec"@,
        }),
        specs.len() > 0 && 0 <= at < specs.len() && (exists|i: int|
            0 <= i < at && (#[trigger] specs[i]).name == specs[at].name) && (forall|i: int, j: int|
            0 <= i < j < at ==> (#[trigger] specs[i]).name != (#[trigger] specs[j]).name) ==> error
            == (ComponentErrorModel::InvalidBindingContract {
            message: "provider tool group contains duplicate tool name `"@ + specs[at].name
                + "`"@,
        }),
        specs.len() > 0 ==> !is_tool_group(specs),
{
    if specs.len() > 0 {
        let first = choose|first: int| #[trigger]
            is_first_repeat(specs, first) && error
                == repeated_spec_error(specs[first].name);
        assert(repeats_earlier(specs, first));
        if 0 <= at < specs.len() && (exists|i: int|
            0 <= i < at && (#[trigger] specs[i]).name == specs[at].name) && (forall|i: int, j: int|
            0 <= i < j < at ==> (#[trigger] specs[i]).name != (#[trigger] specs[j]).name) {
            assert(repeats_earlier(specs, at));
            let i = choose|i: int| 0 <= i < first && (#[trigger] specs[i]).name
                == specs[first].name;
            assert(first >= at);
        }
    }
}

/// Tools with their own dispatcher stand under their key as they are written. A broken group
/// stands as its failure.
pub proof fn law_tools_stand_as_written<F, D>(
    nodes: Seq<TreeModel<DeclarationModel<F, D>>>,
    key: Seq<char>,
    specs: Seq<ToolSpecModel>,
    instantiate: D,
)
    requires
        are_tool_nodes(nodes, key, specs, instantiate),
    ensures
        nodes.len() == 1,
        is_tool_group(specs) && is_key(key) ==> {
            let tools = nodes[0]->binding->ProviderCapability_0;
            &&& nodes[0] is Binding
            &&& nodes[0]->Binding_key == key
            &&& nodes[0]->binding is ProviderCapability
            &&& tools.specs == specs
            &&& tools.contract is None
            &&& tools.dispatcher is Some
            &&& tools.dispatcher->Some_0.instantiate == instantiate
            &&& tools.dispatcher->Some_0.host_version is None
        },
        !is_tool_group(specs) || !is_key(key) ==> nodes[0] is Failed,
        !is_tool_group(specs) ==> is_group_error(specs, nodes[0]->Failed_0),
        is_tool_group(specs) && !is_key(key) ==> nodes[0]->Failed_0 == (
        ComponentErrorModel::InvalidKey { value: key }),
{
}

/// The component of durable tools is the one that declares them, or the failure of their
/// group.
pub proof fn law_tools_components_are_their_leaf<F, D>(
    component: Result<LeafModel<F, D>, ComponentErrorModel>,
    key: Seq<char>,
    contract: RuntimeContractModel,
    prompt: Seq<EdgeModel>,
    specs: Seq<ToolSpecModel>,
    instantiate: D,
)
    requires
        is_tools_component(component, key, contract, prompt, specs, instantiate),
    ensures
        component is Ok <==> is_tool_group(specs),
        component is Ok ==> component->Ok_0 == durable_tools_leaf::<F, D>(
            key,
            contract,
            prompt,
            specs,
            instantiate,
        ),
        component is Err ==> is_group_error(specs, component->Err_0),
{
}

/// A streaming contract listens to its own tag, and a `<tool>` to the one that it names.
pub proof fn law_contracts_listen_to_their_tag(contract: XmlModel)
    ensures
        contract.name != "tool"@ ==> contract_tag(contract) == Ok::<
            Seq<char>,
            ComponentErrorModel,
        >(contract.name),
        contract.name == "tool"@ && !has_attribute(contract.attributes, "name"@) ==> contract_tag(
            contract,
        ) == Err::<Seq<char>, ComponentErrorModel>(
            ComponentErrorModel::InvalidBindingContract {
                message: "a <tool> streaming contract requires a name attribute"@,
            },
        ),
        contract.name == "tool"@ && has_attribute(contract.attributes, "name"@) && is_xml_name(
            attribute_value(contract.attributes, "name"@),
        ) ==> contract_tag(contract) == Ok::<Seq<char>, ComponentErrorModel>(
            attribute_value(contract.attributes, "name"@),
        ),
        contract.name == "tool"@ && has_attribute(contract.attributes, "name"@) && !is_xml_name(
            attribute_value(contract.attributes, "name"@),
        ) ==> contract_tag(contract) == Err::<Seq<char>, ComponentErrorModel>(
            ComponentErrorModel::InvalidBindingContract {
                message: "invalid XML name: "@ + attribute_value(contract.attributes, "name"@),
            },
        ),
{
}

/// Only one component without a key takes a key, and nothing else of it changes.
pub proof fn law_components_are_keyed_once<V>(nodes: Seq<TreeModel<V>>, key: Seq<char>)
    ensures
        ({
            let keyed = keyed_component(nodes, key);
            let takes = nodes.len() == 1 && nodes[0] is Scope && nodes[0]->Scope_key is None;
            &&& tree_error(nodes) is Some ==> keyed == TreeModel::<V>::Failed(
                tree_error(nodes)->Some_0,
            )
            &&& tree_error(nodes) is None ==> (keyed is Scope <==> is_key(key) && takes)
            &&& tree_error(nodes) is None && is_key(key) && takes ==> {
                &&& keyed->Scope_name == nodes[0]->Scope_name
                &&& keyed->Scope_key == Some(key)
                &&& keyed->children == nodes[0]->children
            }
            &&& tree_error(nodes) is None && !is_key(key) ==> keyed == TreeModel::<V>::Failed(
                ComponentErrorModel::InvalidKey { value: key },
            )
            &&& tree_error(nodes) is None && is_key(key) && nodes.len() == 1 && nodes[0] is Scope
                && nodes[0]->Scope_key is Some ==> keyed == TreeModel::<V>::Failed(
                ComponentErrorModel::ComponentAlreadyKeyed,
            )
            &&& tree_error(nodes) is None && is_key(key) && !(nodes.len() == 1
                && nodes[0] is Scope) ==> keyed == TreeModel::<V>::Failed(
                ComponentErrorModel::KeyRequiresComponent,
            )
        }),
{
}

/// A view takes a key exactly where it is one component without one, and nothing else of it
/// changes.
pub proof fn law_views_are_keyed_once<V>(
    view: Result<TreeModel<V>, ComponentErrorModel>,
    key: Seq<char>,
)
    ensures
        ({
            let keyed = keyed_view(view, key);
            let takes = view is Ok && view->Ok_0 is Scope && view->Ok_0->Scope_key is None;
            &&& keyed is Ok <==> is_key(key) && takes
            &&& keyed is Ok ==> {
                &&& keyed->Ok_0 is Scope
                &&& keyed->Ok_0->Scope_name == view->Ok_0->Scope_name
                &&& keyed->Ok_0->Scope_key == Some(key)
                &&& keyed->Ok_0->children == view->Ok_0->children
            }
            &&& view is Err ==> keyed == view
            &&& view is Ok && !is_key(key) ==> keyed->Err_0 == (ComponentErrorModel::InvalidKey {
                value: key,
            })
            &&& view is Ok && is_key(key) && view->Ok_0 is Scope && view->Ok_0->Scope_key
                is Some ==> keyed->Err_0 == ComponentErrorModel::ComponentAlreadyKeyed
            &&& view is Ok && is_key(key) && !(view->Ok_0 is Scope) ==> keyed->Err_0
                == ComponentErrorModel::KeyRequiresComponent
        }),
{
}

/// The factories that listen to tags are those on XML routes, in their order.
pub proof fn law_tags_are_xml_routes<H>(factories: Seq<MountedFactoryModel<H>>, tag: Seq<char>)
    ensures
        xml_factories(factories) == factories.filter(
            |factory: MountedFactoryModel<H>| factory.declaration.route.namespace == "xml"@,
        ),
        xml_route(tag).namespace == "xml"@,
        xml_route(tag).name == tag,
    decreases factories.len(),
{
    reveal(Seq::filter);
    if factories.len() > 0 {
        law_tags_are_xml_routes(factories.drop_last(), tag);
    }
}

/// A factory is told the attempt, the state, its own place and its own route. What was made
/// is mounted in that order.
pub proof fn law_factories_are_told_their_place<H, Props, I>(
    factory: MountedFactoryModel<H>,
    props: Props,
    attempt: AttemptModel,
    started: Seq<StartedBinding<I>>,
    at: int,
)
    ensures
        binding_cx(factory, props, attempt).props == props,
        binding_cx(factory, props, attempt).attempt == attempt,
        binding_cx(factory, props, attempt).binding_id == factory.id,
        binding_cx(factory, props, attempt).route == factory.declaration.route,
        mounted_from(started).len() == started.len(),
        0 <= at < started.len() ==> mounted_from(started)[at] == started[at].mounted@,
{
}

/// The tags of bindings are distinct exactly where no two of them are the same.
pub proof fn law_tags_are_listened_to_once<H>(
    bindings: Seq<PlacedModel<StreamingBindingModel<H>>>,
    at: int,
)
    ensures
        distinct_tags(bindings) <==> forall|i: int, j: int|
            0 <= i < j < bindings.len() ==> (#[trigger] bindings[i]).binding.tag != (
            #[trigger] bindings[j]).binding.tag,
        bindings_of(bindings).len() == bindings.len(),
        0 <= at < bindings.len() ==> bindings_of(bindings)[at] == bindings[at].binding,
{
    if distinct_tags(bindings) {
        assert forall|i: int, j: int| 0 <= i < j < bindings.len() implies (
        #[trigger] bindings[i]).binding.tag != (#[trigger] bindings[j]).binding.tag by {
            assert(!repeats_tag(bindings, i, j));
        }
    }
}

/// Several updates in a row lose nothing and reorder nothing.
pub proof fn law_updates_are_joined_in_order<E, D>(
    updates: Seq<UpdateModel<E, D>>,
    last: UpdateModel<E, D>,
)
    ensures
        all_updates(Seq::<UpdateModel<E, D>>::empty()).emissions.len() == 0,
        all_updates(Seq::<UpdateModel<E, D>>::empty()).diagnostics.len() == 0,
        all_updates(updates.push(last)).emissions == all_updates(updates).emissions
            + last.emissions,
        all_updates(updates.push(last)).diagnostics == all_updates(updates).diagnostics
            + last.diagnostics,
{
    assert(updates.push(last).drop_last() =~= updates);
}

/// A mapped update keeps its order, and each emission stays on its lane.
pub proof fn law_mapped_updates_keep_their_lanes<
    Local: TurnChannels,
    Root: TurnChannels,
    M: ChannelMap<Local, Root>,
>(
    map: &M,
    from: UpdateModel<TurnEmission<Local>, Local::Diagnostic>,
    to: UpdateModel<TurnEmission<Root>, Root::Diagnostic>,
    at: int,
)
    requires
        update_mapped(map, from, to),
    ensures
        to.emissions.len() == from.emissions.len(),
        to.diagnostics.len() == from.diagnostics.len(),
        0 <= at < from.emissions.len() ==> {
            let before = from.emissions[at];
            let after = to.emissions[at];
            &&& before is Output ==> after is Output && call_ensures(
                M::output,
                (map, before->Output_0),
                after->Output_0,
            )
            &&& before is Live ==> after is Live && call_ensures(
                M::live,
                (map, before->Live_0),
                after->Live_0,
            )
            &&& before is Commit ==> after is Commit && call_ensures(
                M::commit,
                (map, before->Commit_0),
                after->Commit_0,
            )
        },
        0 <= at < from.diagnostics.len() ==> call_ensures(
            M::diagnostic,
            (map, from.diagnostics[at]),
            to.diagnostics[at],
        ),
{
    if 0 <= at < from.emissions.len() {
        assert(emission_mapped(map, from.emissions[at], to.emissions[at]));
    }
}

/// A declaration that is carried over stays on its route, with its tools and under its
/// contract. Its handle is replaced, and it has a dispatcher exactly where it had one.
pub proof fn law_carried_declarations_stay_the_same<F, D, G, E>(
    factories: spec_fn(F, G) -> bool,
    dispatchers: spec_fn(D, E) -> bool,
    from: DeclarationModel<F, D>,
    to: DeclarationModel<G, E>,
)
    requires
        declaration_mapped(factories, dispatchers, from, to),
    ensures
        to.declaration_id() == from.declaration_id(),
        from is BindingFactory ==> {
            &&& to is BindingFactory
            &&& to->BindingFactory_0.route == from->BindingFactory_0.route
            &&& to->BindingFactory_0.contract == from->BindingFactory_0.contract
            &&& factories(
                from->BindingFactory_0.instantiate,
                to->BindingFactory_0.instantiate,
            )
        },
        from is ProviderCapability ==> {
            let before = from->ProviderCapability_0;
            let after = to->ProviderCapability_0;
            &&& to is ProviderCapability
            &&& after.specs == before.specs
            &&& after.contract == before.contract
            &&& after.dispatcher is Some <==> before.dispatcher is Some
            &&& before.dispatcher is Some ==> {
                &&& after.dispatcher->Some_0.host_version == before.dispatcher->Some_0.host_version
                &&& dispatchers(
                    before.dispatcher->Some_0.instantiate,
                    after.dispatcher->Some_0.instantiate,
                )
            }
        },
{
}

/// An update begins with all of its emissions to be interpreted, and nothing kept.
pub proof fn law_interpretation_begins_with_everything<C: TurnChannels>(
    update: UpdateModel<TurnEmission<C>, C::Diagnostic>,
    origin: OriginModel,
    phase: BindingPhase,
)
    ensures
        uninterpreted::<C>(update, origin, phase).remaining == update.emissions,
        uninterpreted::<C>(update, origin, phase).retained.len() == 0,
        uninterpreted::<C>(update, origin, phase).diagnostics == update.diagnostics,
        uninterpreted::<C>(update, origin, phase).origin == origin,
        uninterpreted::<C>(update, origin, phase).phase == phase,
{
}

/// A call without an id has no identity, and any other has its own.
pub proof fn law_empty_ids_are_none(invocation_id: Seq<char>)
    ensures
        call_identity(invocation_id).invocation_id is None <==> invocation_id.len() == 0,
        invocation_id.len() > 0 ==> call_identity(invocation_id).invocation_id == Some(
            invocation_id,
        ),
        call_identity(invocation_id).result_correlation_id is None,
{
}

/// Only the preparation and the execution of a call work on behalf of an operation.
pub proof fn law_calls_name_their_operation(phase: AdapterPhase)
    ensures
        needs_operation(phase) <==> phase == AdapterPhase::ContextPreparation || phase
            == AdapterPhase::Execution,
        phase == AdapterPhase::ContextPreparation ==> adapter_phase_name(phase)
            == "context preparation"@,
        phase == AdapterPhase::Execution ==> adapter_phase_name(phase) == "execution"@,
        phase == AdapterPhase::EpochAttach ==> adapter_phase_name(phase) == "epoch attach"@,
        phase == AdapterPhase::EpochRehydrate ==> adapter_phase_name(phase) == "epoch rehydrate"@,
        phase == AdapterPhase::OperationInspection ==> adapter_phase_name(phase)
            == "operation inspection"@,
        phase == AdapterPhase::OperationCancellation ==> adapter_phase_name(phase)
            == "operation cancellation"@,
{
}

/// Each phase of a binding is called by its own name.
pub proof fn law_phases_are_named(phase: BindingPhase)
    ensures
        phase == BindingPhase::Initialize ==> phase_name(phase) == "initialize"@,
        phase == BindingPhase::Open ==> phase_name(phase) == "open"@,
        phase == BindingPhase::Stream ==> phase_name(phase) == "stream"@,
        phase == BindingPhase::Complete ==> phase_name(phase) == "complete"@,
        phase == BindingPhase::Dispatch ==> phase_name(phase) == "dispatch"@,
        phase == BindingPhase::Finish ==> phase_name(phase) == "finish"@,
        phase == BindingPhase::Finalize ==> phase_name(phase) == "finalize"@,
{
}

} // verus!
