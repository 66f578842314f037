//! What holds of every mount plan and every bound registry.

use vstd::prelude::*;
use vstd::utf8::encode_utf8;
use crate::component::contract::structural_key;
use crate::component::declaration::DeclarationModel;
use crate::component::identity::{is_key, BindingIdModel, PromptRole};
use crate::component::mount::{binding_fault, declared_ids, declared_tools, mount_fault};
use crate::component::mount::{mounted_capabilities, mounted_factories, owner_of, route_owner};
use crate::component::mount::{tool_fault, tools_of, MountedCapabilityModel, MountedFactoryModel};
use crate::component::mount::{OwnerModel, PlacedModel};
use crate::component::registry::{bound_capabilities, RegistryEntryModel};
use crate::component::tools::{RouteModel, ToolSpecModel};
use crate::hex::hex_text;
use crate::text_chars::is_control;

verus! {

/// No two names are the same.
pub open spec fn distinct_names(owners: Seq<OwnerModel>) -> bool {
    forall|i: int, j: int|
        0 <= i < j < owners.len() ==> (#[trigger] owners[i]).name != (#[trigger] owners[j]).name
}

/// No two factories have the same route.
pub open spec fn distinct_routes<F>(factories: Seq<MountedFactoryModel<F>>) -> bool {
    forall|i: int, j: int|
        0 <= i < j < factories.len() ==> (#[trigger] factories[i]).declaration.route != (
        #[trigger] factories[j]).declaration.route
}

proof fn lemma_no_owner(owners: Seq<OwnerModel>, name: Seq<char>)
    requires
        owner_of(owners, name) is None,
    ensures
        forall|i: int| 0 <= i < owners.len() ==> (#[trigger] owners[i]).name != name,
    decreases owners.len(),
{
    if owners.len() > 0 {
        let rest = owners.drop_first();
        lemma_no_owner(rest, name);
        assert forall|i: int| 0 <= i < owners.len() implies (#[trigger] owners[i]).name != name by {
            if i > 0 {
                assert(rest[i - 1] == owners[i]);
            }
        }
    }
}

proof fn lemma_no_route_owner<F>(factories: Seq<MountedFactoryModel<F>>, route: RouteModel)
    requires
        route_owner(factories, route) is None,
    ensures
        forall|i: int|
            0 <= i < factories.len() ==> (#[trigger] factories[i]).declaration.route != route,
    decreases factories.len(),
{
    if factories.len() > 0 {
        let rest = factories.drop_first();
        lemma_no_route_owner(rest, route);
        assert forall|i: int| 0 <= i < factories.len() implies (
        #[trigger] factories[i]).declaration.route != route by {
            if i > 0 {
                assert(rest[i - 1] == factories[i]);
            }
        }
    }
}

proof fn lemma_tools_stay_distinct(
    declared: Seq<OwnerModel>,
    specs: Seq<ToolSpecModel>,
    owner: BindingIdModel,
)
    requires
        distinct_names(declared),
        tool_fault(declared, specs, owner) is None,
    ensures
        distinct_names(declared + tools_of(specs, owner)),
    decreases specs.len(),
{
    if specs.len() == 0 {
        assert(declared + tools_of(specs, owner) =~= declared);
    } else {
        let before = specs.drop_last();
        lemma_tools_stay_distinct(declared, before, owner);
        let earlier = declared + tools_of(before, owner);
        lemma_no_owner(earlier, specs.last().name);
        let all = declared + tools_of(specs, owner);
        assert(all =~= earlier.push(OwnerModel { name: specs.last().name, owner }));
    }
}

/// In a plan nothing is ambiguous: every declaration stands in the system prompt, and
/// no durable id, no route and no tool name is declared twice. A durable plan holds
/// durable declarations only.
pub proof fn law_mounted_declarations_are_unambiguous<F, D>(
    bindings: Seq<PlacedModel<DeclarationModel<F, D>>>,
    require_durable: bool,
)
    requires
        mount_fault(bindings, require_durable) is None,
    ensures
        forall|i: int|
            0 <= i < bindings.len() ==> (#[trigger] bindings[i]).role == Some(PromptRole::System),
        require_durable ==> forall|i: int|
            0 <= i < bindings.len() ==> (#[trigger] bindings[i]).binding.declaration_id() is Some,
        distinct_names(declared_ids(bindings)),
        distinct_names(declared_tools(bindings)),
        distinct_routes(mounted_factories(bindings)),
    decreases bindings.len(),
{
    if bindings.len() > 0 {
        let before = bindings.drop_last();
        let last = bindings.last();
        assert(mount_fault(before, require_durable) is None);
        assert(binding_fault(before, last, require_durable) is None);
        law_mounted_declarations_are_unambiguous(before, require_durable);
        assert forall|i: int| 0 <= i < bindings.len() implies (#[trigger] bindings[i]).role == Some(
            PromptRole::System,
        ) && (require_durable ==> bindings[i].binding.declaration_id() is Some) by {
            if i < before.len() {
                assert(before[i] == bindings[i]);
            }
        }
        match last.binding.declaration_id() {
            Some(id) => lemma_no_owner(declared_ids(before), id),
            None => {},
        }
        match last.binding {
            DeclarationModel::BindingFactory(factory) => {
                lemma_no_route_owner(mounted_factories(before), factory.route);
            },
            DeclarationModel::ProviderCapability(capability) => {
                lemma_tools_stay_distinct(declared_tools(before), capability.specs, last.id);
            },
        }
    }
}

/// A plan loses nothing: each declaration is a factory or a capability of it.
pub proof fn law_every_declaration_is_mounted<F, D>(
    bindings: Seq<PlacedModel<DeclarationModel<F, D>>>,
)
    ensures
        mounted_factories(bindings).len() + mounted_capabilities(bindings).len() == bindings.len(),
    decreases bindings.len(),
{
    if bindings.len() > 0 {
        law_every_declaration_is_mounted(bindings.drop_last());
    }
}

/// In a bound registry every capability has a dispatcher, under its old id, with its
/// old tools and contract. One that the host brought is registered for the same
/// version and the same tools in the same order.
pub proof fn law_bound_capabilities_fit_their_contracts<H>(
    capabilities: Seq<MountedCapabilityModel<H>>,
    registry: Map<Seq<char>, RegistryEntryModel<H>>,
)
    requires
        bound_capabilities(capabilities, registry) is Ok,
    ensures
        ({
            let bound = bound_capabilities(capabilities, registry)->Ok_0;
            &&& bound.len() == capabilities.len()
            &&& forall|i: int|
                0 <= i < bound.len() ==> {
                    let from = capabilities[i];
                    let to = #[trigger] bound[i];
                    &&& to.id == from.id
                    &&& to.declaration.specs == from.declaration.specs
                    &&& to.declaration.contract == from.declaration.contract
                    &&& to.declaration.dispatcher is Some
                    &&& from.declaration.dispatcher is Some ==> to == from
                    &&& from.declaration.dispatcher is None ==> {
                        let contract = from.declaration.contract->Some_0;
                        let entry = registry[contract.declaration_id];
                        &&& from.declaration.contract is Some
                        &&& registry.contains_key(contract.declaration_id)
                        &&& entry.contract.contract_version == contract.contract_version
                        &&& entry.contract.specs == contract.specs
                        &&& to.declaration.dispatcher == Some(entry.binding)
                    }
                }
        }),
    decreases capabilities.len(),
{
    if capabilities.len() > 0 {
        let before = capabilities.drop_last();
        law_bound_capabilities_fit_their_contracts(before, registry);
        let bound = bound_capabilities(capabilities, registry)->Ok_0;
        let earlier = bound_capabilities(before, registry)->Ok_0;
        assert(bound.drop_last() =~= earlier);
        assert forall|i: int| 0 <= i < earlier.len() implies #[trigger] bound[i] == earlier[i]
            && capabilities[i] == before[i] by {}
    }
}

/// The key that is derived from a declaration id is a valid component key.
pub proof fn law_structural_keys_are_keys(declaration_id: Seq<char>)
    ensures
        is_key(structural_key(declaration_id)),
{
    reveal_strlit("contract-");
    let key = structural_key(declaration_id);
    let prefix = "contract-"@;
    let bytes = encode_utf8(declaration_id);
    assert(prefix.len() == 9);
    assert forall|i: int| 0 <= i < key.len() implies !is_control(#[trigger] key[i]) by {
        if i < 9 {
            assert(key[i] == prefix[i]);
        } else {
            let j = i - 9;
            assert(key[i] == hex_text(bytes)[j]);
            assert(bytes[j / 2] / 16 < 16 && bytes[j / 2] % 16 < 16);
        }
    }
}

} // verus!
