//! Which declarations can be mounted, and what is reported of one that cannot.

use vstd::prelude::*;
use crate::component::declaration::{DeclarationModel, CapabilityModel};
use crate::component::identity::{BindingIdModel, PromptRole};
use crate::component::mount::{binding_fault, declared_ids, declared_tools, mount_fault};
use crate::component::mount::{mounted_capabilities, mounted_factories, owner_of, route_owner};
use crate::component::mount::{tool_fault, tools_of, MountErrorModel, MountedFactoryModel};
use crate::component::mount::{OwnerModel, PlacedModel};
use crate::component::registry::{bound_capabilities, bound_capability, registered};
use crate::component::registry::{RegistryEntryModel, RegistryErrorModel};
use crate::component::contract::CapabilityContractModel;
use crate::component::mount::MountedCapabilityModel;
use crate::component::tools::{RouteModel, ToolSpecModel};
use crate::text_chars::is_control;

verus! {

/// A name belongs to the first that declared it, and to nobody where nobody did.
pub proof fn law_names_belong_to_the_first(owners: Seq<OwnerModel>, name: Seq<char>, at: int)
    ensures
        owner_of(owners, name) is None <==> forall|i: int|
            0 <= i < owners.len() ==> (#[trigger] owners[i]).name != name,
        0 <= at < owners.len() && owners[at].name == name && (forall|i: int|
            0 <= i < at ==> (#[trigger] owners[i]).name != name) ==> owner_of(owners, name) == Some(
            owners[at].owner,
        ),
    decreases owners.len(),
{
    if owners.len() > 0 {
        let rest = owners.drop_first();
        law_names_belong_to_the_first(rest, name, at - 1);
        assert(forall|i: int| 0 <= i < rest.len() ==> rest[i] == #[trigger] owners[i + 1]);
        if forall|i: int| 0 <= i < owners.len() ==> (#[trigger] owners[i]).name != name {
            assert forall|i: int| 0 <= i < rest.len() implies (#[trigger] rest[i]).name != name by {
                assert(owners[i + 1].name != name);
            }
        }
        if owner_of(owners, name) is None {
            assert forall|i: int| 0 <= i < owners.len() implies (
            #[trigger] owners[i]).name != name by {
                if i > 0 {
                    assert(rest[i - 1] == owners[i]);
                }
            }
        }
        if 0 < at < owners.len() && (forall|i: int|
            0 <= i < at ==> (#[trigger] owners[i]).name != name) {
            assert(rest[at - 1] == owners[at]);
            assert forall|i: int| 0 <= i < at - 1 implies (#[trigger] rest[i]).name != name by {
                assert(owners[i + 1].name != name);
            }
            assert(owners[0].name != name);
        }
    }
}

/// A route belongs to the first factory on it, and to nobody where there is none.
pub proof fn law_routes_belong_to_the_first<F>(
    factories: Seq<MountedFactoryModel<F>>,
    route: RouteModel,
    at: int,
)
    ensures
        route_owner(factories, route) is None <==> forall|i: int|
            0 <= i < factories.len() ==> (#[trigger] factories[i]).declaration.route != route,
        0 <= at < factories.len() && factories[at].declaration.route == route && (forall|i: int|
            0 <= i < at ==> (#[trigger] factories[i]).declaration.route != route) ==> route_owner(
            factories,
            route,
        ) == Some(factories[at].id),
    decreases factories.len(),
{
    if factories.len() > 0 {
        let rest = factories.drop_first();
        law_routes_belong_to_the_first(rest, route, at - 1);
        assert(forall|i: int| 0 <= i < rest.len() ==> rest[i] == #[trigger] factories[i + 1]);
        if forall|i: int|
            0 <= i < factories.len() ==> (#[trigger] factories[i]).declaration.route != route {
            assert forall|i: int| 0 <= i < rest.len() implies (
            #[trigger] rest[i]).declaration.route != route by {
                assert(factories[i + 1].declaration.route != route);
            }
        }
        if route_owner(factories, route) is None {
            assert forall|i: int| 0 <= i < factories.len() implies (
            #[trigger] factories[i]).declaration.route != route by {
                if i > 0 {
                    assert(rest[i - 1] == factories[i]);
                }
            }
        }
        if 0 < at < factories.len() && (forall|i: int|
            0 <= i < at ==> (#[trigger] factories[i]).declaration.route != route) {
            assert(rest[at - 1] == factories[at]);
            assert forall|i: int| 0 <= i < at - 1 implies (
            #[trigger] rest[i]).declaration.route != route by {
                assert(factories[i + 1].declaration.route != route);
            }
            assert(factories[0].declaration.route != route);
        }
    }
}

/// Everything that bindings declare is listed behind what those before them declare: the
/// durable ids, the tools, the factories and the capabilities, each under its binding.
pub proof fn law_declarations_are_listed_in_order<F, D>(
    before: Seq<PlacedModel<DeclarationModel<F, D>>>,
    placed: PlacedModel<DeclarationModel<F, D>>,
)
    ensures
        ({
            let all = before.push(placed);
            let id = placed.binding.declaration_id();
            &&& id is Some ==> declared_ids(all) == declared_ids(before).push(
                OwnerModel { name: id->Some_0, owner: placed.id },
            )
            &&& id is None ==> declared_ids(all) == declared_ids(before)
            &&& placed.binding is BindingFactory ==> {
                &&& declared_tools(all) == declared_tools(before)
                &&& mounted_capabilities(all) == mounted_capabilities(before)
                &&& mounted_factories(all) == mounted_factories(before).push(
                    MountedFactoryModel {
                        id: placed.id,
                        declaration: placed.binding->BindingFactory_0,
                    },
                )
            }
            &&& placed.binding is ProviderCapability ==> {
                let specs = placed.binding->ProviderCapability_0.specs;
                &&& mounted_factories(all) == mounted_factories(before)
                &&& mounted_capabilities(all) == mounted_capabilities(before).push(
                    MountedCapabilityModel {
                        id: placed.id,
                        declaration: placed.binding->ProviderCapability_0,
                    },
                )
                &&& declared_tools(all).len() == declared_tools(before).len() + specs.len()
                &&& declared_tools(before).is_prefix_of(declared_tools(all))
                &&& forall|i: int|
                    0 <= i < specs.len() ==> (#[trigger] declared_tools(all)[declared_tools(
                        before,
                    ).len() + i]) == (OwnerModel { name: specs[i].name, owner: placed.id })
            }
        }),
        declared_ids(Seq::<PlacedModel<DeclarationModel<F, D>>>::empty()).len() == 0,
        declared_tools(Seq::<PlacedModel<DeclarationModel<F, D>>>::empty()).len() == 0,
        mounted_factories(Seq::<PlacedModel<DeclarationModel<F, D>>>::empty()).len() == 0,
        mounted_capabilities(Seq::<PlacedModel<DeclarationModel<F, D>>>::empty()).len() == 0,
{
    assert(before.push(placed).drop_last() =~= before);
}

/// Tools are fine exactly where none of them has the name of one that was declared before it.
/// Of the first that has, its name and both owners are reported.
pub proof fn law_tool_names_are_taken_once(
    declared: Seq<OwnerModel>,
    specs: Seq<ToolSpecModel>,
    owner: BindingIdModel,
    at: int,
)
    ensures
        tool_fault(declared, specs, owner) is None <==> forall|i: int|
            0 <= i < specs.len() ==> is_free(declared, specs, #[trigger] specs[i].name, i),
        0 <= at < specs.len() && !is_free(declared, specs, specs[at].name, at) && (forall|i: int|
            0 <= i < at ==> is_free(declared, specs, #[trigger] specs[i].name, i)) ==> tool_fault(
            declared,
            specs,
            owner,
        ) == Some(
            MountErrorModel::DuplicateProviderTool {
                name: specs[at].name,
                first: match owner_of(declared, specs[at].name) {
                    Some(first) => first,
                    None => owner,
                },
                second: owner,
            },
        ),
    decreases specs.len(),
{
    if specs.len() > 0 {
        let before = specs.drop_last();
        let last = specs.len() - 1;
        law_tool_names_are_taken_once(declared, before, owner, at);
        assert forall|i: int| 0 <= i < before.len() implies (#[trigger] before[i]) == specs[i]
            && is_free(declared, before, before[i].name, i) == is_free(
            declared,
            specs,
            specs[i].name,
            i,
        ) by {
            assert(forall|j: int| 0 <= j < i ==> before[j] == specs[j]);
        }
        lemma_owner_among(declared, before, owner, specs.last().name);
        assert(forall|j: int| 0 <= j < last ==> before[j] == specs[j]);
        assert(is_free(declared, specs, specs[last].name, last) <==> owner_of(
            declared + tools_of(before, owner),
            specs.last().name,
        ) is None);
        if forall|i: int|
            0 <= i < specs.len() ==> is_free(declared, specs, #[trigger] specs[i].name, i) {
            assert forall|i: int| 0 <= i < before.len() implies is_free(
                declared,
                before,
                #[trigger] before[i].name,
                i,
            ) by {
                assert(is_free(declared, specs, specs[i].name, i));
            }
            assert(is_free(declared, specs, specs[last].name, last));
        }
        if tool_fault(declared, specs, owner) is None {
            assert forall|i: int| 0 <= i < specs.len() implies is_free(
                declared,
                specs,
                #[trigger] specs[i].name,
                i,
            ) by {
                if i < last {
                    assert(is_free(declared, before, before[i].name, i));
                }
            }
        }
        if 0 <= at < specs.len() && !is_free(declared, specs, specs[at].name, at) && (forall|
            i: int,
        |
            0 <= i < at ==> is_free(declared, specs, #[trigger] specs[i].name, i)) {
            if at < last {
                assert(before[at] == specs[at]);
                assert forall|i: int| 0 <= i < at implies is_free(
                    declared,
                    before,
                    #[trigger] before[i].name,
                    i,
                ) by {
                    assert(is_free(declared, specs, specs[i].name, i));
                }
            } else {
                assert forall|i: int| 0 <= i < before.len() implies is_free(
                    declared,
                    before,
                    #[trigger] before[i].name,
                    i,
                ) by {
                    assert(is_free(declared, specs, specs[i].name, i));
                }
            }
        }
    }
}

/// Nothing that was declared has a name, nor does an earlier one of some tools.
pub open spec fn is_free(
    declared: Seq<OwnerModel>,
    specs: Seq<ToolSpecModel>,
    name: Seq<char>,
    at: int,
) -> bool {
    &&& forall|j: int| 0 <= j < declared.len() ==> (#[trigger] declared[j]).name != name
    &&& forall|j: int| 0 <= j < at ==> (#[trigger] specs[j]).name != name
}

proof fn lemma_owner_among(
    declared: Seq<OwnerModel>,
    specs: Seq<ToolSpecModel>,
    owner: BindingIdModel,
    name: Seq<char>,
)
    ensures
        ({
            let all = declared + tools_of(specs, owner);
            &&& owner_of(all, name) is None <==> is_free(declared, specs, name, specs.len() as int)
            &&& owner_of(declared, name) is Some ==> owner_of(all, name) == owner_of(
                declared,
                name,
            )
            &&& owner_of(declared, name) is None && owner_of(all, name) is Some ==> owner_of(
                all,
                name,
            ) == Some(owner)
        }),
    decreases declared.len() + specs.len(),
{
    let all = declared + tools_of(specs, owner);
    if declared.len() > 0 {
        assert(all.drop_first() =~= declared.drop_first() + tools_of(specs, owner));
        lemma_owner_among(declared.drop_first(), specs, owner, name);
        let rest = declared.drop_first();
        assert(forall|j: int| 0 <= j < rest.len() ==> rest[j] == #[trigger] declared[j + 1]);
        if is_free(rest, specs, name, specs.len() as int) && declared[0].name != name {
            assert forall|j: int| 0 <= j < declared.len() implies (
            #[trigger] declared[j]).name != name by {
                if j > 0 {
                    assert(rest[j - 1] == declared[j]);
                }
            }
        }
        if is_free(declared, specs, name, specs.len() as int) {
            assert forall|j: int| 0 <= j < rest.len() implies (#[trigger] rest[j]).name != name by {
                assert(declared[j + 1].name != name);
            }
        }
    } else if specs.len() > 0 {
        assert(all =~= tools_of(specs, owner));
        assert(all.drop_first() =~= declared + tools_of(specs.drop_first(), owner));
        lemma_owner_among(declared, specs.drop_first(), owner, name);
        let rest = specs.drop_first();
        assert(forall|j: int| 0 <= j < rest.len() ==> rest[j] == #[trigger] specs[j + 1]);
        if is_free(declared, rest, name, rest.len() as int) && specs[0].name != name {
            assert forall|j: int| 0 <= j < specs.len() implies (#[trigger] specs[j]).name != name by {
                if j > 0 {
                    assert(rest[j - 1] == specs[j]);
                }
            }
        }
        if is_free(declared, specs, name, specs.len() as int) {
            assert forall|j: int| 0 <= j < rest.len() implies (#[trigger] rest[j]).name != name by {
                assert(specs[j + 1].name != name);
            }
        }
        if all[0].name == name {
            assert(specs[0].name == name);
        }
    } else {
        assert(all =~= Seq::empty());
    }
}

/// What is wrong with a declaration behind others: first that it stands outside of the
/// system prompt, then that it has no durable id where one is needed, then that its id was
/// declared before, and then that its route is taken or one of its tools.
pub proof fn law_faults_are_found_in_order<F, D>(
    before: Seq<PlacedModel<DeclarationModel<F, D>>>,
    placed: PlacedModel<DeclarationModel<F, D>>,
    require_durable: bool,
)
    ensures
        ({
            let fault = binding_fault(before, placed, require_durable);
            let id = placed.binding.declaration_id();
            let in_system = placed.role == Some(PromptRole::System);
            let durable = require_durable ==> id is Some;
            let taken = id is Some && exists|j: int|
                0 <= j < declared_ids(before).len() && (#[trigger] declared_ids(before)[j]).name
                    == id->Some_0;
            &&& !in_system ==> fault == Some(
                MountErrorModel::RuntimeDeclarationOutsideSystem {
                    id: placed.id,
                    role: placed.role,
                },
            )
            &&& in_system && !durable ==> fault == Some(
                MountErrorModel::NonDurableRuntimeDeclaration { id: placed.id },
            )
            &&& in_system && durable && taken ==> fault == Some(
                MountErrorModel::DuplicateRuntimeDeclaration {
                    declaration_id: id->Some_0,
                    first: owner_of(declared_ids(before), id->Some_0)->Some_0,
                    second: placed.id,
                },
            )
            &&& in_system && durable && !taken && placed.binding is BindingFactory ==> {
                let route = placed.binding->BindingFactory_0.route;
                &&& fault is None <==> forall|j: int|
                    0 <= j < mounted_factories(before).len() ==> (
                    #[trigger] mounted_factories(before)[j]).declaration.route != route
                &&& fault is Some ==> fault == Some(
                    MountErrorModel::DuplicateBindingRoute {
                        route,
                        first: route_owner(mounted_factories(before), route)->Some_0,
                        second: placed.id,
                    },
                )
            }
            &&& in_system && durable && !taken && placed.binding is ProviderCapability ==> fault
                == tool_fault(
                declared_tools(before),
                placed.binding->ProviderCapability_0.specs,
                placed.id,
            )
        }),
{
    let id = placed.binding.declaration_id();
    if id is Some {
        law_names_belong_to_the_first(declared_ids(before), id->Some_0, 0);
    }
    if placed.binding is BindingFactory {
        law_routes_belong_to_the_first(
            mounted_factories(before),
            placed.binding->BindingFactory_0.route,
            0,
        );
    }
}

/// What is wrong with the declaration at a place behind those before it.
pub open spec fn fault_at<F, D>(
    bindings: Seq<PlacedModel<DeclarationModel<F, D>>>,
    require_durable: bool,
    at: int,
) -> Option<MountErrorModel> {
    binding_fault(bindings.take(at), bindings[at], require_durable)
}

proof fn lemma_fault_at<F, D>(
    bindings: Seq<PlacedModel<DeclarationModel<F, D>>>,
    require_durable: bool,
    at: int,
)
    requires
        0 <= at < bindings.len() - 1,
    ensures
        fault_at(bindings.drop_last(), require_durable, at) == fault_at(
            bindings,
            require_durable,
            at,
        ),
{
    assert(bindings.drop_last().take(at) =~= bindings.take(at));
}

proof fn lemma_last_fault<F, D>(
    bindings: Seq<PlacedModel<DeclarationModel<F, D>>>,
    require_durable: bool,
)
    requires
        bindings.len() > 0,
    ensures
        mount_fault(bindings, require_durable) == (if mount_fault(
            bindings.drop_last(),
            require_durable,
        ) is Some {
            mount_fault(bindings.drop_last(), require_durable)
        } else {
            fault_at(bindings, require_durable, bindings.len() - 1)
        }),
{
    assert(bindings.take(bindings.len() - 1) =~= bindings.drop_last());
}

/// Declarations are mounted exactly where nothing is wrong with any of them behind those
/// before it.
pub proof fn law_faultless_declarations_are_mounted<F, D>(
    bindings: Seq<PlacedModel<DeclarationModel<F, D>>>,
    require_durable: bool,
)
    ensures
        mount_fault(bindings, require_durable) is None <==> forall|i: int|
            0 <= i < bindings.len() ==> #[trigger] fault_at(bindings, require_durable, i) is None,
    decreases bindings.len(),
{
    if bindings.len() > 0 {
        let before = bindings.drop_last();
        law_faultless_declarations_are_mounted(before, require_durable);
        lemma_last_fault(bindings, require_durable);
        if forall|i: int|
            0 <= i < bindings.len() ==> #[trigger] fault_at(bindings, require_durable, i) is None {
            assert forall|i: int| 0 <= i < before.len() implies #[trigger] fault_at(
                before,
                require_durable,
                i,
            ) is None by {
                lemma_fault_at(bindings, require_durable, i);
            }
        }
        if mount_fault(bindings, require_durable) is None {
            assert forall|i: int| 0 <= i < bindings.len() implies #[trigger] fault_at(
                bindings,
                require_durable,
                i,
            ) is None by {
                if i < before.len() {
                    lemma_fault_at(bindings, require_durable, i);
                }
            }
        }
    }
}

/// Of several declarations that cannot be mounted, the first is reported.
pub proof fn law_first_fault_is_reported<F, D>(
    bindings: Seq<PlacedModel<DeclarationModel<F, D>>>,
    require_durable: bool,
    at: int,
)
    requires
        0 <= at < bindings.len(),
        fault_at(bindings, require_durable, at) is Some,
        forall|i: int|
            0 <= i < at ==> #[trigger] fault_at(bindings, require_durable, i) is None,
    ensures
        mount_fault(bindings, require_durable) == fault_at(bindings, require_durable, at),
    decreases bindings.len(),
{
    let before = bindings.drop_last();
    lemma_last_fault(bindings, require_durable);
    assert forall|i: int| 0 <= i < at && i < before.len() implies #[trigger] fault_at(
        before,
        require_durable,
        i,
    ) is None by {
        lemma_fault_at(bindings, require_durable, i);
    }
    if at < before.len() {
        lemma_fault_at(bindings, require_durable, at);
        law_first_fault_is_reported(before, require_durable, at);
    } else {
        law_faultless_declarations_are_mounted(before, require_durable);
    }
}

/// A host registers one dispatcher for each declaration id, under a version that is not empty
/// and holds no control character. Registering changes nothing about the others.
pub proof fn law_dispatchers_are_registered_once<H>(
    registry: Map<Seq<char>, RegistryEntryModel<H>>,
    contract: CapabilityContractModel,
    host_version: Seq<char>,
    instantiate: H,
    other: Seq<char>,
)
    ensures
        ({
            let after = registered(registry, contract, host_version, instantiate);
            let id = contract.declaration_id;
            let valid = host_version.len() > 0 && forall|i: int|
                0 <= i < host_version.len() ==> !is_control(#[trigger] host_version[i]);
            &&& after is Ok <==> !registry.contains_key(id) && valid
            &&& registry.contains_key(id) ==> after == Err::<
                Map<Seq<char>, RegistryEntryModel<H>>,
                RegistryErrorModel,
            >(RegistryErrorModel::DuplicateBinding { declaration_id: id })
            &&& !registry.contains_key(id) && !valid ==> after
                is Err && after->Err_0 is InvalidHostImplementationVersion
            &&& after is Ok ==> {
                &&& after->Ok_0.contains_key(other) <==> other == id || registry.contains_key(other)
                &&& other != id && registry.contains_key(other) ==> after->Ok_0[other]
                    == registry[other]
                &&& after->Ok_0[id].contract == contract
                &&& after->Ok_0[id].binding.instantiate == instantiate
                &&& after->Ok_0[id].binding.host_version == Some(host_version)
            }
        }),
{
}

/// A capability that brings its dispatcher is bound as it is, unless the host has one for it
/// too. Another is bound exactly where the host has one, of the same version and for the same
/// tools.
pub proof fn law_capabilities_are_bound_by_their_contract<H>(
    capability: CapabilityModel<H>,
    registry: Map<Seq<char>, RegistryEntryModel<H>>,
)
    ensures
        ({
            let bound = bound_capability(capability, registry);
            let contract = capability.contract->Some_0;
            let id = contract.declaration_id;
            let known = capability.contract is Some && registry.contains_key(id);
            let entry = registry[id];
            &&& capability.dispatcher is Some ==> {
                &&& known ==> bound == Err::<CapabilityModel<H>, RegistryErrorModel>(
                    RegistryErrorModel::ConflictingEmbeddedBinding { declaration_id: id },
                )
                &&& !known ==> bound == Ok::<CapabilityModel<H>, RegistryErrorModel>(capability)
            }
            &&& capability.dispatcher is None ==> {
                &&& bound is Ok <==> known && entry.contract.contract_version
                    == contract.contract_version && entry.contract.specs == contract.specs
                &&& bound is Ok ==> {
                    &&& bound->Ok_0.dispatcher == Some(entry.binding)
                    &&& bound->Ok_0.contract == capability.contract
                    &&& bound->Ok_0.specs == capability.specs
                }
                &&& capability.contract is Some && !known ==> bound == Err::<
                    CapabilityModel<H>,
                    RegistryErrorModel,
                >(RegistryErrorModel::MissingBinding { declaration_id: id })
                &&& capability.contract is None ==> bound == Err::<
                    CapabilityModel<H>,
                    RegistryErrorModel,
                >(
                    RegistryErrorModel::MissingBinding {
                        declaration_id: "<non-durable-provider-capability>"@,
                    },
                )
                &&& known && entry.contract.contract_version != contract.contract_version ==> bound
                    == Err::<CapabilityModel<H>, RegistryErrorModel>(
                    RegistryErrorModel::ContractVersionMismatch {
                        declaration_id: id,
                        component_version: contract.contract_version,
                        host_version: entry.contract.contract_version,
                    },
                )
                &&& known && entry.contract.contract_version == contract.contract_version
                    && entry.contract.specs != contract.specs ==> bound == Err::<
                    CapabilityModel<H>,
                    RegistryErrorModel,
                >(RegistryErrorModel::ToolSchemaMismatch { declaration_id: id })
            }
        }),
{
}

/// The capabilities of a plan are bound exactly where each of them can be, and otherwise the
/// first that cannot is reported.
pub proof fn law_first_unbound_capability_is_reported<H>(
    capabilities: Seq<MountedCapabilityModel<H>>,
    registry: Map<Seq<char>, RegistryEntryModel<H>>,
    at: int,
)
    ensures
        bound_capabilities(capabilities, registry) is Ok <==> forall|i: int|
            0 <= i < capabilities.len() ==> bound_capability(
                (#[trigger] capabilities[i]).declaration,
                registry,
            ) is Ok,
        0 <= at < capabilities.len() && bound_capability(
            capabilities[at].declaration,
            registry,
        ) is Err && (forall|i: int|
            0 <= i < at ==> bound_capability(
                (#[trigger] capabilities[i]).declaration,
                registry,
            ) is Ok) ==> bound_capabilities(capabilities, registry) == Err::<
            Seq<MountedCapabilityModel<H>>,
            RegistryErrorModel,
        >(bound_capability(capabilities[at].declaration, registry)->Err_0),
    decreases capabilities.len(),
{
    if capabilities.len() > 0 {
        let before = capabilities.drop_last();
        let last = capabilities.len() - 1;
        law_first_unbound_capability_is_reported(before, registry, at);
        assert(forall|i: int| 0 <= i < last ==> #[trigger] before[i] == capabilities[i]);
        if bound_capabilities(capabilities, registry) is Ok {
            assert forall|i: int| 0 <= i < capabilities.len() implies bound_capability(
                (#[trigger] capabilities[i]).declaration,
                registry,
            ) is Ok by {
                if i < last {
                    assert(bound_capability(before[i].declaration, registry) is Ok);
                }
            }
        }
        if forall|i: int|
            0 <= i < capabilities.len() ==> bound_capability(
                (#[trigger] capabilities[i]).declaration,
                registry,
            ) is Ok {
            assert forall|i: int| 0 <= i < last implies bound_capability(
                (#[trigger] before[i]).declaration,
                registry,
            ) is Ok by {
                assert(bound_capability(capabilities[i].declaration, registry) is Ok);
            }
        }
        if 0 <= at < capabilities.len() && (forall|i: int|
            0 <= i < at ==> bound_capability(
                (#[trigger] capabilities[i]).declaration,
                registry,
            ) is Ok) {
            assert forall|i: int| 0 <= i < at && i < last implies bound_capability(
                (#[trigger] before[i]).declaration,
                registry,
            ) is Ok by {
                assert(bound_capability(capabilities[i].declaration, registry) is Ok);
            }
            if at < last {
                assert(before[at] == capabilities[at]);
            }
        }
    }
}

} // verus!
