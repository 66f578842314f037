//! What durable components are when they are created, and when they are reopened.

use vstd::prelude::*;
use crate::component::declaration::DeclarationModel;
use crate::component::durable::{appended, consumed, consumed_nodes, consumed_system, created};
use crate::component::durable::{created_nodes, created_system, first_failure, has_prompt};
use crate::component::durable::{is_fresh, leaf_mapped, mounted, node_mapped, reopened};
use crate::component::durable::{reopened_nodes, reopened_system, scoped, system_has_prompt};
use crate::component::durable::{DurableComponent, DurableModel, LeafModel};
use crate::component::identity::{ComponentErrorModel, PromptRole};
use crate::component::mount::{mount_fault, mounted_capabilities, mounted_factories};
use crate::component::mount::MountErrorModel;
use crate::component::tree::{tree_bindings, tree_error, TreeModel};
use crate::pom::model::EdgeModel;

verus! {

/// A prompt is created as the text that it is, once. A second time it fails, and says so.
pub proof fn law_prompts_are_created_once<F, D>(
    prompt: Seq<EdgeModel>,
    error: ComponentErrorModel,
)
    ensures
        created(DurableModel::<F, D>::Pom(Some(prompt))) == TreeModel::<
            DeclarationModel<F, D>,
        >::Pom(prompt),
        created(DurableModel::<F, D>::Pom(None)) == TreeModel::<DeclarationModel<F, D>>::Failed(
            ComponentErrorModel::InvalidBindingContract {
                message: "a durable System POM projection can only be mounted once per process"@,
            },
        ),
        consumed(DurableModel::<F, D>::Pom(Some(prompt))) == DurableModel::<F, D>::Pom(None),
        consumed(DurableModel::<F, D>::Pom(None)) == DurableModel::<F, D>::Pom(None),
        reopened(DurableModel::<F, D>::Pom(Some(prompt))) is Empty,
        reopened(DurableModel::<F, D>::Pom(None)) is Empty,
        created(DurableModel::<F, D>::Failed(error)) == TreeModel::<DeclarationModel<F, D>>::Failed(
            error,
        ),
        reopened(DurableModel::<F, D>::Failed(error)) == TreeModel::<
            DeclarationModel<F, D>,
        >::Failed(error),
        consumed(DurableModel::<F, D>::Failed(error)) == DurableModel::<F, D>::Failed(error),
{
}

/// A declaration stands in a component of its own, under its key. It is created behind its
/// prompt, once, and reopened without.
pub proof fn law_declarations_stand_behind_their_prompts<F, D>(leaf: LeafModel<F, D>)
    ensures
        ({
            let fresh = created(DurableModel::Runtime(leaf));
            &&& leaf.prompt is Some ==> {
                &&& fresh is Scope
                &&& fresh->Scope_name == leaf.name
                &&& fresh->Scope_key == Some(leaf.key)
                &&& fresh->children.len() == 2
                &&& fresh->children[0] == TreeModel::<DeclarationModel<F, D>>::Pom(
                    leaf.prompt->Some_0,
                )
                &&& fresh->children[1] == TreeModel::Binding {
                    key: "runtime"@,
                    binding: leaf.declaration,
                }
            }
            &&& leaf.prompt is None ==> fresh == TreeModel::<DeclarationModel<F, D>>::Failed(
                ComponentErrorModel::InvalidBindingContract {
                    message:
                        "a durable component POM projection can only be mounted once per process"@,
                },
            )
        }),
        ({
            let again = reopened(DurableModel::Runtime(leaf));
            &&& again is Scope
            &&& again->Scope_name == leaf.name
            &&& again->Scope_key == Some(leaf.key)
            &&& again->children.len() == 1
            &&& again->children[0] == TreeModel::Binding {
                key: "runtime"@,
                binding: leaf.declaration,
            }
        }),
        ({
            let after = consumed(DurableModel::Runtime(leaf));
            &&& after is Runtime
            &&& after->Runtime_0.prompt is None
            &&& after->Runtime_0.name == leaf.name
            &&& after->Runtime_0.key == leaf.key
            &&& after->Runtime_0.declaration == leaf.declaration
        }),
{
}

/// A scope is created, reopened and used up child by child, and keeps its name and its key.
pub proof fn law_scopes_keep_their_children_in_place<F, D>(
    name: Seq<char>,
    key: Option<Seq<char>>,
    children: Seq<DurableModel<F, D>>,
    at: int,
)
    requires
        0 <= at < children.len(),
    ensures
        ({
            let node = DurableModel::Scope { name, key, children };
            let fresh = created(node);
            let again = reopened(node);
            let after = consumed(node);
            &&& fresh is Scope && fresh->Scope_name == name && fresh->Scope_key == key
            &&& fresh->children.len() == children.len()
            &&& fresh->children[at] == created(children[at])
            &&& again is Scope && again->Scope_name == name && again->Scope_key == key
            &&& again->children.len() == children.len()
            &&& again->children[at] == reopened(children[at])
            &&& after is Scope && after->Scope_name == name && after->Scope_key == key
            &&& after->children.len() == children.len()
            &&& after->children[at] == consumed(children[at])
        }),
{
}

/// Several nodes are created, reopened and used up one by one. A failed system has nothing
/// but its failure.
pub proof fn law_systems_are_read_node_by_node<F, D>(
    nodes: Seq<DurableModel<F, D>>,
    at: int,
    error: ComponentErrorModel,
)
    ensures
        created_nodes(nodes).len() == nodes.len(),
        reopened_nodes(nodes).len() == nodes.len(),
        consumed_nodes(nodes).len() == nodes.len(),
        0 <= at < nodes.len() ==> created_nodes(nodes)[at] == created(nodes[at]),
        0 <= at < nodes.len() ==> reopened_nodes(nodes)[at] == reopened(nodes[at]),
        0 <= at < nodes.len() ==> consumed_nodes(nodes)[at] == consumed(nodes[at]),
        created_system(Ok::<Seq<DurableModel<F, D>>, ComponentErrorModel>(nodes)) == created_nodes(
            nodes,
        ),
        reopened_system(Ok::<Seq<DurableModel<F, D>>, ComponentErrorModel>(nodes))
            == reopened_nodes(nodes),
        consumed_system(Ok::<Seq<DurableModel<F, D>>, ComponentErrorModel>(nodes)) == Ok::<
            Seq<DurableModel<F, D>>,
            ComponentErrorModel,
        >(consumed_nodes(nodes)),
        created_system(Err::<Seq<DurableModel<F, D>>, ComponentErrorModel>(error)) == seq![
            TreeModel::<DeclarationModel<F, D>>::Failed(error),
        ],
        reopened_system(Err::<Seq<DurableModel<F, D>>, ComponentErrorModel>(error)) == seq![
            TreeModel::<DeclarationModel<F, D>>::Failed(error),
        ],
        consumed_system(Err::<Seq<DurableModel<F, D>>, ComponentErrorModel>(error)) == Err::<
            Seq<DurableModel<F, D>>,
            ComponentErrorModel,
        >(error),
{
}

/// A node is fresh exactly where no prompt of it is gone, and has a prompt exactly where
/// there is one at some depth.
pub proof fn law_fresh_nodes_have_their_prompts<F, D>(
    prompt: Option<Seq<EdgeModel>>,
    leaf: LeafModel<F, D>,
    error: ComponentErrorModel,
    system: Result<Seq<DurableModel<F, D>>, ComponentErrorModel>,
)
    ensures
        is_fresh(DurableModel::<F, D>::Pom(prompt)) <==> prompt is Some,
        is_fresh(DurableModel::Runtime(leaf)) <==> leaf.prompt is Some,
        is_fresh(DurableModel::<F, D>::Failed(error)),
        has_prompt(DurableModel::<F, D>::Pom(prompt)),
        has_prompt(DurableModel::Runtime(leaf)),
        !has_prompt(DurableModel::<F, D>::Failed(error)),
        system is Ok ==> (system_has_prompt(system) <==> exists|i: int|
            0 <= i < system->Ok_0.len() && has_prompt(#[trigger] system->Ok_0[i])),
        system is Err ==> !system_has_prompt(system),
{
}

/// A scope is fresh exactly where all its children are, and has a prompt exactly where one
/// of them has.
pub proof fn law_scopes_have_the_prompts_of_their_children<F, D>(node: DurableModel<F, D>)
    requires
        node is Scope,
    ensures
        is_fresh(node) <==> forall|i: int|
            0 <= i < node->children.len() ==> is_fresh(#[trigger] node->children[i]),
        has_prompt(node) <==> exists|i: int|
            0 <= i < node->children.len() && has_prompt(#[trigger] node->children[i]),
{
    match node {
        DurableModel::Scope { name, key, children } => {
            if is_fresh(node) {
                assert forall|i: int| 0 <= i < children.len() implies is_fresh(
                    #[trigger] children[i],
                ) by {}
            }
            if exists|i: int| 0 <= i < children.len() && has_prompt(#[trigger] children[i]) {
                let i = choose|i: int|
                    0 <= i < children.len() && has_prompt(#[trigger] children[i]);
                assert(has_prompt(children[i]));
                assert(has_prompt(node));
            }
        },
        _ => {},
    }
}

/// Systems behind each other hold the nodes of both, in order, or the first failure.
pub proof fn law_systems_follow_each_other<F, D>(
    first: Result<Seq<DurableModel<F, D>>, ComponentErrorModel>,
    second: Result<Seq<DurableModel<F, D>>, ComponentErrorModel>,
)
    ensures
        appended(first, second) is Ok <==> first is Ok && second is Ok,
        first is Ok && second is Ok ==> appended(first, second)->Ok_0 == first->Ok_0
            + second->Ok_0,
        first is Err ==> appended(first, second) == first,
        first is Ok && second is Err ==> appended(first, second) == second,
{
}

/// A system inside a component is one scope of that name without a key, which holds its
/// nodes or its failure. Nothing needs no scope.
pub proof fn law_systems_stand_in_their_component<F, D>(
    system: Result<Seq<DurableModel<F, D>>, ComponentErrorModel>,
    name: Seq<char>,
)
    ensures
        ({
            let inside = scoped(system, name);
            &&& system is Ok && system->Ok_0.len() == 0 ==> inside.len() == 0
            &&& system is Err || system->Ok_0.len() > 0 ==> {
                &&& inside.len() == 1
                &&& inside[0] is Scope
                &&& inside[0]->Scope_name == name
                &&& inside[0]->Scope_key is None
                &&& system is Ok ==> inside[0]->children == system->Ok_0
                &&& system is Err ==> inside[0]->children == seq![
                    DurableModel::<F, D>::Failed(system->Err_0),
                ]
            }
        }),
{
}

/// Of several components the first failure counts.
pub proof fn law_first_failed_component_counts<F, D>(
    components: Seq<DurableComponent<F, D>>,
    last: DurableComponent<F, D>,
)
    ensures
        first_failure(Seq::<DurableComponent<F, D>>::empty()) is None,
        first_failure(components) is Some ==> first_failure(components.push(last))
            == first_failure(components),
        first_failure(components) is None && last@ is Ok ==> first_failure(
            components.push(last),
        ) is None,
        first_failure(components) is None && last@ is Err ==> first_failure(components.push(last))
            == Some(last@->Err_0),
{
    assert(components.push(last).drop_last() =~= components);
}

/// A durable system is mounted exactly where no node of it failed and every declaration is
/// durable and can be mounted. What is mounted is what its bindings declare.
pub proof fn law_durable_systems_are_mounted_whole<F, D>(
    trees: Seq<TreeModel<DeclarationModel<F, D>>>,
)
    ensures
        ({
            let bindings = tree_bindings(trees, Seq::empty(), Some(PromptRole::System));
            let result = mounted(trees);
            &&& result is Ok <==> tree_error(trees) is None && mount_fault(bindings, true) is None
            &&& tree_error(trees) is Some ==> result is Err && result->Err_0
                == MountErrorModel::Component(tree_error(trees)->Some_0)
            &&& tree_error(trees) is None && mount_fault(bindings, true) is Some ==> result
                is Err && result->Err_0 == mount_fault(bindings, true)->Some_0
            &&& result is Ok ==> result->Ok_0.factories == mounted_factories(bindings)
                && result->Ok_0.capabilities == mounted_capabilities(bindings)
        }),
{
}

/// A component that is carried over keeps its name, its key, its prompt and its place, and
/// each declaration stays what it was declared as.
pub proof fn law_carried_components_stay_the_same<F, D, G, E>(
    factories: spec_fn(F, G) -> bool,
    dispatchers: spec_fn(D, E) -> bool,
    from: LeafModel<F, D>,
    to: LeafModel<G, E>,
)
    requires
        leaf_mapped(factories, dispatchers, from, to),
    ensures
        to.name == from.name,
        to.key == from.key,
        to.prompt == from.prompt,
        to.declaration.declaration_id() == from.declaration.declaration_id(),
        to.declaration is BindingFactory <==> from.declaration is BindingFactory,
        node_mapped(
            factories,
            dispatchers,
            DurableModel::Runtime(from),
            DurableModel::Runtime(to),
        ),
{
}

} // verus!
