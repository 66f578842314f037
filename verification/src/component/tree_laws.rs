//! What a component tree amounts to, and where its bindings stand.

use vstd::prelude::*;
use crate::component::identity::{ComponentErrorModel, PromptRole};
use crate::component::mount::PlacedModel;
use crate::component::tree::{node_bindings, node_error, tree_bindings, tree_error};
use crate::component::tree::{tree_text, TreeModel};
use crate::pom::model::EdgeModel;
use crate::text_chars::decimal;

verus! {

/// Trees behind each other say one after the other what each of them says.
pub proof fn law_text_keeps_author_order<V>(first: Seq<TreeModel<V>>, second: Seq<TreeModel<V>>)
    ensures
        tree_text(first + second) == tree_text(first) + tree_text(second),
    decreases second.len(),
{
    if second.len() == 0 {
        assert(first + second =~= first);
    } else {
        assert((first + second).drop_last() =~= first + second.drop_last());
        law_text_keeps_author_order(first, second.drop_last());
    }
}

/// A prompt says its text, a scope what its children say, and nothing else says anything.
pub proof fn law_only_prompts_say_something<V>(
    node: TreeModel<V>,
    text: Seq<EdgeModel>,
    name: Seq<char>,
    key: Option<Seq<char>>,
    children: Seq<TreeModel<V>>,
)
    ensures
        tree_text(seq![TreeModel::<V>::Pom(text)]) == text,
        tree_text(seq![TreeModel::Scope { name, key, children }]) == tree_text(children),
        !(node is Pom) && !(node is Scope) ==> tree_text(seq![node]).len() == 0,
        tree_text(Seq::<TreeModel<V>>::empty()).len() == 0,
{
    reveal_with_fuel(tree_text, 2);
    let prompt = seq![TreeModel::<V>::Pom(text)];
    assert(prompt.drop_last() =~= Seq::empty());
    let scope = seq![TreeModel::Scope { name, key, children }];
    assert(scope.drop_last() =~= Seq::empty());
    assert(scope.last() == TreeModel::Scope { name, key, children });
    assert(seq![node].drop_last() =~= Seq::empty());
}

/// A tree fails exactly where some node of it fails, and with the first failure.
pub proof fn law_first_failure_is_reported<V>(nodes: Seq<TreeModel<V>>, at: int)
    ensures
        tree_error(nodes) is None <==> forall|i: int|
            0 <= i < nodes.len() ==> node_error(#[trigger] nodes[i]) is None,
        0 <= at < nodes.len() && node_error(nodes[at]) is Some && (forall|i: int|
            0 <= i < at ==> node_error(#[trigger] nodes[i]) is None) ==> tree_error(nodes)
            == node_error(nodes[at]),
    decreases nodes.len(),
{
    if nodes.len() > 0 {
        let before = nodes.drop_last();
        law_first_failure_is_reported(before, at);
        assert(forall|i: int| 0 <= i < before.len() ==> before[i] == #[trigger] nodes[i]);
        if tree_error(nodes) is None {
            assert forall|i: int| 0 <= i < nodes.len() implies node_error(
                #[trigger] nodes[i],
            ) is None by {
                if i < before.len() {
                    assert(node_error(before[i]) is None);
                }
            }
        }
        if forall|i: int| 0 <= i < nodes.len() ==> node_error(#[trigger] nodes[i]) is None {
            assert forall|i: int| 0 <= i < before.len() implies node_error(
                #[trigger] before[i],
            ) is None by {
                assert(node_error(nodes[i]) is None);
            }
        }
        if 0 <= at < nodes.len() && node_error(nodes[at]) is Some && (forall|i: int|
            0 <= i < at ==> node_error(#[trigger] nodes[i]) is None) {
            if at < before.len() {
                assert(before[at] == nodes[at]);
                assert forall|i: int| 0 <= i < at implies node_error(
                    #[trigger] before[i],
                ) is None by {
                    assert(node_error(nodes[i]) is None);
                }
            } else {
                assert forall|i: int| 0 <= i < before.len() implies node_error(
                    #[trigger] before[i],
                ) is None by {
                    assert(node_error(nodes[i]) is None);
                }
            }
        }
    }
}

/// A failed node fails with its own error, a scope with that of its children, and nothing
/// else fails.
pub proof fn law_only_failed_nodes_fail<V>(
    node: TreeModel<V>,
    error: ComponentErrorModel,
    name: Seq<char>,
    key: Option<Seq<char>>,
    children: Seq<TreeModel<V>>,
)
    ensures
        node_error(TreeModel::<V>::Failed(error)) == Some(error),
        node_error(TreeModel::Scope { name, key, children }) == tree_error(children),
        !(node is Failed) && !(node is Scope) ==> node_error(node) is None,
{
}

/// The bindings of trees stand in author order, each numbered by its place among its
/// siblings.
pub proof fn law_bindings_keep_author_order<V>(
    nodes: Seq<TreeModel<V>>,
    last: TreeModel<V>,
    parent: Seq<char>,
    role: Option<PromptRole>,
)
    ensures
        tree_bindings(nodes.push(last), parent, role) == tree_bindings(nodes, parent, role)
            + node_bindings(last, parent, nodes.len(), role),
        tree_bindings(Seq::<TreeModel<V>>::empty(), parent, role).len() == 0,
{
    assert(nodes.push(last).drop_last() =~= nodes);
}

/// A binding stands under its key in the component that it is written in. A scope is a
/// component of its own: its path names it behind the parent, with its key or else with its
/// place.
pub proof fn law_bindings_stand_where_they_are_written<V>(
    node: TreeModel<V>,
    key: Seq<char>,
    binding: V,
    name: Seq<char>,
    children: Seq<TreeModel<V>>,
    parent: Seq<char>,
    position: nat,
    role: Option<PromptRole>,
)
    ensures
        ({
            let placed = node_bindings(TreeModel::Binding { key, binding }, parent, position, role);
            &&& placed.len() == 1
            &&& placed[0].id.component == parent
            &&& placed[0].id.key == key
            &&& placed[0].role == role
            &&& placed[0].binding == binding
        }),
        node_bindings(
            TreeModel::Scope { name, key: Some(key), children },
            parent,
            position,
            role,
        ) == tree_bindings(children, parent + seq!['/'] + name + seq!['['] + key + seq![']'], role),
        node_bindings(TreeModel::Scope { name, key: None, children }, parent, position, role)
            == tree_bindings(
            children,
            parent + seq!['/'] + name + seq!['#'] + decimal(position),
            role,
        ),
        !(node is Binding) && !(node is Scope) ==> node_bindings(
            node,
            parent,
            position,
            role,
        ).len() == 0,
{
}

/// Every binding of a tree has the role of the prompt that it is written in, and stands
/// below the component of that prompt.
pub proof fn law_bindings_have_the_role_of_their_prompt<V>(
    nodes: Seq<TreeModel<V>>,
    parent: Seq<char>,
    role: Option<PromptRole>,
)
    ensures
        forall|i: int|
            0 <= i < tree_bindings(nodes, parent, role).len() ==> {
                let placed: PlacedModel<V> = #[trigger] tree_bindings(nodes, parent, role)[i];
                placed.role == role && parent.is_prefix_of(placed.id.component)
            },
    decreases nodes,
{
    if nodes.len() > 0 {
        let before = tree_bindings(nodes.drop_last(), parent, role);
        law_bindings_have_the_role_of_their_prompt(nodes.drop_last(), parent, role);
        law_node_has_the_role_of_its_prompt(
            nodes.last(),
            parent,
            (nodes.len() - 1) as nat,
            role,
        );
        let here = node_bindings(nodes.last(), parent, (nodes.len() - 1) as nat, role);
        assert forall|i: int| 0 <= i < tree_bindings(nodes, parent, role).len() implies {
            let placed: PlacedModel<V> = #[trigger] tree_bindings(nodes, parent, role)[i];
            placed.role == role && parent.is_prefix_of(placed.id.component)
        } by {
            if i < before.len() {
                assert(tree_bindings(nodes, parent, role)[i] == before[i]);
            } else {
                assert(tree_bindings(nodes, parent, role)[i] == here[i - before.len()]);
            }
        }
    }
}

/// Every binding of one node has the role of the prompt that it is written in, and stands
/// below the component of that prompt.
pub proof fn law_node_has_the_role_of_its_prompt<V>(
    node: TreeModel<V>,
    parent: Seq<char>,
    position: nat,
    role: Option<PromptRole>,
)
    ensures
        forall|i: int|
            0 <= i < node_bindings(node, parent, position, role).len() ==> {
                let placed: PlacedModel<V> = #[trigger] node_bindings(
                    node,
                    parent,
                    position,
                    role,
                )[i];
                placed.role == role && parent.is_prefix_of(placed.id.component)
            },
    decreases node,
{
    match node {
        TreeModel::Scope { name, key, children } => {
            let path = match key {
                Some(key) => parent + seq!['/'] + name + seq!['['] + key + seq![']'],
                None => parent + seq!['/'] + name + seq!['#'] + decimal(position),
            };
            law_bindings_have_the_role_of_their_prompt(children, path, role);
            assert(parent.is_prefix_of(path));
            let here = tree_bindings(children, path, role);
            assert(node_bindings(node, parent, position, role) == here);
            assert forall|i: int| 0 <= i < here.len() implies parent.is_prefix_of(
                (#[trigger] here[i]).id.component,
            ) by {
                assert(path.is_prefix_of(here[i].id.component));
                assert(parent =~= here[i].id.component.subrange(0, parent.len() as int));
            }
        },
        _ => {},
    }
}

} // verus!
