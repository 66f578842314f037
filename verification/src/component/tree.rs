//! Component trees, and what they hold in author order.

use vstd::prelude::*;
use crate::component::identity::{child_path, keyed_child_path, BindingId, BindingIdModel};
use crate::component::identity::{BindingKey, ComponentError, ComponentErrorModel, ComponentId};
use crate::component::identity::{ComponentKey, PromptRole};
use crate::component::mount::{placed_models, CompiledTurn, PlacedBinding, PlacedModel};
use crate::pom::children::BlockChildren;
use crate::pom::document::Document;
use crate::pom::model::EdgeModel;

verus! {

/// Model of [`ComponentNode`].
#[allow(inconsistent_fields)]
pub enum TreeModel<V> {
    Empty,
    Pom(Seq<EdgeModel>),
    Binding { key: Seq<char>, binding: V },
    Scope { name: Seq<char>, key: Option<Seq<char>>, children: Seq<TreeModel<V>> },
    Failed(ComponentErrorModel),
}

/// One node of a component tree.
#[derive(Debug)]
#[allow(inconsistent_fields)]
pub enum ComponentNode<B> {
    /// Nothing.
    Empty,
    /// Prompt text.
    Pom(Document),
    /// A binding under its key.
    Binding { key: BindingKey, binding: B },
    /// A component with its children.
    Scope { name: String, key: Option<ComponentKey>, children: Vec<ComponentNode<B>> },
    /// A component that could not be built.
    Failed(ComponentError),
}

/// The model of an optional key.
pub open spec fn optional_key(key: Option<ComponentKey>) -> Option<Seq<char>> {
    match key {
        Some(key) => Some(key@),
        None => None,
    }
}

impl<B: View> ComponentNode<B> {
    pub(crate) open(crate) spec fn model(self) -> TreeModel<B::V>
        decreases self,
    {
        match self {
            ComponentNode::Empty => TreeModel::Empty,
            ComponentNode::Pom(document) => TreeModel::Pom(document@),
            ComponentNode::Binding { key, binding } => TreeModel::Binding {
                key: key@,
                binding: binding@,
            },
            ComponentNode::Scope { name, key, children } => TreeModel::Scope {
                name: name@,
                key: optional_key(key),
                children: Seq::new(
                    children@.len(),
                    |i: int|
                        if 0 <= i < children@.len() {
                            children@[i].model()
                        } else {
                            arbitrary()
                        },
                ),
            },
            ComponentNode::Failed(error) => TreeModel::Failed(error@),
        }
    }
}

impl<B: View> View for ComponentNode<B> {
    type V = TreeModel<B::V>;

    open(crate) spec fn view(&self) -> TreeModel<B::V> {
        self.model()
    }
}

/// The models of several nodes.
pub open spec fn tree_models<B: View>(nodes: Seq<ComponentNode<B>>) -> Seq<TreeModel<B::V>> {
    nodes.map_values(|node: ComponentNode<B>| node@)
}

pub(crate) proof fn lemma_scope_view<B: View>(
    name: String,
    key: Option<ComponentKey>,
    children: Vec<ComponentNode<B>>,
)
    ensures
        (ComponentNode::Scope { name, key, children })@ == (TreeModel::Scope {
            name: name@,
            key: optional_key(key),
            children: tree_models(children@),
        }),
{
    assert((ComponentNode::Scope { name, key, children })@->children =~= tree_models(children@));
}

/// The first failure among nodes, in author order.
pub open spec fn tree_error<V>(nodes: Seq<TreeModel<V>>) -> Option<ComponentErrorModel>
    decreases nodes,
{
    if nodes.len() == 0 {
        None
    } else {
        match tree_error(nodes.drop_last()) {
            Some(error) => Some(error),
            None => node_error(nodes.last()),
        }
    }
}

/// The first failure in a node.
pub open spec fn node_error<V>(node: TreeModel<V>) -> Option<ComponentErrorModel>
    decreases node,
{
    match node {
        TreeModel::Failed(error) => Some(error),
        TreeModel::Scope { name, key, children } => tree_error(children),
        _ => None,
    }
}

/// The text of nodes, in author order.
pub open spec fn tree_text<V>(nodes: Seq<TreeModel<V>>) -> Seq<EdgeModel>
    decreases nodes,
{
    if nodes.len() == 0 {
        Seq::empty()
    } else {
        tree_text(nodes.drop_last()) + node_text(nodes.last())
    }
}

/// The text of a node.
pub open spec fn node_text<V>(node: TreeModel<V>) -> Seq<EdgeModel>
    decreases node,
{
    match node {
        TreeModel::Pom(text) => text,
        TreeModel::Scope { name, key, children } => tree_text(children),
        _ => Seq::empty(),
    }
}

/// The path of a scope: by its key, or else by its position among its siblings.
pub open spec fn scope_path(
    parent: Seq<char>,
    name: Seq<char>,
    key: Option<Seq<char>>,
    position: nat,
) -> Seq<char> {
    match key {
        Some(key) => keyed_child_path(parent, name, key),
        None => child_path(parent, name, position),
    }
}

/// The bindings of nodes, in author order, each with its place.
pub open spec fn tree_bindings<V>(
    nodes: Seq<TreeModel<V>>,
    parent: Seq<char>,
    role: Option<PromptRole>,
) -> Seq<PlacedModel<V>>
    decreases nodes,
{
    if nodes.len() == 0 {
        Seq::empty()
    } else {
        tree_bindings(nodes.drop_last(), parent, role) + node_bindings(
            nodes.last(),
            parent,
            (nodes.len() - 1) as nat,
            role,
        )
    }
}

/// The bindings of the node at a position among its siblings.
pub open spec fn node_bindings<V>(
    node: TreeModel<V>,
    parent: Seq<char>,
    position: nat,
    role: Option<PromptRole>,
) -> Seq<PlacedModel<V>>
    decreases node,
{
    match node {
        TreeModel::Binding { key, binding } => seq![
            PlacedModel { id: BindingIdModel { component: parent, key }, role, binding },
        ],
        TreeModel::Scope { name, key, children } => tree_bindings(
            children,
            scope_path(parent, name, key, position),
            role,
        ),
        _ => Seq::empty(),
    }
}

proof fn lemma_tree_error_stays<V>(nodes: Seq<TreeModel<V>>, at: int)
    requires
        0 <= at <= nodes.len(),
        tree_error(nodes.take(at)) is Some,
    ensures
        tree_error(nodes) == tree_error(nodes.take(at)),
    decreases nodes.len(),
{
    if at < nodes.len() {
        assert(nodes.drop_last().take(at) =~= nodes.take(at));
        lemma_tree_error_stays(nodes.drop_last(), at);
    } else {
        assert(nodes.take(at) =~= nodes);
    }
}

/// The first failure among nodes, in author order.
pub fn first_error<B: View>(nodes: &Vec<ComponentNode<B>>) -> (error: Option<ComponentError>)
    ensures
        match error {
            Some(error) => tree_error(tree_models(nodes@)) == Some(error@),
            None => tree_error(tree_models(nodes@)) is None,
        },
    decreases nodes,
{
    let ghost models = tree_models(nodes@);
    let count: usize = nodes.len();
    assert(models.take(0) =~= Seq::empty());
    for i in 0..count
        invariant
            count == nodes@.len(),
            models == tree_models(nodes@),
            tree_error(models.take(i as int)) is None,
    {
        let ghost after = models.take(i + 1);
        proof {
            assert(after.drop_last() =~= models.take(i as int));
            assert(after.last() == nodes@[i as int]@);
            assert(tree_error(after) == node_error(nodes@[i as int]@));
            if tree_error(after) is Some {
                lemma_tree_error_stays(models, i + 1);
            }
            assert(decreases_to!(nodes => nodes@[i as int]));
        }
        match &nodes[i] {
            ComponentNode::Failed(error) => {
                return Some(error.clone());
            },
            ComponentNode::Scope { name, key, children } => {
                proof {
                    lemma_scope_view(*name, *key, *children);
                }
                let error = first_error(children);
                if error.is_some() {
                    return error;
                }
            },
            _ => {},
        }
    }
    assert(models.take(models.len() as int) =~= models);
    None
}

/// Takes nodes apart behind what was already collected.
fn collect<B: View>(
    nodes: Vec<ComponentNode<B>>,
    parent: &ComponentId,
    role: Option<PromptRole>,
    text: &mut BlockChildren,
    bindings: &mut Vec<PlacedBinding<B>>,
) -> (failure: Option<ComponentError>)
    ensures
        match failure {
            Some(error) => tree_error(tree_models(nodes@)) == Some(error@),
            None => {
                &&& tree_error(tree_models(nodes@)) is None
                &&& final(text)@ == old(text)@ + tree_text(tree_models(nodes@))
                &&& placed_models(final(bindings)@) == placed_models(old(bindings)@)
                    + tree_bindings(tree_models(nodes@), parent@, role)
            },
        },
    decreases nodes,
{
    let ghost models = tree_models(nodes@);
    let ghost all = nodes@;
    let ghost text_before = text@;
    let ghost bindings_before = placed_models(bindings@);
    let mut position: u64 = 0;
    let count: usize = nodes.len();
    proof {
        assert(models.take(0) =~= Seq::empty());
        assert(text_before + Seq::<EdgeModel>::empty() =~= text_before);
        assert(bindings_before + Seq::<PlacedModel<B::V>>::empty() =~= bindings_before);
    }
    for node in iter: nodes
        invariant
            iter.seq() == all,
            all == nodes@,
            count == all.len(),
            models == tree_models(all),
            position == iter.index(),
            tree_error(models.take(iter.index() as int)) is None,
            text@ == text_before + tree_text(models.take(iter.index() as int)),
            placed_models(bindings@) == bindings_before + tree_bindings(
                models.take(iter.index() as int),
                parent@,
                role,
            ),
    {
        let ghost at = iter.index() as int;
        let ghost before = models.take(at);
        let ghost after = models.take(at + 1);
        let ghost model = node@;
        let ghost text_so_far = text@;
        let ghost so_far = placed_models(bindings@);
        proof {
            assert(node == all[at]);
            assert(after.drop_last() =~= before);
            assert(after.last() == model);
            assert(decreases_to!(nodes => all[at]));
            assert(tree_error(after) == node_error(model));
            if tree_error(after) is Some {
                lemma_tree_error_stays(models, at + 1);
            }
        }
        match node {
            ComponentNode::Empty => {},
            ComponentNode::Pom(document) => {
                text.extend(document.into_children());
            },
            ComponentNode::Binding { key, binding } => {
                let placed = PlacedBinding {
                    id: BindingId::new(parent.clone(), key),
                    role,
                    binding,
                };
                let ghost added = placed@;
                bindings.push(placed);
                assert(placed_models(bindings@) =~= so_far.push(added));
                assert(so_far.push(added) =~= so_far + seq![added]);
            },
            ComponentNode::Scope { name, key, children } => {
                proof {
                    lemma_scope_view(name, key, children);
                    assert(node_error(model) == tree_error(tree_models(children@)));
                }
                let path = match &key {
                    Some(key) => parent.keyed_child(name.as_str(), key),
                    None => parent.child(name.as_str(), position),
                };
                match collect(children, &path, role, text, bindings) {
                    Some(error) => {
                        return Some(error);
                    },
                    None => {},
                }
            },
            ComponentNode::Failed(error) => {
                assert(node_error(model) == Some(error@));
                return Some(error);
            },
        }
        proof {
            let texts = tree_text(before);
            let places = tree_bindings(before, parent@, role);
            assert(text@ =~= text_so_far + node_text(model));
            assert(text_before + texts + node_text(model) =~= text_before + (texts + node_text(
                model,
            )));
            let own = node_bindings(model, parent@, at as nat, role);
            assert(placed_models(bindings@) =~= so_far + own);
            assert(bindings_before + places + own =~= bindings_before + (places + own));
        }
        assert(position < count);
        position += 1;
    }
    assert(models.take(models.len() as int) =~= models);
    None
}

/// Takes a component that stands in the system prompt apart. The first failure in
/// author order is the error.
pub fn compile_system_component<B: View>(nodes: Vec<ComponentNode<B>>) -> (result: Result<
    CompiledTurn<B>,
    ComponentError,
>)
    ensures
        match result {
            Ok(turn) => {
                &&& tree_error(tree_models(nodes@)) is None
                &&& turn.system@ == tree_text(tree_models(nodes@))
                &&& turn.user@ == Seq::<EdgeModel>::empty()
                &&& placed_models(turn.bindings@) == tree_bindings(
                    tree_models(nodes@),
                    Seq::empty(),
                    Some(PromptRole::System),
                )
            },
            Err(error) => tree_error(tree_models(nodes@)) == Some(error@),
        },
{
    let mut text = BlockChildren::new();
    let mut bindings: Vec<PlacedBinding<B>> = Vec::new();
    let root = ComponentId::root();
    let ghost models = tree_models(nodes@);
    assert(placed_models(bindings@) =~= Seq::empty());
    match collect(nodes, &root, Some(PromptRole::System), &mut text, &mut bindings) {
        Some(error) => Err(error),
        None => {
            assert(Seq::<EdgeModel>::empty() + tree_text(models) =~= tree_text(models));
            let ghost places = tree_bindings(models, Seq::empty(), Some(PromptRole::System));
            assert(Seq::<PlacedModel<B::V>>::empty() + places =~= places);
            Ok(
                CompiledTurn {
                    system: Document::new(text),
                    user: Document::new(BlockChildren::new()),
                    bindings,
                },
            )
        },
    }
}

} // verus!
