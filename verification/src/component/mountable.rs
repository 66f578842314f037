//! Components that can be mounted: prompt text together with the declarations that make
//! it run.

use std::sync::Arc;
use vstd::prelude::*;
use crate::component::channels::TurnChannels;
use crate::component::declaration::{by_function, declaration_mapped, share, DeclarationModel};
use crate::component::declaration::RuntimeDeclaration;
use crate::component::identity::{is_key, ComponentError, ComponentErrorModel, ComponentKey};
use crate::component::identity::PromptRole;
use crate::component::maker::{is_mapped, is_projected, through_map, through_projection};
use crate::component::maker::{MappedMaker, ProjectedMaker};
use crate::component::mount::PlacedModel;
use crate::component::tree::{first_error, lemma_scope_view, node_bindings, node_error, node_text};
use crate::component::tree::{scope_path, tree_bindings, tree_error, tree_models, tree_text};
use crate::component::tree::{ComponentNode, TreeModel};

verus! {

/// A component that can be mounted: its nodes, in author order.
#[must_use]
#[derive(Debug)]
pub struct Component<F, D> {
    pub(crate) nodes: Vec<ComponentNode<RuntimeDeclaration<F, D>>>,
}

impl<F, D> View for Component<F, D> {
    type V = Seq<TreeModel<DeclarationModel<F, D>>>;

    open(crate) spec fn view(&self) -> Seq<TreeModel<DeclarationModel<F, D>>> {
        tree_models(self.nodes@)
    }
}

/// A component of several nodes.
pub fn component<F, D>(nodes: Vec<ComponentNode<RuntimeDeclaration<F, D>>>) -> (result: Component<
    F,
    D,
>)
    ensures
        result@ == tree_models(nodes@),
{
    Component { nodes }
}

/// What becomes of a component that its author gives a key: a failure stays what it is,
/// and only a single scope without a key takes one.
pub open spec fn keyed_component<V>(nodes: Seq<TreeModel<V>>, key: Seq<char>) -> TreeModel<V> {
    match tree_error(nodes) {
        Some(error) => TreeModel::Failed(error),
        None => if !is_key(key) {
            TreeModel::Failed(ComponentErrorModel::InvalidKey { value: key })
        } else if nodes.len() != 1 {
            TreeModel::Failed(ComponentErrorModel::KeyRequiresComponent)
        } else {
            match nodes[0] {
                TreeModel::Scope { name, key: old, children } => if old is Some {
                    TreeModel::Failed(ComponentErrorModel::ComponentAlreadyKeyed)
                } else {
                    TreeModel::Scope { name, key: Some(key), children }
                },
                _ => TreeModel::Failed(ComponentErrorModel::KeyRequiresComponent),
            }
        },
    }
}

fn key_nodes<B: View>(nodes: Vec<ComponentNode<B>>, key: &str) -> (node: ComponentNode<B>)
    ensures
        node@ == keyed_component(tree_models(nodes@), key@),
{
    match first_error(&nodes) {
        Some(error) => return ComponentNode::Failed(error),
        None => {},
    }
    let key = match ComponentKey::new(key) {
        Ok(key) => key,
        Err(error) => return ComponentNode::Failed(error),
    };
    let ghost models = tree_models(nodes@);
    assert(models.len() == nodes@.len());
    if nodes.len() != 1 {
        return ComponentNode::Failed(ComponentError::KeyRequiresComponent);
    }
    let mut nodes = nodes;
    assert(models[0] == nodes@[0]@);
    match nodes.pop() {
        Some(ComponentNode::Scope { name, key: old, children }) => {
            proof {
                lemma_scope_view(name, old, children);
            }
            if old.is_some() {
                return ComponentNode::Failed(ComponentError::ComponentAlreadyKeyed);
            }
            let key = Some(key);
            proof {
                lemma_scope_view(name, key, children);
            }
            ComponentNode::Scope { name, key, children }
        },
        _ => ComponentNode::Failed(ComponentError::KeyRequiresComponent),
    }
}

/// Whether a tree was carried over: the same shape, text, names, keys and failures, with
/// the handles of its declarations replaced.
pub open spec fn tree_mapped<F, D, G, E>(
    factories: spec_fn(F, G) -> bool,
    dispatchers: spec_fn(D, E) -> bool,
    from: TreeModel<DeclarationModel<F, D>>,
    to: TreeModel<DeclarationModel<G, E>>,
) -> bool
    decreases from,
{
    match (from, to) {
        (TreeModel::Empty, TreeModel::Empty) => true,
        (TreeModel::Pom(from), TreeModel::Pom(to)) => to == from,
        (
            TreeModel::Binding { key, binding },
            TreeModel::Binding { key: to_key, binding: to_binding },
        ) => to_key == key && declaration_mapped(factories, dispatchers, binding, to_binding),
        (
            TreeModel::Scope { name, key, children },
            TreeModel::Scope { name: to_name, key: to_key, children: to_children },
        ) => {
            &&& to_name == name
            &&& to_key == key
            &&& to_children.len() == children.len()
            &&& forall|i: int|
                0 <= i < children.len() ==> tree_mapped(
                    factories,
                    dispatchers,
                    children[i],
                    #[trigger] to_children[i],
                )
        },
        (TreeModel::Failed(from), TreeModel::Failed(to)) => to == from,
        _ => false,
    }
}

/// Whether trees were carried over, one by one.
pub open spec fn trees_mapped<F, D, G, E>(
    factories: spec_fn(F, G) -> bool,
    dispatchers: spec_fn(D, E) -> bool,
    from: Seq<TreeModel<DeclarationModel<F, D>>>,
    to: Seq<TreeModel<DeclarationModel<G, E>>>,
) -> bool {
    &&& to.len() == from.len()
    &&& forall|i: int|
        0 <= i < from.len() ==> tree_mapped(factories, dispatchers, from[i], #[trigger] to[i])
}

fn map_trees<F, D, G, E, M: Fn(Arc<F>) -> Arc<G>, N: Fn(Arc<D>) -> Arc<E>>(
    nodes: Vec<ComponentNode<RuntimeDeclaration<F, D>>>,
    factories: &M,
    dispatchers: &N,
) -> (mapped: Vec<ComponentNode<RuntimeDeclaration<G, E>>>)
    requires
        forall|handle: Arc<F>| #[trigger] factories.requires((handle,)),
        forall|handle: Arc<D>| #[trigger] dispatchers.requires((handle,)),
    ensures
        trees_mapped(by_function(*factories), by_function(*dispatchers), tree_models(nodes@), tree_models(mapped@)),
    decreases nodes,
{
    let ghost all = nodes@;
    let mut mapped: Vec<ComponentNode<RuntimeDeclaration<G, E>>> = Vec::new();
    for node in iter: nodes
        invariant
            iter.seq() == all,
            all == nodes@,
            forall|handle: Arc<F>| #[trigger] factories.requires((handle,)),
            forall|handle: Arc<D>| #[trigger] dispatchers.requires((handle,)),
            mapped@.len() == iter.index(),
            forall|i: int|
                0 <= i < mapped@.len() ==> tree_mapped(
                    by_function(*factories),
                    by_function(*dispatchers),
                    all[i]@,
                    (#[trigger] mapped@[i])@,
                ),
    {
        let ghost at = iter.index() as int;
        let ghost model = node@;
        proof {
            assert(node == all[at]);
            assert(decreases_to!(nodes => all[at]));
        }
        let next = match node {
            ComponentNode::Empty => ComponentNode::Empty,
            ComponentNode::Pom(document) => ComponentNode::Pom(document),
            ComponentNode::Binding { key, binding } => ComponentNode::Binding {
                key,
                binding: binding.map_handles(factories, dispatchers),
            },
            ComponentNode::Scope { name, key, children } => {
                proof {
                    lemma_scope_view(name, key, children);
                }
                let children = map_trees(children, factories, dispatchers);
                proof {
                    lemma_scope_view(name, key, children);
                }
                ComponentNode::Scope { name, key, children }
            },
            ComponentNode::Failed(error) => ComponentNode::Failed(error),
        };
        assert(tree_mapped(by_function(*factories), by_function(*dispatchers), model, next@));
        mapped.push(next);
    }
    proof {
        assert forall|i: int| 0 <= i < all.len() implies tree_mapped(
            by_function(*factories),
            by_function(*dispatchers),
            tree_models(all)[i],
            #[trigger] tree_models(mapped@)[i],
        ) by {
            assert(tree_models(mapped@)[i] == mapped@[i]@);
        }
    }
    mapped
}

impl<F, D> Component<F, D> {
    /// The nodes, in author order.
    pub fn nodes(&self) -> (nodes: &Vec<ComponentNode<RuntimeDeclaration<F, D>>>)
        ensures
            tree_models(nodes@) == self@,
    {
        &self.nodes
    }

    pub fn into_nodes(self) -> (nodes: Vec<ComponentNode<RuntimeDeclaration<F, D>>>)
        ensures
            tree_models(nodes@) == self@,
    {
        self.nodes
    }

    /// The component that could not be built.
    pub fn from_error(error: ComponentError) -> (component: Self)
        ensures
            component@ == seq![TreeModel::<DeclarationModel<F, D>>::Failed(error@)],
    {
        Self::from_node(ComponentNode::Failed(error))
    }

    /// The component of one node.
    pub fn from_node(node: ComponentNode<RuntimeDeclaration<F, D>>) -> (component: Self)
        ensures
            component@ == seq![node@],
    {
        let ghost model = node@;
        let mut nodes: Vec<ComponentNode<RuntimeDeclaration<F, D>>> = Vec::new();
        nodes.push(node);
        assert(tree_models(nodes@) =~= seq![model]);
        Self { nodes }
    }

    /// Gives the component a stable key in its parent.
    pub fn key(self, key: &str) -> (component: Self)
        ensures
            component@ == seq![keyed_component(self@, key@)],
    {
        Self::from_node(key_nodes(self.nodes, key))
    }

    /// Puts other handles in place of the host's: everything else stays.
    pub fn map_handles<G, E, M: Fn(Arc<F>) -> Arc<G>, N: Fn(Arc<D>) -> Arc<E>>(
        self,
        factories: &M,
        dispatchers: &N,
    ) -> (mapped: Component<G, E>)
        requires
            forall|handle: Arc<F>| #[trigger] factories.requires((handle,)),
            forall|handle: Arc<D>| #[trigger] dispatchers.requires((handle,)),
        ensures
            trees_mapped(by_function(*factories), by_function(*dispatchers), self@, mapped@),
    {
        Component { nodes: map_trees(self.nodes, factories, dispatchers) }
    }

    /// Carries the component over to the lanes of the surrounding one: what its makers
    /// make is mapped, everything else stays.
    pub fn map_channels<Local: TurnChannels, M>(self, map: Arc<M>) -> (mapped: Component<
        MappedMaker<Local, F, M>,
        MappedMaker<Local, D, M>,
    >)
        ensures
            trees_mapped(
                through_map::<Local, F, M>(map),
                through_map::<Local, D, M>(map),
                self@,
                mapped@,
            ),
    {
        let factories = |handle: Arc<F>| -> (made: Arc<MappedMaker<Local, F, M>>)
            ensures
                is_mapped(&map, *handle, *made),
            { Arc::new(MappedMaker::new(handle, share(&map))) };
        let dispatchers = |handle: Arc<D>| -> (made: Arc<MappedMaker<Local, D, M>>)
            ensures
                is_mapped(&map, *handle, *made),
            { Arc::new(MappedMaker::new(handle, share(&map))) };
        let ghost from = self@;
        let mapped = self.map_handles(&factories, &dispatchers);
        proof {
            lemma_trees_weaker(
                by_function(factories),
                by_function(dispatchers),
                through_map::<Local, F, M>(map),
                through_map::<Local, D, M>(map),
                from,
                mapped@,
            );
        }
        mapped
    }

    /// Lets the component read its properties out of those of the surrounding one: its
    /// makers are told a part of them, everything else stays.
    pub fn project_props<Props, P>(self, project: Arc<P>) -> (projected: Component<
        ProjectedMaker<Props, F, P>,
        ProjectedMaker<Props, D, P>,
    >)
        ensures
            trees_mapped(
                through_projection::<Props, F, P>(project),
                through_projection::<Props, D, P>(project),
                self@,
                projected@,
            ),
    {
        let factories = |handle: Arc<F>| -> (made: Arc<ProjectedMaker<Props, F, P>>)
            ensures
                is_projected(&project, *handle, *made),
            { Arc::new(ProjectedMaker::new(handle, share(&project))) };
        let dispatchers = |handle: Arc<D>| -> (made: Arc<ProjectedMaker<Props, D, P>>)
            ensures
                is_projected(&project, *handle, *made),
            { Arc::new(ProjectedMaker::new(handle, share(&project))) };
        let ghost from = self@;
        let projected = self.map_handles(&factories, &dispatchers);
        proof {
            lemma_trees_weaker(
                by_function(factories),
                by_function(dispatchers),
                through_projection::<Props, F, P>(project),
                through_projection::<Props, D, P>(project),
                from,
                projected@,
            );
        }
        projected
    }

    /// The component itself, where something that becomes one is asked for.
    pub fn into_component(self) -> (component: Self)
        ensures
            component == self,
    {
        self
    }
}

proof fn lemma_tree_weaker<F, D, G, E>(
    factories: spec_fn(F, G) -> bool,
    dispatchers: spec_fn(D, E) -> bool,
    weaker_factories: spec_fn(F, G) -> bool,
    weaker_dispatchers: spec_fn(D, E) -> bool,
    from: TreeModel<DeclarationModel<F, D>>,
    to: TreeModel<DeclarationModel<G, E>>,
)
    requires
        tree_mapped(factories, dispatchers, from, to),
        forall|f: F, g: G| #[trigger] factories(f, g) ==> weaker_factories(f, g),
        forall|d: D, e: E| #[trigger] dispatchers(d, e) ==> weaker_dispatchers(d, e),
    ensures
        tree_mapped(weaker_factories, weaker_dispatchers, from, to),
    decreases from,
{
    match (from, to) {
        (
            TreeModel::Scope { name, key, children },
            TreeModel::Scope { name: _, key: _, children: to_children },
        ) => {
            assert forall|i: int| 0 <= i < children.len() implies tree_mapped(
                weaker_factories,
                weaker_dispatchers,
                children[i],
                #[trigger] to_children[i],
            ) by {
                assert(decreases_to!(from => children));
                assert(decreases_to!(from => children[i]));
                lemma_tree_weaker(
                    factories,
                    dispatchers,
                    weaker_factories,
                    weaker_dispatchers,
                    children[i],
                    to_children[i],
                );
            }
        },
        _ => {},
    }
}

proof fn lemma_trees_weaker<F, D, G, E>(
    factories: spec_fn(F, G) -> bool,
    dispatchers: spec_fn(D, E) -> bool,
    weaker_factories: spec_fn(F, G) -> bool,
    weaker_dispatchers: spec_fn(D, E) -> bool,
    from: Seq<TreeModel<DeclarationModel<F, D>>>,
    to: Seq<TreeModel<DeclarationModel<G, E>>>,
)
    requires
        trees_mapped(factories, dispatchers, from, to),
        forall|f: F, g: G| #[trigger] factories(f, g) ==> weaker_factories(f, g),
        forall|d: D, e: E| #[trigger] dispatchers(d, e) ==> weaker_dispatchers(d, e),
    ensures
        trees_mapped(weaker_factories, weaker_dispatchers, from, to),
{
    assert forall|i: int| 0 <= i < from.len() implies tree_mapped(
        weaker_factories,
        weaker_dispatchers,
        from[i],
        #[trigger] to[i],
    ) by {
        lemma_tree_weaker(
            factories,
            dispatchers,
            weaker_factories,
            weaker_dispatchers,
            from[i],
            to[i],
        );
    }
}

/// Whether bindings stand in the same places, with the handles of their declarations
/// replaced.
pub open spec fn places_mapped<F, D, G, E>(
    factories: spec_fn(F, G) -> bool,
    dispatchers: spec_fn(D, E) -> bool,
    from: Seq<PlacedModel<DeclarationModel<F, D>>>,
    to: Seq<PlacedModel<DeclarationModel<G, E>>>,
) -> bool {
    &&& to.len() == from.len()
    &&& forall|i: int|
        #![trigger from[i]]
        #![trigger to[i]]
        0 <= i < from.len() ==> {
            &&& to[i].id == from[i].id
            &&& to[i].role == from[i].role
            &&& declaration_mapped(factories, dispatchers, from[i].binding, to[i].binding)
        }
}

proof fn lemma_tree_mapped<F, D, G, E>(
    factories: spec_fn(F, G) -> bool,
    dispatchers: spec_fn(D, E) -> bool,
    from: TreeModel<DeclarationModel<F, D>>,
    to: TreeModel<DeclarationModel<G, E>>,
    parent: Seq<char>,
    position: nat,
    role: Option<PromptRole>,
)
    requires
        tree_mapped(factories, dispatchers, from, to),
    ensures
        node_text(to) == node_text(from),
        node_error(to) == node_error(from),
        places_mapped(
            factories,
            dispatchers,
            node_bindings(from, parent, position, role),
            node_bindings(to, parent, position, role),
        ),
    decreases from,
{
    match (from, to) {
        (
            TreeModel::Scope { name, key, children },
            TreeModel::Scope { name: _, key: _, children: to_children },
        ) => {
            assert(decreases_to!(from => children));
            law_mapping_keeps_text_and_identity(
                factories,
                dispatchers,
                children,
                to_children,
                scope_path(parent, name, key, position),
                role,
            );
        },
        _ => {},
    }
}

/// Carrying a component over changes neither its text nor its identity: the text is the
/// same, a failure is the same, and every binding has the id it had, in the same order.
pub proof fn law_mapping_keeps_text_and_identity<F, D, G, E>(
    factories: spec_fn(F, G) -> bool,
    dispatchers: spec_fn(D, E) -> bool,
    from: Seq<TreeModel<DeclarationModel<F, D>>>,
    to: Seq<TreeModel<DeclarationModel<G, E>>>,
    parent: Seq<char>,
    role: Option<PromptRole>,
)
    requires
        trees_mapped(factories, dispatchers, from, to),
    ensures
        tree_text(to) == tree_text(from),
        tree_error(to) == tree_error(from),
        places_mapped(
            factories,
            dispatchers,
            tree_bindings(from, parent, role),
            tree_bindings(to, parent, role),
        ),
    decreases from,
{
    if from.len() > 0 {
        let before = from.drop_last();
        let to_before = to.drop_last();
        assert(decreases_to!(from => before));
        assert(decreases_to!(from => from[from.len() - 1]));
        assert(to[to.len() - 1] == to.last());
        law_mapping_keeps_text_and_identity(
            factories,
            dispatchers,
            before,
            to_before,
            parent,
            role,
        );
        lemma_tree_mapped(
            factories,
            dispatchers,
            from.last(),
            to.last(),
            parent,
            (from.len() - 1) as nat,
            role,
        );
    }
}

} // verus!
