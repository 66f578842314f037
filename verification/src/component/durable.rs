//! Durable systems: component trees that are created once and reopened later.
//!
//! Creating mounts prompts and runtime declarations. Reopening mounts the
//! declarations alone, in the same places, since the prompt is already stored.

use std::sync::Arc;
use vstd::prelude::*;
use crate::component::contract::structural_key;
use crate::component::contract::{ProviderCapabilityContract, RuntimeContract};
use crate::component::channels::TurnChannels;
use crate::component::declaration::{by_function, declaration_mapped, share, CapabilityModel};
use crate::component::declaration::DeclarationModel;
use crate::component::declaration::{FactoryDeclaration, FactoryModel};
use crate::component::declaration::{ProviderCapabilityDeclaration, RuntimeDeclaration};
use crate::component::identity::{contract_error, is_key, BindingKey, ComponentError};
use crate::component::identity::{ComponentErrorModel, ComponentKey, PromptRole};
use crate::component::maker::{is_mapped, is_projected, through_map, through_projection};
use crate::component::maker::{MappedMaker, ProjectedMaker};
use crate::component::mount::{compile_durable_mount_provided, mount_fault, mounted_capabilities};
use crate::component::mount::{mounted_factories, MountErrorModel, MountPlanError};
use crate::component::mountable::{component, law_mapping_keeps_text_and_identity, tree_mapped};
use crate::component::mountable::{trees_mapped, Component};
use crate::component::registry::{BindingRegistryModel, RuntimeBindingRegistry};
use crate::component::tree::{compile_system_component, lemma_scope_view, optional_key};
use crate::component::tree::{node_bindings, node_error, tree_bindings, tree_error, tree_models};
use crate::component::tree::{node_text, scope_path, tree_text, ComponentNode, TreeModel};
use crate::pom::document::Document;
use crate::pom::model::EdgeModel;

verus! {

/// Model of [`DurableRuntimeLeaf`].
pub struct LeafModel<F, D> {
    pub name: Seq<char>,
    pub key: Seq<char>,
    pub prompt: Option<Seq<EdgeModel>>,
    pub declaration: DeclarationModel<F, D>,
}

/// A durable declaration, where it goes, and its prompt until that is mounted.
#[derive(Debug)]
pub struct DurableRuntimeLeaf<F, D> {
    pub(crate) component_name: String,
    pub(crate) key: ComponentKey,
    pub(crate) prompt: Option<Document>,
    pub(crate) declaration: RuntimeDeclaration<F, D>,
}

/// The model of an optional document.
pub open spec fn optional_document(document: Option<Document>) -> Option<Seq<EdgeModel>> {
    match document {
        Some(document) => Some(document@),
        None => None,
    }
}

impl<F, D> View for DurableRuntimeLeaf<F, D> {
    type V = LeafModel<F, D>;

    open(crate) spec fn view(&self) -> LeafModel<F, D> {
        LeafModel {
            name: self.component_name@,
            key: self.key@,
            prompt: optional_document(self.prompt),
            declaration: self.declaration@,
        }
    }
}

/// Model of [`DurableSystemNode`].
pub enum DurableModel<F, D> {
    Pom(Option<Seq<EdgeModel>>),
    Runtime(LeafModel<F, D>),
    Failed(ComponentErrorModel),
    Scope { name: Seq<char>, key: Option<Seq<char>>, children: Seq<DurableModel<F, D>> },
}

/// One node of a durable system.
#[derive(Debug)]
pub enum DurableSystemNode<F, D> {
    /// A prompt, until it is mounted.
    Pom(Option<Document>),
    /// A durable declaration.
    Runtime(DurableRuntimeLeaf<F, D>),
    /// Something that could not be built.
    Failed(ComponentError),
    /// A component around other nodes.
    Scope { scope: DurableComponentScope, children: Vec<DurableSystemNode<F, D>> },
}

/// The name of a component, and its key once it has one.
#[derive(Debug)]
pub struct DurableComponentScope {
    pub(crate) name: String,
    pub(crate) key: Option<ComponentKey>,
}

impl<F, D> DurableSystemNode<F, D> {
    pub(crate) open(crate) spec fn model(self) -> DurableModel<F, D>
        decreases self,
    {
        match self {
            DurableSystemNode::Pom(prompt) => DurableModel::Pom(optional_document(prompt)),
            DurableSystemNode::Runtime(leaf) => DurableModel::Runtime(leaf@),
            DurableSystemNode::Failed(error) => DurableModel::Failed(error@),
            DurableSystemNode::Scope { scope, children } => DurableModel::Scope {
                name: scope.name@,
                key: optional_key(scope.key),
                children: Seq::new(
                    children@.len(),
                    |i: int|
                        if 0 <= i < children@.len() {
                            children@[i].model()
                        } else {
                            arbitrary()
                        },
                ),
            },
        }
    }
}

impl<F, D> View for DurableSystemNode<F, D> {
    type V = DurableModel<F, D>;

    open(crate) spec fn view(&self) -> DurableModel<F, D> {
        self.model()
    }
}

/// The models of several nodes.
pub open spec fn durable_models<F, D>(nodes: Seq<DurableSystemNode<F, D>>) -> Seq<
    DurableModel<F, D>,
> {
    nodes.map_values(|node: DurableSystemNode<F, D>| node@)
}

proof fn lemma_durable_scope_view<F, D>(
    scope: DurableComponentScope,
    children: Vec<DurableSystemNode<F, D>>,
)
    ensures
        (DurableSystemNode::Scope { scope, children })@ == (DurableModel::Scope {
            name: scope.name@,
            key: optional_key(scope.key),
            children: durable_models(children@),
        }),
{
    assert((DurableSystemNode::Scope { scope, children })@->children =~= durable_models(children@));
}

/// The failure of mounting a system prompt a second time.
pub open spec fn consumed_prompt_error() -> ComponentErrorModel {
    contract_error("a durable System POM projection can only be mounted once per process"@)
}

/// The failure of mounting the prompt of a declaration a second time.
pub open spec fn consumed_leaf_error() -> ComponentErrorModel {
    contract_error("a durable component POM projection can only be mounted once per process"@)
}

/// The key of the binding in the component of a declaration.
pub open spec fn leaf_binding_key() -> Seq<char> {
    "runtime"@
}

/// A declaration with its prompt, as it is created.
pub open spec fn created_leaf<F, D>(leaf: LeafModel<F, D>) -> TreeModel<DeclarationModel<F, D>> {
    match leaf.prompt {
        Some(prompt) => TreeModel::Scope {
            name: leaf.name,
            key: Some(leaf.key),
            children: seq![
                TreeModel::Pom(prompt),
                TreeModel::Binding { key: leaf_binding_key(), binding: leaf.declaration },
            ],
        },
        None => TreeModel::Failed(consumed_leaf_error()),
    }
}

/// A declaration as it is reopened: in its place, without the prompt.
pub open spec fn reopened_leaf<F, D>(leaf: LeafModel<F, D>) -> TreeModel<DeclarationModel<F, D>> {
    TreeModel::Scope {
        name: leaf.name,
        key: Some(leaf.key),
        children: seq![
            TreeModel::Binding { key: leaf_binding_key(), binding: leaf.declaration },
        ],
    }
}

/// A node as it is created.
pub open spec fn created<F, D>(node: DurableModel<F, D>) -> TreeModel<DeclarationModel<F, D>>
    decreases node,
{
    match node {
        DurableModel::Pom(Some(prompt)) => TreeModel::Pom(prompt),
        DurableModel::Pom(None) => TreeModel::Failed(consumed_prompt_error()),
        DurableModel::Runtime(leaf) => created_leaf(leaf),
        DurableModel::Failed(error) => TreeModel::Failed(error),
        DurableModel::Scope { name, key, children } => TreeModel::Scope {
            name,
            key,
            children: Seq::new(
                children.len(),
                |i: int|
                    if 0 <= i < children.len() {
                        created(children[i])
                    } else {
                        arbitrary()
                    },
            ),
        },
    }
}

/// A node as it is reopened: without prompts, everything else in its place.
pub open spec fn reopened<F, D>(node: DurableModel<F, D>) -> TreeModel<DeclarationModel<F, D>>
    decreases node,
{
    match node {
        DurableModel::Pom(_) => TreeModel::Empty,
        DurableModel::Runtime(leaf) => reopened_leaf(leaf),
        DurableModel::Failed(error) => TreeModel::Failed(error),
        DurableModel::Scope { name, key, children } => TreeModel::Scope {
            name,
            key,
            children: Seq::new(
                children.len(),
                |i: int|
                    if 0 <= i < children.len() {
                        reopened(children[i])
                    } else {
                        arbitrary()
                    },
            ),
        },
    }
}

/// A node once it was created: its prompts are gone.
pub open spec fn consumed<F, D>(node: DurableModel<F, D>) -> DurableModel<F, D>
    decreases node,
{
    match node {
        DurableModel::Pom(_) => DurableModel::Pom(None),
        DurableModel::Runtime(leaf) => DurableModel::Runtime(LeafModel { prompt: None, ..leaf }),
        DurableModel::Failed(error) => DurableModel::Failed(error),
        DurableModel::Scope { name, key, children } => DurableModel::Scope {
            name,
            key,
            children: Seq::new(
                children.len(),
                |i: int|
                    if 0 <= i < children.len() {
                        consumed(children[i])
                    } else {
                        arbitrary()
                    },
            ),
        },
    }
}

/// Whether a node still has all its prompts.
pub open spec fn is_fresh<F, D>(node: DurableModel<F, D>) -> bool
    decreases node,
{
    match node {
        DurableModel::Pom(prompt) => prompt is Some,
        DurableModel::Runtime(leaf) => leaf.prompt is Some,
        DurableModel::Failed(_) => true,
        DurableModel::Scope { name, key, children } => forall|i: int|
            0 <= i < children.len() ==> is_fresh(#[trigger] children[i]),
    }
}

/// Whether a node has a prompt to be created with, mounted or not.
pub open spec fn has_prompt<F, D>(node: DurableModel<F, D>) -> bool
    decreases node,
{
    match node {
        DurableModel::Pom(_) => true,
        DurableModel::Runtime(_) => true,
        DurableModel::Failed(_) => false,
        DurableModel::Scope { name, key, children } => exists|i: int|
            0 <= i < children.len() && has_prompt(#[trigger] children[i]),
    }
}

/// Nodes as they are created.
pub open spec fn created_nodes<F, D>(nodes: Seq<DurableModel<F, D>>) -> Seq<
    TreeModel<DeclarationModel<F, D>>,
> {
    nodes.map_values(|node: DurableModel<F, D>| created(node))
}

/// Nodes as they are reopened.
pub open spec fn reopened_nodes<F, D>(nodes: Seq<DurableModel<F, D>>) -> Seq<
    TreeModel<DeclarationModel<F, D>>,
> {
    nodes.map_values(|node: DurableModel<F, D>| reopened(node))
}

/// Nodes once they were created.
pub open spec fn consumed_nodes<F, D>(nodes: Seq<DurableModel<F, D>>) -> Seq<DurableModel<F, D>> {
    nodes.map_values(|node: DurableModel<F, D>| consumed(node))
}

/// Whether all nodes still have their prompts.
pub open spec fn all_fresh<F, D>(nodes: Seq<DurableModel<F, D>>) -> bool {
    forall|i: int| 0 <= i < nodes.len() ==> is_fresh(#[trigger] nodes[i])
}

proof fn lemma_scope_projections<F, D>(
    name: Seq<char>,
    key: Option<Seq<char>>,
    children: Seq<DurableModel<F, D>>,
)
    ensures
        created(DurableModel::Scope { name, key, children }) == (TreeModel::Scope {
            name,
            key,
            children: created_nodes(children),
        }),
        reopened(DurableModel::Scope { name, key, children }) == (TreeModel::Scope {
            name,
            key,
            children: reopened_nodes(children),
        }),
        consumed(DurableModel::Scope { name, key, children }) == (DurableModel::Scope {
            name,
            key,
            children: consumed_nodes(children),
        }),
{
    let node = DurableModel::Scope { name, key, children };
    assert(created(node)->children =~= created_nodes(children));
    assert(reopened(node)->children =~= reopened_nodes(children));
    assert(consumed(node)->Scope_children =~= consumed_nodes(children));
}

fn runtime_key() -> (key: BindingKey)
    ensures
        key@ == leaf_binding_key(),
{
    BindingKey { value: "runtime".to_owned() }
}

fn consumed_prompt() -> (error: ComponentError)
    ensures
        error@ == consumed_prompt_error(),
{
    ComponentError::contract(
        "a durable System POM projection can only be mounted once per process".to_owned(),
    )
}

fn consumed_leaf() -> (error: ComponentError)
    ensures
        error@ == consumed_leaf_error(),
{
    ComponentError::contract(
        "a durable component POM projection can only be mounted once per process".to_owned(),
    )
}

impl<F, D> DurableRuntimeLeaf<F, D> {
    /// Creates the declaration, and keeps it for reopening.
    fn split(self) -> (parts: (ComponentNode<RuntimeDeclaration<F, D>>, Self))
        ensures
            parts.0@ == created_leaf(self@),
            parts.1@ == (LeafModel { prompt: None, ..self@ }),
    {
        let node = match self.prompt {
            Some(prompt) => {
                let mut children: Vec<ComponentNode<RuntimeDeclaration<F, D>>> = Vec::new();
                children.push(ComponentNode::Pom(prompt));
                children.push(
                    ComponentNode::Binding {
                        key: runtime_key(),
                        binding: self.declaration.clone(),
                    },
                );
                let name: String = self.component_name.clone();
                let key = Some(self.key.clone());
                proof {
                    lemma_scope_view(name, key, children);
                    assert(tree_models(children@) =~= created_leaf(self@)->children);
                }
                ComponentNode::Scope { name, key, children }
            },
            None => ComponentNode::Failed(consumed_leaf()),
        };
        let kept = DurableRuntimeLeaf {
            component_name: self.component_name,
            key: self.key,
            prompt: None,
            declaration: self.declaration,
        };
        (node, kept)
    }

    /// The declaration as it is reopened.
    fn runtime_component(&self) -> (node: ComponentNode<RuntimeDeclaration<F, D>>)
        ensures
            node@ == reopened_leaf(self@),
    {
        let mut children: Vec<ComponentNode<RuntimeDeclaration<F, D>>> = Vec::new();
        children.push(
            ComponentNode::Binding { key: runtime_key(), binding: self.declaration.clone() },
        );
        let name: String = self.component_name.clone();
        let key = Some(self.key.clone());
        proof {
            lemma_scope_view(name, key, children);
            assert(tree_models(children@) =~= reopened_leaf(self@)->children);
        }
        ComponentNode::Scope { name, key, children }
    }
}

fn duplicate_key(key: &Option<ComponentKey>) -> (copy: Option<ComponentKey>)
    ensures
        optional_key(copy) == optional_key(*key),
{
    match key {
        Some(key) => Some(key.clone()),
        None => None,
    }
}

/// Creates nodes, and keeps them for reopening.
fn split_nodes<F, D>(nodes: Vec<DurableSystemNode<F, D>>) -> (parts: (
    Vec<ComponentNode<RuntimeDeclaration<F, D>>>,
    Vec<DurableSystemNode<F, D>>,
))
    ensures
        tree_models(parts.0@) == created_nodes(durable_models(nodes@)),
        durable_models(parts.1@) == consumed_nodes(durable_models(nodes@)),
    decreases nodes,
{
    let ghost all = nodes@;
    let ghost models = durable_models(nodes@);
    let mut trees: Vec<ComponentNode<RuntimeDeclaration<F, D>>> = Vec::new();
    let mut kept: Vec<DurableSystemNode<F, D>> = Vec::new();
    for node in iter: nodes
        invariant
            iter.seq() == all,
            all == nodes@,
            models == durable_models(all),
            trees@.len() == iter.index(),
            kept@.len() == iter.index(),
            forall|i: int|
                0 <= i < iter.index() ==> (#[trigger] trees@[i])@ == created(models[i]),
            forall|i: int|
                0 <= i < iter.index() ==> (#[trigger] kept@[i])@ == consumed(models[i]),
    {
        let ghost at = iter.index() as int;
        proof {
            assert(node == all[at]);
            assert(models[at] == node@);
            assert(decreases_to!(nodes => all[at]));
        }
        match node {
            DurableSystemNode::Pom(prompt) => {
                match prompt {
                    Some(prompt) => trees.push(ComponentNode::Pom(prompt)),
                    None => trees.push(ComponentNode::Failed(consumed_prompt())),
                }
                kept.push(DurableSystemNode::Pom(None));
            },
            DurableSystemNode::Runtime(leaf) => {
                let (tree, leaf) = leaf.split();
                trees.push(tree);
                kept.push(DurableSystemNode::Runtime(leaf));
            },
            DurableSystemNode::Failed(error) => {
                trees.push(ComponentNode::Failed(error.clone()));
                kept.push(DurableSystemNode::Failed(error));
            },
            DurableSystemNode::Scope { scope, children } => {
                proof {
                    lemma_durable_scope_view(scope, children);
                    lemma_scope_projections(
                        scope.name@,
                        optional_key(scope.key),
                        durable_models(children@),
                    );
                }
                let name: String = scope.name.clone();
                let key = duplicate_key(&scope.key);
                let (child_trees, child_nodes) = split_nodes(children);
                proof {
                    lemma_scope_view(name, key, child_trees);
                    lemma_durable_scope_view(scope, child_nodes);
                }
                trees.push(ComponentNode::Scope { name, key, children: child_trees });
                kept.push(DurableSystemNode::Scope { scope, children: child_nodes });
            },
        }
    }
    assert(tree_models(trees@) =~= created_nodes(models));
    assert(durable_models(kept@) =~= consumed_nodes(models));
    (trees, kept)
}

/// Nodes as they are reopened.
fn reopen_nodes<F, D>(nodes: &Vec<DurableSystemNode<F, D>>) -> (trees: Vec<
    ComponentNode<RuntimeDeclaration<F, D>>,
>)
    ensures
        tree_models(trees@) == reopened_nodes(durable_models(nodes@)),
    decreases nodes,
{
    let ghost models = durable_models(nodes@);
    let mut trees: Vec<ComponentNode<RuntimeDeclaration<F, D>>> = Vec::new();
    let count: usize = nodes.len();
    for i in 0..count
        invariant
            count == nodes@.len(),
            models == durable_models(nodes@),
            trees@.len() == i,
            forall|j: int| 0 <= j < i ==> (#[trigger] trees@[j])@ == reopened(models[j]),
    {
        proof {
            assert(models[i as int] == nodes@[i as int]@);
            assert(decreases_to!(nodes => nodes@[i as int]));
        }
        match &nodes[i] {
            DurableSystemNode::Pom(_) => {
                trees.push(ComponentNode::Empty);
            },
            DurableSystemNode::Runtime(leaf) => {
                trees.push(leaf.runtime_component());
            },
            DurableSystemNode::Failed(error) => {
                trees.push(ComponentNode::Failed(error.clone()));
            },
            DurableSystemNode::Scope { scope, children } => {
                proof {
                    lemma_durable_scope_view(*scope, *children);
                    lemma_scope_projections(
                        scope.name@,
                        optional_key(scope.key),
                        durable_models(children@),
                    );
                }
                let name: String = scope.name.clone();
                let key = duplicate_key(&scope.key);
                let child_trees = reopen_nodes(children);
                proof {
                    lemma_scope_view(name, key, child_trees);
                }
                trees.push(ComponentNode::Scope { name, key, children: child_trees });
            },
        }
    }
    assert(tree_models(trees@) =~= reopened_nodes(models));
    trees
}

/// A durable leaf, or why it could not be built.
#[must_use]
#[derive(Debug)]
pub struct DurableComponent<F, D> {
    pub(crate) leaf: Result<DurableRuntimeLeaf<F, D>, ComponentError>,
}

/// The model of a leaf or its failure.
pub open spec fn leaf_result<F, D>(
    leaf: Result<DurableRuntimeLeaf<F, D>, ComponentError>,
) -> Result<LeafModel<F, D>, ComponentErrorModel> {
    match leaf {
        Ok(leaf) => Ok(leaf@),
        Err(error) => Err(error@),
    }
}

impl<F, D> View for DurableComponent<F, D> {
    type V = Result<LeafModel<F, D>, ComponentErrorModel>;

    open(crate) spec fn view(&self) -> Result<LeafModel<F, D>, ComponentErrorModel> {
        leaf_result(self.leaf)
    }
}

impl<F, D> DurableComponent<F, D> {
    /// A durable binding. Its place follows from the id of its contract.
    pub fn binding(
        contract: RuntimeContract,
        prompt: Document,
        declaration: FactoryDeclaration<F>,
    ) -> (component: Self)
        ensures
            component@ == Ok::<LeafModel<F, D>, ComponentErrorModel>(
                LeafModel {
                    name: "agentview::component::DurableBinding"@,
                    key: structural_key(contract@.id),
                    prompt: Some(prompt@),
                    declaration: DeclarationModel::BindingFactory(
                        FactoryModel { contract: Some(contract@), ..declaration@ },
                    ),
                },
            ),
    {
        let key = ComponentKey { value: contract.structural_component_key() };
        Self {
            leaf: Ok(
                DurableRuntimeLeaf {
                    component_name: "agentview::component::DurableBinding".to_owned(),
                    key,
                    prompt: Some(prompt),
                    declaration: RuntimeDeclaration::BindingFactory(
                        declaration.with_runtime_contract(contract),
                    ),
                },
            ),
        }
    }

    /// A durable capability with its own dispatcher.
    pub fn provider(
        contract: RuntimeContract,
        prompt: Document,
        declaration: ProviderCapabilityDeclaration<D>,
    ) -> (component: Self)
        ensures
            component@ == Ok::<LeafModel<F, D>, ComponentErrorModel>(
                LeafModel {
                    name: "agentview::component::DurableProviderTools"@,
                    key: structural_key(contract@.id),
                    prompt: Some(prompt@),
                    declaration: DeclarationModel::ProviderCapability(
                        declaration@.with_contract(contract@),
                    ),
                },
            ),
    {
        let key = ComponentKey { value: contract.structural_component_key() };
        Self {
            leaf: Ok(
                DurableRuntimeLeaf {
                    component_name: "agentview::component::DurableProviderTools".to_owned(),
                    key,
                    prompt: Some(prompt),
                    declaration: RuntimeDeclaration::ProviderCapability(
                        declaration.with_runtime_contract(contract),
                    ),
                },
            ),
        }
    }

    /// A durable capability whose dispatcher the host brings.
    pub fn provider_contract(contract: ProviderCapabilityContract, prompt: Document) -> (component:
        Self)
        ensures
            component@ == Ok::<LeafModel<F, D>, ComponentErrorModel>(
                LeafModel {
                    name: "agentview::component::DurableProviderContract"@,
                    key: structural_key(contract@.declaration_id),
                    prompt: Some(prompt@),
                    declaration: DeclarationModel::ProviderCapability(
                        CapabilityModel {
                            specs: contract@.specs,
                            contract: Some(contract@),
                            dispatcher: None,
                        },
                    ),
                },
            ),
    {
        let key = ComponentKey { value: contract.structural_component_key() };
        Self {
            leaf: Ok(
                DurableRuntimeLeaf {
                    component_name: "agentview::component::DurableProviderContract".to_owned(),
                    key,
                    prompt: Some(prompt),
                    declaration: RuntimeDeclaration::ProviderCapability(
                        ProviderCapabilityDeclaration::from_contract(contract),
                    ),
                },
            ),
        }
    }

    pub fn from_error(error: ComponentError) -> (component: Self)
        ensures
            component@ == Err::<LeafModel<F, D>, ComponentErrorModel>(error@),
    {
        Self { leaf: Err(error) }
    }

    /// Puts the leaf under a key of the author's in place of the derived one. A key
    /// that is none is the failure, whatever the component was.
    pub fn key(self, key: &str) -> (component: Self)
        ensures
            component@ == if is_key(key@) {
                match self@ {
                    Ok(leaf) => Ok(LeafModel { key: key@, ..leaf }),
                    Err(error) => Err(error),
                }
            } else {
                Err(ComponentErrorModel::InvalidKey { value: key@ })
            },
    {
        let key = match ComponentKey::new(key) {
            Ok(key) => key,
            Err(error) => return Self::from_error(error),
        };
        match self.leaf {
            Ok(leaf) => Self {
                leaf: Ok(
                    DurableRuntimeLeaf {
                        component_name: leaf.component_name,
                        key,
                        prompt: leaf.prompt,
                        declaration: leaf.declaration,
                    },
                ),
            },
            Err(error) => Self { leaf: Err(error) },
        }
    }

    /// The component as it is created.
    pub fn into_one_shot_component(self) -> (component: Component<F, D>)
        ensures
            component@ == seq![
                match self@ {
                    Ok(leaf) => created_leaf(leaf),
                    Err(error) => TreeModel::Failed(error),
                },
            ],
    {
        match self.leaf {
            Ok(leaf) => Component::from_node(leaf.split().0),
            Err(error) => Component::from_error(error),
        }
    }
}

/// A durable system, or why it could not be built.
#[must_use]
#[derive(Debug)]
pub struct DurableSystem<F, D> {
    pub(crate) nodes: Result<Vec<DurableSystemNode<F, D>>, ComponentError>,
}

/// The model of nodes or their failure.
pub open spec fn nodes_result<F, D>(
    nodes: Result<Vec<DurableSystemNode<F, D>>, ComponentError>,
) -> Result<Seq<DurableModel<F, D>>, ComponentErrorModel> {
    match nodes {
        Ok(nodes) => Ok(durable_models(nodes@)),
        Err(error) => Err(error@),
    }
}

impl<F, D> View for DurableSystem<F, D> {
    type V = Result<Seq<DurableModel<F, D>>, ComponentErrorModel>;

    open(crate) spec fn view(&self) -> Result<Seq<DurableModel<F, D>>, ComponentErrorModel> {
        nodes_result(self.nodes)
    }
}

/// The first failure among components.
pub open spec fn first_failure<F, D>(components: Seq<DurableComponent<F, D>>) -> Option<
    ComponentErrorModel,
>
    decreases components.len(),
{
    if components.len() == 0 {
        None
    } else {
        match first_failure(components.drop_last()) {
            Some(error) => Some(error),
            None => match components.last()@ {
                Ok(_) => None,
                Err(error) => Some(error),
            },
        }
    }
}

proof fn lemma_first_failure_stays<F, D>(components: Seq<DurableComponent<F, D>>, at: int)
    requires
        0 <= at <= components.len(),
        first_failure(components.take(at)) is Some,
    ensures
        first_failure(components) == first_failure(components.take(at)),
    decreases components.len(),
{
    if at < components.len() {
        assert(components.drop_last().take(at) =~= components.take(at));
        lemma_first_failure_stays(components.drop_last(), at);
    } else {
        assert(components.take(at) =~= components);
    }
}

/// What a system amounts to when its nodes are read one way.
pub open spec fn system_tree<F, D>(
    system: Result<Seq<DurableModel<F, D>>, ComponentErrorModel>,
    read: spec_fn(Seq<DurableModel<F, D>>) -> Seq<TreeModel<DeclarationModel<F, D>>>,
) -> Seq<TreeModel<DeclarationModel<F, D>>> {
    match system {
        Ok(nodes) => read(nodes),
        Err(error) => seq![TreeModel::Failed(error)],
    }
}

/// A system as it is created.
pub open spec fn created_system<F, D>(
    system: Result<Seq<DurableModel<F, D>>, ComponentErrorModel>,
) -> Seq<TreeModel<DeclarationModel<F, D>>> {
    system_tree(system, |nodes: Seq<DurableModel<F, D>>| created_nodes(nodes))
}

/// A system once it was created: its prompts are gone.
pub open spec fn consumed_system<F, D>(
    system: Result<Seq<DurableModel<F, D>>, ComponentErrorModel>,
) -> Result<Seq<DurableModel<F, D>>, ComponentErrorModel> {
    match system {
        Ok(nodes) => Ok(consumed_nodes(nodes)),
        Err(error) => Err(error),
    }
}

/// Whether a system has a prompt to be created with, mounted or not.
pub open spec fn system_has_prompt<F, D>(
    system: Result<Seq<DurableModel<F, D>>, ComponentErrorModel>,
) -> bool {
    match system {
        Ok(nodes) => exists|i: int| 0 <= i < nodes.len() && has_prompt(#[trigger] nodes[i]),
        Err(_) => false,
    }
}

/// A system as it is reopened.
pub open spec fn reopened_system<F, D>(
    system: Result<Seq<DurableModel<F, D>>, ComponentErrorModel>,
) -> Seq<TreeModel<DeclarationModel<F, D>>> {
    system_tree(system, |nodes: Seq<DurableModel<F, D>>| reopened_nodes(nodes))
}

/// A system with another behind it. The first failure stands for both.
pub open spec fn appended<F, D>(
    first: Result<Seq<DurableModel<F, D>>, ComponentErrorModel>,
    second: Result<Seq<DurableModel<F, D>>, ComponentErrorModel>,
) -> Result<Seq<DurableModel<F, D>>, ComponentErrorModel> {
    match (first, second) {
        (Ok(nodes), Ok(others)) => Ok(nodes + others),
        (Err(error), _) => Err(error),
        (_, Err(error)) => Err(error),
    }
}

/// A system inside a named component. An empty system needs none, and a failure
/// fails inside it.
pub open spec fn scoped<F, D>(
    system: Result<Seq<DurableModel<F, D>>, ComponentErrorModel>,
    name: Seq<char>,
) -> Seq<DurableModel<F, D>> {
    match system {
        Ok(nodes) => if nodes.len() == 0 {
            nodes
        } else {
            seq![DurableModel::Scope { name, key: None, children: nodes }]
        },
        Err(error) => seq![
            DurableModel::Scope { name, key: None, children: seq![DurableModel::Failed(error)] },
        ],
    }
}

impl<F, D> DurableSystem<F, D> {
    /// The components in author order. The first failure is the error.
    pub fn new(components: Vec<DurableComponent<F, D>>) -> (result: Result<Self, ComponentError>)
        ensures
            match result {
                Ok(system) => {
                    &&& first_failure(components@) is None
                    &&& system@ == Ok::<Seq<DurableModel<F, D>>, ComponentErrorModel>(
                        components@.map_values(
                            |component: DurableComponent<F, D>|
                                DurableModel::Runtime(component@->Ok_0),
                        ),
                    )
                },
                Err(error) => first_failure(components@) == Some(error@),
            },
    {
        let ghost all = components@;
        let mut nodes: Vec<DurableSystemNode<F, D>> = Vec::new();
        assert(all.take(0) =~= Seq::empty());
        for component in iter: components
            invariant
                iter.seq() == all,
                all == components@,
                first_failure(all.take(iter.index() as int)) is None,
                nodes@.len() == iter.index(),
                forall|i: int|
                    0 <= i < nodes@.len() ==> (#[trigger] nodes@[i])@ == DurableModel::Runtime(
                        all[i]@->Ok_0,
                    ),
        {
            let ghost at = iter.index() as int;
            proof {
                assert(component == all[at]);
                assert(all.take(at + 1).drop_last() =~= all.take(at));
                assert(all.take(at + 1).last() == component);
            }
            match component.leaf {
                Ok(leaf) => nodes.push(DurableSystemNode::Runtime(leaf)),
                Err(error) => {
                    proof {
                        lemma_first_failure_stays(all, at + 1);
                    }
                    return Err(error);
                },
            }
        }
        assert(all.take(all.len() as int) =~= all);
        assert(durable_models(nodes@) =~= all.map_values(
            |component: DurableComponent<F, D>| DurableModel::Runtime(component@->Ok_0),
        ));
        Ok(Self { nodes: Ok(nodes) })
    }

    pub fn empty() -> (system: Self)
        ensures
            system@ == Ok::<Seq<DurableModel<F, D>>, ComponentErrorModel>(Seq::empty()),
    {
        let nodes: Vec<DurableSystemNode<F, D>> = Vec::new();
        assert(durable_models(nodes@) =~= Seq::empty());
        Self { nodes: Ok(nodes) }
    }

    pub fn from_error(error: ComponentError) -> (system: Self)
        ensures
            system@ == Err::<Seq<DurableModel<F, D>>, ComponentErrorModel>(error@),
    {
        Self { nodes: Err(error) }
    }

    /// A system that is one prompt.
    pub fn prompt(prompt: Document) -> (system: Self)
        ensures
            system@ == Ok::<Seq<DurableModel<F, D>>, ComponentErrorModel>(
                seq![DurableModel::Pom(Some(prompt@))],
            ),
    {
        let mut nodes: Vec<DurableSystemNode<F, D>> = Vec::new();
        nodes.push(DurableSystemNode::Pom(Some(prompt)));
        assert(durable_models(nodes@) =~= seq![DurableModel::<F, D>::Pom(Some(prompt@))]);
        Self { nodes: Ok(nodes) }
    }

    /// A system that is one component.
    pub fn from_component(component: DurableComponent<F, D>) -> (system: Self)
        ensures
            system@ == match component@ {
                Ok(leaf) => Ok(seq![DurableModel::Runtime(leaf)]),
                Err(error) => Err(error),
            },
    {
        match component.leaf {
            Ok(leaf) => {
                let ghost model = leaf@;
                let mut nodes: Vec<DurableSystemNode<F, D>> = Vec::new();
                nodes.push(DurableSystemNode::Runtime(leaf));
                assert(durable_models(nodes@) =~= seq![DurableModel::Runtime(model)]);
                Self { nodes: Ok(nodes) }
            },
            Err(error) => Self { nodes: Err(error) },
        }
    }

    /// Puts the system inside a named component.
    pub fn with_component_scope(self, name: &str) -> (system: Self)
        ensures
            system@ == Ok::<Seq<DurableModel<F, D>>, ComponentErrorModel>(scoped(self@, name@)),
    {
        let scope = DurableComponentScope { name: name.to_owned(), key: None };
        let children = match self.nodes {
            Ok(nodes) => {
                if nodes.is_empty() {
                    assert(durable_models(nodes@) =~= Seq::empty());
                    return Self { nodes: Ok(nodes) };
                }
                nodes
            },
            Err(error) => {
                let ghost model = error@;
                let mut nodes: Vec<DurableSystemNode<F, D>> = Vec::new();
                nodes.push(DurableSystemNode::Failed(error));
                assert(durable_models(nodes@) =~= seq![DurableModel::Failed(model)]);
                nodes
            },
        };
        proof {
            lemma_durable_scope_view(scope, children);
        }
        let mut nodes: Vec<DurableSystemNode<F, D>> = Vec::new();
        nodes.push(DurableSystemNode::Scope { scope, children });
        assert(durable_models(nodes@) =~= scoped(self@, name@));
        Self { nodes: Ok(nodes) }
    }

    /// Gives the outer component its key. A system that is empty or failed takes any
    /// key and stays as it is.
    pub fn set_outer_component_key(&mut self, key: ComponentKey) -> (result: Result<
        (),
        ComponentError,
    >)
        ensures
            match old(self)@ {
                Err(_) => result is Ok && final(self)@ == old(self)@,
                Ok(nodes) => if nodes.len() == 0 {
                    result is Ok && final(self)@ == old(self)@
                } else if nodes.len() == 1 && nodes[0] is Scope {
                    if nodes[0]->key is Some {
                        &&& result is Err
                        &&& result->Err_0@ == ComponentErrorModel::ComponentAlreadyKeyed
                        &&& final(self)@ == old(self)@
                    } else {
                        &&& result is Ok
                        &&& final(self)@ == Ok::<Seq<DurableModel<F, D>>, ComponentErrorModel>(
                            seq![
                                DurableModel::Scope {
                                    name: nodes[0]->name,
                                    key: Some(key@),
                                    children: nodes[0]->children,
                                },
                            ],
                        )
                    }
                } else {
                    &&& result is Err
                    &&& result->Err_0@ == ComponentErrorModel::KeyRequiresComponent
                    &&& final(self)@ == old(self)@
                },
            },
    {
        let ghost before = self@;
        let mut nodes: Vec<DurableSystemNode<F, D>> = match &mut self.nodes {
            Err(_) => return Ok(()),
            Ok(nodes) => {
                let mut taken: Vec<DurableSystemNode<F, D>> = Vec::new();
                std::mem::swap(nodes, &mut taken);
                taken
            },
        };
        let count: usize = nodes.len();
        assert(before->Ok_0.len() == count);
        if count == 0 {
            self.nodes = Ok(nodes);
            return Ok(());
        }
        if count > 1 {
            self.nodes = Ok(nodes);
            return Err(ComponentError::KeyRequiresComponent);
        }
        let node = nodes.swap_remove(0);
        let ghost model = node@;
        assert(before->Ok_0[0] == model);
        let mut result: Result<(), ComponentError> = Ok(());
        let updated = match node {
            DurableSystemNode::Scope { scope, children } => {
                proof {
                    lemma_durable_scope_view(scope, children);
                }
                if scope.key.is_some() {
                    result = Err(ComponentError::ComponentAlreadyKeyed);
                    DurableSystemNode::Scope { scope, children }
                } else {
                    let scope = DurableComponentScope { name: scope.name, key: Some(key) };
                    proof {
                        lemma_durable_scope_view(scope, children);
                    }
                    DurableSystemNode::Scope { scope, children }
                }
            },
            other => {
                result = Err(ComponentError::KeyRequiresComponent);
                other
            },
        };
        let ghost after = updated@;
        nodes.push(updated);
        assert(durable_models(nodes@) =~= seq![after]);
        assert(before->Ok_0 =~= seq![model]);
        self.nodes = Ok(nodes);
        result
    }

    /// Puts another system behind this one.
    pub fn append(self, other: Self) -> (system: Self)
        ensures
            system@ == appended(self@, other@),
    {
        match (self.nodes, other.nodes) {
            (Ok(nodes), Ok(others)) => {
                let ghost first = durable_models(nodes@);
                let ghost second = durable_models(others@);
                let mut nodes = nodes;
                let mut others = others;
                nodes.append(&mut others);
                assert(durable_models(nodes@) =~= first + second);
                Self { nodes: Ok(nodes) }
            },
            (Err(error), _) => Self { nodes: Err(error) },
            (_, Err(error)) => Self { nodes: Err(error) },
        }
    }

    /// The system as it is created. Its prompts are handed out once.
    pub fn take_create_component(&mut self) -> (result: Component<F, D>)
        ensures
            result@ == created_system(old(self)@),
            final(self)@ == consumed_system(old(self)@),
    {
        let nodes: Vec<DurableSystemNode<F, D>> = match &mut self.nodes {
            Err(error) => {
                return Component::from_error(error.clone());
            },
            Ok(nodes) => {
                let mut taken: Vec<DurableSystemNode<F, D>> = Vec::new();
                std::mem::swap(nodes, &mut taken);
                taken
            },
        };
        let (trees, kept) = split_nodes(nodes);
        self.nodes = Ok(kept);
        component(trees)
    }

    /// The system as it is created, by its only owner.
    pub fn into_one_shot_component(self) -> (result: Component<F, D>)
        ensures
            result@ == created_system(self@),
    {
        let mut system = self;
        system.take_create_component()
    }

    /// The system as it is reopened.
    pub fn runtime_component(&self) -> (result: Component<F, D>)
        ensures
            result@ == reopened_system(self@),
    {
        match &self.nodes {
            Ok(nodes) => component(reopen_nodes(nodes)),
            Err(error) => Component::from_error(error.clone()),
        }
    }

    /// What the host needs to reopen the system: factories and capabilities.
    pub fn runtime_projection(&self) -> (result: Result<
        RuntimeBindingRegistry<F, D>,
        MountPlanError,
    >)
        ensures
            match result {
                Ok(registry) => mounted(reopened_system(self@)) == Ok::<
                    BindingRegistryModel<F, D>,
                    MountErrorModel,
                >(registry@),
                Err(error) => mounted(reopened_system(self@)) == Err::<
                    BindingRegistryModel<F, D>,
                    MountErrorModel,
                >(error@),
            },
    {
        match compile_system_component(self.runtime_component().into_nodes()) {
            Ok(turn) => match compile_durable_mount_provided(turn) {
                Ok(plan) => Ok(
                    RuntimeBindingRegistry::from_compiled_plans(
                        plan.binding_factories,
                        plan.provider_capabilities,
                    ),
                ),
                Err(error) => Err(error),
            },
            Err(error) => Err(MountPlanError::Component(error)),
        }
    }
}

/// What is mounted for a durable system that is read as a tree: its factories and its
/// capabilities, or the first thing that is wrong.
pub open spec fn mounted<F, D>(trees: Seq<TreeModel<DeclarationModel<F, D>>>) -> Result<
    BindingRegistryModel<F, D>,
    MountErrorModel,
> {
    let bindings = tree_bindings(trees, Seq::empty(), Some(PromptRole::System));
    match tree_error(trees) {
        Some(error) => Err(MountErrorModel::Component(error)),
        None => match mount_fault(bindings, true) {
            Some(fault) => Err(fault),
            None => Ok(
                BindingRegistryModel {
                    factories: mounted_factories(bindings),
                    capabilities: mounted_capabilities(bindings),
                },
            ),
        },
    }
}

/// Whether a leaf was carried over.
pub open spec fn leaf_mapped<F, D, G, E>(
    factories: spec_fn(F, G) -> bool,
    dispatchers: spec_fn(D, E) -> bool,
    from: LeafModel<F, D>,
    to: LeafModel<G, E>,
) -> bool {
    &&& to.name == from.name
    &&& to.key == from.key
    &&& to.prompt == from.prompt
    &&& declaration_mapped(factories, dispatchers, from.declaration, to.declaration)
}

/// Whether a node was carried over: the same shape, prompts, names and keys.
pub open spec fn node_mapped<F, D, G, E>(
    factories: spec_fn(F, G) -> bool,
    dispatchers: spec_fn(D, E) -> bool,
    from: DurableModel<F, D>,
    to: DurableModel<G, E>,
) -> bool
    decreases from,
{
    match (from, to) {
        (DurableModel::Pom(from), DurableModel::Pom(to)) => to == from,
        (DurableModel::Runtime(from), DurableModel::Runtime(to)) => leaf_mapped(
            factories,
            dispatchers,
            from,
            to,
        ),
        (DurableModel::Failed(from), DurableModel::Failed(to)) => to == from,
        (
            DurableModel::Scope { name, key, children },
            DurableModel::Scope { name: to_name, key: to_key, children: to_children },
        ) => {
            &&& to_name == name
            &&& to_key == key
            &&& to_children.len() == children.len()
            &&& forall|i: int|
                0 <= i < children.len() ==> node_mapped(
                    factories,
                    dispatchers,
                    children[i],
                    #[trigger] to_children[i],
                )
        },
        _ => false,
    }
}

/// Whether a system was carried over, node by node.
pub open spec fn system_mapped<F, D, G, E>(
    factories: spec_fn(F, G) -> bool,
    dispatchers: spec_fn(D, E) -> bool,
    from: Result<Seq<DurableModel<F, D>>, ComponentErrorModel>,
    to: Result<Seq<DurableModel<G, E>>, ComponentErrorModel>,
) -> bool {
    match (from, to) {
        (Ok(from), Ok(to)) => {
            &&& to.len() == from.len()
            &&& forall|i: int|
                0 <= i < from.len() ==> node_mapped(
                    factories,
                    dispatchers,
                    from[i],
                    #[trigger] to[i],
                )
        },
        (Err(from), Err(to)) => to == from,
        _ => false,
    }
}

/// Whether a component was carried over, or its failure.
pub open spec fn component_mapped<F, D, G, E>(
    factories: spec_fn(F, G) -> bool,
    dispatchers: spec_fn(D, E) -> bool,
    from: Result<LeafModel<F, D>, ComponentErrorModel>,
    to: Result<LeafModel<G, E>, ComponentErrorModel>,
) -> bool {
    match (from, to) {
        (Ok(from), Ok(to)) => leaf_mapped(factories, dispatchers, from, to),
        (Err(from), Err(to)) => to == from,
        _ => false,
    }
}

proof fn lemma_component_weaker<F, D, G, E>(
    factories: spec_fn(F, G) -> bool,
    dispatchers: spec_fn(D, E) -> bool,
    weaker_factories: spec_fn(F, G) -> bool,
    weaker_dispatchers: spec_fn(D, E) -> bool,
    from: Result<LeafModel<F, D>, ComponentErrorModel>,
    to: Result<LeafModel<G, E>, ComponentErrorModel>,
)
    requires
        component_mapped(factories, dispatchers, from, to),
        forall|f: F, g: G| #[trigger] factories(f, g) ==> weaker_factories(f, g),
        forall|d: D, e: E| #[trigger] dispatchers(d, e) ==> weaker_dispatchers(d, e),
    ensures
        component_mapped(weaker_factories, weaker_dispatchers, from, to),
{
}

proof fn lemma_node_weaker<F, D, G, E>(
    factories: spec_fn(F, G) -> bool,
    dispatchers: spec_fn(D, E) -> bool,
    weaker_factories: spec_fn(F, G) -> bool,
    weaker_dispatchers: spec_fn(D, E) -> bool,
    from: DurableModel<F, D>,
    to: DurableModel<G, E>,
)
    requires
        node_mapped(factories, dispatchers, from, to),
        forall|f: F, g: G| #[trigger] factories(f, g) ==> weaker_factories(f, g),
        forall|d: D, e: E| #[trigger] dispatchers(d, e) ==> weaker_dispatchers(d, e),
    ensures
        node_mapped(weaker_factories, weaker_dispatchers, from, to),
    decreases from,
{
    match (from, to) {
        (
            DurableModel::Scope { name, key, children },
            DurableModel::Scope { name: _, key: _, children: to_children },
        ) => {
            assert forall|i: int| 0 <= i < children.len() implies node_mapped(
                weaker_factories,
                weaker_dispatchers,
                children[i],
                #[trigger] to_children[i],
            ) by {
                assert(decreases_to!(from => children));
                assert(decreases_to!(from => children[i]));
                lemma_node_weaker(
                    factories,
                    dispatchers,
                    weaker_factories,
                    weaker_dispatchers,
                    children[i],
                    to_children[i],
                );
            }
        },
        _ => {},
    }
}

proof fn lemma_system_weaker<F, D, G, E>(
    factories: spec_fn(F, G) -> bool,
    dispatchers: spec_fn(D, E) -> bool,
    weaker_factories: spec_fn(F, G) -> bool,
    weaker_dispatchers: spec_fn(D, E) -> bool,
    from: Result<Seq<DurableModel<F, D>>, ComponentErrorModel>,
    to: Result<Seq<DurableModel<G, E>>, ComponentErrorModel>,
)
    requires
        system_mapped(factories, dispatchers, from, to),
        forall|f: F, g: G| #[trigger] factories(f, g) ==> weaker_factories(f, g),
        forall|d: D, e: E| #[trigger] dispatchers(d, e) ==> weaker_dispatchers(d, e),
    ensures
        system_mapped(weaker_factories, weaker_dispatchers, from, to),
{
    match (from, to) {
        (Ok(from), Ok(to)) => {
            assert forall|i: int| 0 <= i < from.len() implies node_mapped(
                weaker_factories,
                weaker_dispatchers,
                from[i],
                #[trigger] to[i],
            ) by {
                lemma_node_weaker(
                    factories,
                    dispatchers,
                    weaker_factories,
                    weaker_dispatchers,
                    from[i],
                    to[i],
                );
            }
        },
        _ => {},
    }
}

fn map_leaf<F, D, G, E, M: Fn(Arc<F>) -> Arc<G>, N: Fn(Arc<D>) -> Arc<E>>(
    leaf: DurableRuntimeLeaf<F, D>,
    factories: &M,
    dispatchers: &N,
) -> (mapped: DurableRuntimeLeaf<G, E>)
    requires
        forall|handle: Arc<F>| #[trigger] factories.requires((handle,)),
        forall|handle: Arc<D>| #[trigger] dispatchers.requires((handle,)),
    ensures
        leaf_mapped(by_function(*factories), by_function(*dispatchers), leaf@, mapped@),
{
    DurableRuntimeLeaf {
        component_name: leaf.component_name,
        key: leaf.key,
        prompt: leaf.prompt,
        declaration: leaf.declaration.map_handles(factories, dispatchers),
    }
}

fn map_nodes<F, D, G, E, M: Fn(Arc<F>) -> Arc<G>, N: Fn(Arc<D>) -> Arc<E>>(
    nodes: Vec<DurableSystemNode<F, D>>,
    factories: &M,
    dispatchers: &N,
) -> (mapped: Vec<DurableSystemNode<G, E>>)
    requires
        forall|handle: Arc<F>| #[trigger] factories.requires((handle,)),
        forall|handle: Arc<D>| #[trigger] dispatchers.requires((handle,)),
    ensures
        mapped@.len() == nodes@.len(),
        forall|i: int|
            0 <= i < nodes@.len() ==> node_mapped(
                by_function(*factories),
                by_function(*dispatchers),
                nodes@[i]@,
                (#[trigger] mapped@[i])@,
            ),
    decreases nodes,
{
    let ghost all = nodes@;
    let mut mapped: Vec<DurableSystemNode<G, E>> = Vec::new();
    for node in iter: nodes
        invariant
            iter.seq() == all,
            all == nodes@,
            forall|handle: Arc<F>| #[trigger] factories.requires((handle,)),
            forall|handle: Arc<D>| #[trigger] dispatchers.requires((handle,)),
            mapped@.len() == iter.index(),
            forall|i: int|
                0 <= i < mapped@.len() ==> node_mapped(
                    by_function(*factories),
                    by_function(*dispatchers),
                    all[i]@,
                    (#[trigger] mapped@[i])@,
                ),
    {
        let ghost at = iter.index() as int;
        let ghost model = node@;
        proof {
            assert(node == all[at]);
            assert(decreases_to!(nodes => all[at]));
        }
        let next = match node {
            DurableSystemNode::Pom(prompt) => DurableSystemNode::Pom(prompt),
            DurableSystemNode::Runtime(leaf) => DurableSystemNode::Runtime(
                map_leaf(leaf, factories, dispatchers),
            ),
            DurableSystemNode::Failed(error) => DurableSystemNode::Failed(error),
            DurableSystemNode::Scope { scope, children } => {
                proof {
                    lemma_durable_scope_view(scope, children);
                }
                let ghost from = children@;
                let children = map_nodes(children, factories, dispatchers);
                proof {
                    lemma_durable_scope_view(scope, children);
                    assert forall|i: int| 0 <= i < from.len() implies node_mapped(
                        by_function(*factories),
                        by_function(*dispatchers),
                        durable_models(from)[i],
                        #[trigger] durable_models(children@)[i],
                    ) by {
                        assert(durable_models(children@)[i] == children@[i]@);
                    }
                }
                DurableSystemNode::Scope { scope, children }
            },
        };
        assert(node_mapped(by_function(*factories), by_function(*dispatchers), model, next@));
        mapped.push(next);
    }
    mapped
}

impl<F, D> DurableComponent<F, D> {
    /// Puts other handles in place of the host's: everything else stays.
    pub fn map_handles<G, E, M: Fn(Arc<F>) -> Arc<G>, N: Fn(Arc<D>) -> Arc<E>>(
        self,
        factories: &M,
        dispatchers: &N,
    ) -> (mapped: DurableComponent<G, E>)
        requires
            forall|handle: Arc<F>| #[trigger] factories.requires((handle,)),
            forall|handle: Arc<D>| #[trigger] dispatchers.requires((handle,)),
        ensures
            component_mapped(by_function(*factories), by_function(*dispatchers), self@, mapped@),
    {
        match self.leaf {
            Ok(leaf) => DurableComponent { leaf: Ok(map_leaf(leaf, factories, dispatchers)) },
            Err(error) => DurableComponent { leaf: Err(error) },
        }
    }

    /// Carries the component over to the lanes of the surrounding one: what its makers
    /// make is mapped, everything else stays.
    pub fn map_channels<Local: TurnChannels, M>(self, map: Arc<M>) -> (mapped: DurableComponent<
        MappedMaker<Local, F, M>,
        MappedMaker<Local, D, M>,
    >)
        ensures
            component_mapped(
                through_map::<Local, F, M>(map),
                through_map::<Local, D, M>(map),
                self@,
                mapped@,
            ),
    {
        let factories = |handle: Arc<F>| -> (made: Arc<MappedMaker<Local, F, M>>)
            ensures
                is_mapped(&map, *handle, *made),
            { Arc::new(MappedMaker::new(handle, share(&map))) };
        let dispatchers = |handle: Arc<D>| -> (made: Arc<MappedMaker<Local, D, M>>)
            ensures
                is_mapped(&map, *handle, *made),
            { Arc::new(MappedMaker::new(handle, share(&map))) };
        let ghost from = self@;
        let mapped = self.map_handles(&factories, &dispatchers);
        proof {
            lemma_component_weaker(
                by_function(factories),
                by_function(dispatchers),
                through_map::<Local, F, M>(map),
                through_map::<Local, D, M>(map),
                from,
                mapped@,
            );
        }
        mapped
    }

    /// Lets the component read its properties out of those of the surrounding one: its
    /// makers are told a part of them, everything else stays.
    pub fn project_props<Props, P>(self, project: Arc<P>) -> (projected: DurableComponent<
        ProjectedMaker<Props, F, P>,
        ProjectedMaker<Props, D, P>,
    >)
        ensures
            component_mapped(
                through_projection::<Props, F, P>(project),
                through_projection::<Props, D, P>(project),
                self@,
                projected@,
            ),
    {
        let factories = |handle: Arc<F>| -> (made: Arc<ProjectedMaker<Props, F, P>>)
            ensures
                is_projected(&project, *handle, *made),
            { Arc::new(ProjectedMaker::new(handle, share(&project))) };
        let dispatchers = |handle: Arc<D>| -> (made: Arc<ProjectedMaker<Props, D, P>>)
            ensures
                is_projected(&project, *handle, *made),
            { Arc::new(ProjectedMaker::new(handle, share(&project))) };
        let ghost from = self@;
        let projected = self.map_handles(&factories, &dispatchers);
        proof {
            lemma_component_weaker(
                by_function(factories),
                by_function(dispatchers),
                through_projection::<Props, F, P>(project),
                through_projection::<Props, D, P>(project),
                from,
                projected@,
            );
        }
        projected
    }
}

impl<F, D> DurableSystem<F, D> {
    /// Puts other handles in place of the host's: everything else stays.
    pub fn map_handles<G, E, M: Fn(Arc<F>) -> Arc<G>, N: Fn(Arc<D>) -> Arc<E>>(
        self,
        factories: &M,
        dispatchers: &N,
    ) -> (mapped: DurableSystem<G, E>)
        requires
            forall|handle: Arc<F>| #[trigger] factories.requires((handle,)),
            forall|handle: Arc<D>| #[trigger] dispatchers.requires((handle,)),
        ensures
            system_mapped(by_function(*factories), by_function(*dispatchers), self@, mapped@),
    {
        match self.nodes {
            Ok(nodes) => {
                let ghost from = nodes@;
                let nodes = map_nodes(nodes, factories, dispatchers);
                assert forall|i: int| 0 <= i < from.len() implies node_mapped(
                    by_function(*factories),
                    by_function(*dispatchers),
                    durable_models(from)[i],
                    #[trigger] durable_models(nodes@)[i],
                ) by {
                    assert(durable_models(nodes@)[i] == nodes@[i]@);
                }
                DurableSystem { nodes: Ok(nodes) }
            },
            Err(error) => DurableSystem { nodes: Err(error) },
        }
    }

    /// Carries the system over to the lanes of the surrounding one: what its makers make
    /// is mapped, everything else stays.
    pub fn map_channels<Local: TurnChannels, M>(self, map: Arc<M>) -> (mapped: DurableSystem<
        MappedMaker<Local, F, M>,
        MappedMaker<Local, D, M>,
    >)
        ensures
            system_mapped(
                through_map::<Local, F, M>(map),
                through_map::<Local, D, M>(map),
                self@,
                mapped@,
            ),
    {
        let factories = |handle: Arc<F>| -> (made: Arc<MappedMaker<Local, F, M>>)
            ensures
                is_mapped(&map, *handle, *made),
            { Arc::new(MappedMaker::new(handle, share(&map))) };
        let dispatchers = |handle: Arc<D>| -> (made: Arc<MappedMaker<Local, D, M>>)
            ensures
                is_mapped(&map, *handle, *made),
            { Arc::new(MappedMaker::new(handle, share(&map))) };
        let ghost from = self@;
        let mapped = self.map_handles(&factories, &dispatchers);
        proof {
            lemma_system_weaker(
                by_function(factories),
                by_function(dispatchers),
                through_map::<Local, F, M>(map),
                through_map::<Local, D, M>(map),
                from,
                mapped@,
            );
        }
        mapped
    }

    /// Lets the system read its properties out of those of the surrounding one: its makers
    /// are told a part of them, everything else stays.
    pub fn project_props<Props, P>(self, project: Arc<P>) -> (projected: DurableSystem<
        ProjectedMaker<Props, F, P>,
        ProjectedMaker<Props, D, P>,
    >)
        ensures
            system_mapped(
                through_projection::<Props, F, P>(project),
                through_projection::<Props, D, P>(project),
                self@,
                projected@,
            ),
    {
        let factories = |handle: Arc<F>| -> (made: Arc<ProjectedMaker<Props, F, P>>)
            ensures
                is_projected(&project, *handle, *made),
            { Arc::new(ProjectedMaker::new(handle, share(&project))) };
        let dispatchers = |handle: Arc<D>| -> (made: Arc<ProjectedMaker<Props, D, P>>)
            ensures
                is_projected(&project, *handle, *made),
            { Arc::new(ProjectedMaker::new(handle, share(&project))) };
        let ghost from = self@;
        let projected = self.map_handles(&factories, &dispatchers);
        proof {
            lemma_system_weaker(
                by_function(factories),
                by_function(dispatchers),
                through_projection::<Props, F, P>(project),
                through_projection::<Props, D, P>(project),
                from,
                projected@,
            );
        }
        projected
    }
}

proof fn lemma_fresh_leaf<F, D>(
    leaf: LeafModel<F, D>,
    parent: Seq<char>,
    position: nat,
    role: Option<PromptRole>,
)
    requires
        leaf.prompt is Some,
    ensures
        node_error(created_leaf(leaf)) == node_error(reopened_leaf(leaf)),
        node_bindings(created_leaf(leaf), parent, position, role) == node_bindings(
            reopened_leaf(leaf),
            parent,
            position,
            role,
        ),
{
    let with_prompt = created_leaf(leaf)->children;
    let alone = reopened_leaf(leaf)->children;
    let path = scope_path(parent, leaf.name, Some(leaf.key), position);
    let binding = TreeModel::Binding { key: leaf_binding_key(), binding: leaf.declaration };
    let prompt = TreeModel::<DeclarationModel<F, D>>::Pom(leaf.prompt->Some_0);
    assert(with_prompt.drop_last() =~= seq![prompt]);
    assert(seq![prompt].drop_last() =~= Seq::empty());
    assert(alone.drop_last() =~= Seq::empty());
    assert(with_prompt.last() == binding && alone.last() == binding);
    assert(node_error(binding) is None && node_error(prompt) is None);
    assert(tree_error(alone.drop_last()) is None);
    assert(tree_error(seq![prompt].drop_last()) is None);
    assert(tree_error(seq![prompt]) is None);
    assert(tree_error(with_prompt) is None);
    assert(tree_error(alone) is None);
    assert(node_bindings(prompt, path, 0, role) =~= Seq::empty());
    assert(tree_bindings(seq![prompt].drop_last(), path, role) =~= Seq::empty());
    assert(tree_bindings(seq![prompt], path, role) =~= Seq::empty());
    assert(tree_bindings(alone.drop_last(), path, role) =~= Seq::empty());
    assert(node_bindings(binding, path, 0, role) == node_bindings(binding, path, 1, role));
    assert(tree_bindings(with_prompt, path, role) =~= tree_bindings(alone, path, role));
}

proof fn lemma_fresh_node<F, D>(
    node: DurableModel<F, D>,
    parent: Seq<char>,
    position: nat,
    role: Option<PromptRole>,
)
    requires
        is_fresh(node),
    ensures
        node_error(created(node)) == node_error(reopened(node)),
        node_bindings(created(node), parent, position, role) == node_bindings(
            reopened(node),
            parent,
            position,
            role,
        ),
    decreases node,
{
    match node {
        DurableModel::Pom(prompt) => {
            assert(node_bindings(created(node), parent, position, role) =~= Seq::empty());
        },
        DurableModel::Runtime(leaf) => {
            lemma_fresh_leaf(leaf, parent, position, role);
        },
        DurableModel::Failed(_) => {},
        DurableModel::Scope { name, key, children } => {
            lemma_scope_projections(name, key, children);
            assert(decreases_to!(node => children));
            lemma_fresh_nodes(children, scope_path(parent, name, key, position), role);
        },
    }
}

proof fn lemma_fresh_nodes<F, D>(
    nodes: Seq<DurableModel<F, D>>,
    parent: Seq<char>,
    role: Option<PromptRole>,
)
    requires
        all_fresh(nodes),
    ensures
        tree_error(created_nodes(nodes)) == tree_error(reopened_nodes(nodes)),
        tree_bindings(created_nodes(nodes), parent, role) == tree_bindings(
            reopened_nodes(nodes),
            parent,
            role,
        ),
    decreases nodes,
{
    if nodes.len() == 0 {
        assert(created_nodes(nodes) =~= Seq::empty());
        assert(reopened_nodes(nodes) =~= Seq::empty());
    } else {
        let before = nodes.drop_last();
        assert(created_nodes(nodes).drop_last() =~= created_nodes(before));
        assert(reopened_nodes(nodes).drop_last() =~= reopened_nodes(before));
        assert(forall|i: int| 0 <= i < before.len() ==> #[trigger] before[i] == nodes[i]);
        assert(decreases_to!(nodes => before));
        assert(decreases_to!(nodes => nodes[nodes.len() - 1]));
        lemma_fresh_nodes(before, parent, role);
        lemma_fresh_node(nodes.last(), parent, (nodes.len() - 1) as nat, role);
        assert(created_nodes(nodes).last() == created(nodes.last()));
        assert(reopened_nodes(nodes).last() == reopened(nodes.last()));
    }
}

/// Reopening a durable system finds exactly what creating it mounted: the same
/// factories and capabilities in the same order under the same ids, or the same
/// failure.
pub proof fn law_reopening_finds_what_was_created<F, D>(
    system: Result<Seq<DurableModel<F, D>>, ComponentErrorModel>,
)
    requires
        system is Ok ==> all_fresh(system->Ok_0),
    ensures
        mounted(created_system(system)) == mounted(reopened_system(system)),
{
    match system {
        Ok(nodes) => {
            lemma_fresh_nodes(nodes, Seq::empty(), Some(PromptRole::System));
        },
        Err(_) => {},
    }
}

proof fn lemma_reopened_after_creation<F, D>(node: DurableModel<F, D>)
    ensures
        reopened(consumed(node)) == reopened(node),
    decreases node,
{
    match node {
        DurableModel::Scope { name, key, children } => {
            lemma_scope_projections(name, key, children);
            lemma_scope_projections(name, key, consumed_nodes(children));
            assert forall|i: int| 0 <= i < children.len() implies reopened_nodes(
                consumed_nodes(children),
            )[i] == #[trigger] reopened_nodes(children)[i] by {
                assert(decreases_to!(node => children));
                assert(decreases_to!(node => children[i]));
                lemma_reopened_after_creation(children[i]);
            }
            assert(reopened_nodes(consumed_nodes(children)) =~= reopened_nodes(children));
        },
        _ => {},
    }
}

proof fn lemma_node_mapped<F, D, G, E>(
    factories: spec_fn(F, G) -> bool,
    dispatchers: spec_fn(D, E) -> bool,
    from: DurableModel<F, D>,
    to: DurableModel<G, E>,
)
    requires
        node_mapped(factories, dispatchers, from, to),
    ensures
        tree_mapped(factories, dispatchers, created(from), created(to)),
        tree_mapped(factories, dispatchers, reopened(from), reopened(to)),
    decreases from,
{
    match (from, to) {
        (DurableModel::Runtime(from), DurableModel::Runtime(to)) => {
            let binding = TreeModel::Binding { key: leaf_binding_key(), binding: from.declaration };
            let to_binding = TreeModel::Binding {
                key: leaf_binding_key(),
                binding: to.declaration,
            };
            assert(tree_mapped(factories, dispatchers, binding, to_binding));
            if from.prompt is Some {
                let prompt = TreeModel::<DeclarationModel<F, D>>::Pom(from.prompt->Some_0);
                let to_prompt = TreeModel::<DeclarationModel<G, E>>::Pom(to.prompt->Some_0);
                assert(tree_mapped(factories, dispatchers, prompt, to_prompt));
            }
        },
        (
            DurableModel::Scope { name, key, children },
            DurableModel::Scope { name: to_name, key: to_key, children: to_children },
        ) => {
            lemma_scope_projections(name, key, children);
            lemma_scope_projections(to_name, to_key, to_children);
            assert forall|i: int| 0 <= i < children.len() implies tree_mapped(
                factories,
                dispatchers,
                created_nodes(children)[i],
                #[trigger] created_nodes(to_children)[i],
            ) by {
                assert(decreases_to!(from => children));
                assert(decreases_to!(from => children[i]));
                lemma_node_mapped(factories, dispatchers, children[i], to_children[i]);
            }
            assert forall|i: int| 0 <= i < children.len() implies tree_mapped(
                factories,
                dispatchers,
                reopened_nodes(children)[i],
                #[trigger] reopened_nodes(to_children)[i],
            ) by {
                assert(decreases_to!(from => children));
                assert(decreases_to!(from => children[i]));
                lemma_node_mapped(factories, dispatchers, children[i], to_children[i]);
            }
        },
        _ => {},
    }
}

/// Carrying a system over leaves its prompts as they are and lets creating and reopening
/// agree: either way the tree is the one from before, with the same handles replaced.
pub proof fn law_mapping_reaches_both_projections<F, D, G, E>(
    factories: spec_fn(F, G) -> bool,
    dispatchers: spec_fn(D, E) -> bool,
    from: Result<Seq<DurableModel<F, D>>, ComponentErrorModel>,
    to: Result<Seq<DurableModel<G, E>>, ComponentErrorModel>,
)
    requires
        system_mapped(factories, dispatchers, from, to),
    ensures
        trees_mapped(factories, dispatchers, created_system(from), created_system(to)),
        trees_mapped(factories, dispatchers, reopened_system(from), reopened_system(to)),
        tree_text(created_system(to)) == tree_text(created_system(from)),
{
    match (from, to) {
        (Ok(from), Ok(to)) => {
            assert forall|i: int| 0 <= i < from.len() implies tree_mapped(
                factories,
                dispatchers,
                created_nodes(from)[i],
                #[trigger] created_nodes(to)[i],
            ) by {
                lemma_node_mapped(factories, dispatchers, from[i], to[i]);
            }
            assert forall|i: int| 0 <= i < from.len() implies tree_mapped(
                factories,
                dispatchers,
                reopened_nodes(from)[i],
                #[trigger] reopened_nodes(to)[i],
            ) by {
                lemma_node_mapped(factories, dispatchers, from[i], to[i]);
            }
        },
        _ => {},
    }
    law_mapping_keeps_text_and_identity(
        factories,
        dispatchers,
        created_system(from),
        created_system(to),
        Seq::empty(),
        Some(PromptRole::System),
    );
}

proof fn lemma_reopened_text<F, D>(node: DurableModel<F, D>)
    ensures
        node_text(reopened(node)) == Seq::<EdgeModel>::empty(),
    decreases node,
{
    match node {
        DurableModel::Runtime(leaf) => {
            let children = reopened_leaf(leaf)->children;
            assert(children.drop_last() =~= Seq::empty());
            assert(tree_text(children.drop_last()) =~= Seq::empty());
            assert(node_text(children.last()) =~= Seq::empty());
            assert(tree_text(children) =~= Seq::empty());
        },
        DurableModel::Scope { name, key, children } => {
            lemma_scope_projections(name, key, children);
            assert(decreases_to!(node => children));
            lemma_reopened_texts(children);
        },
        _ => {},
    }
}

proof fn lemma_reopened_texts<F, D>(nodes: Seq<DurableModel<F, D>>)
    ensures
        tree_text(reopened_nodes(nodes)) == Seq::<EdgeModel>::empty(),
    decreases nodes,
{
    if nodes.len() == 0 {
        assert(reopened_nodes(nodes) =~= Seq::empty());
    } else {
        let before = nodes.drop_last();
        assert(reopened_nodes(nodes).drop_last() =~= reopened_nodes(before));
        assert(decreases_to!(nodes => before));
        assert(decreases_to!(nodes => nodes[nodes.len() - 1]));
        lemma_reopened_texts(before);
        lemma_reopened_text(nodes.last());
        assert(reopened_nodes(nodes).last() == reopened(nodes.last()));
        assert(tree_text(reopened_nodes(nodes)) =~= Seq::empty());
    }
}

/// Reopening sends no prompt again: whatever the system holds, the reopened tree
/// has no text.
pub proof fn law_reopening_sends_no_text<F, D>(
    system: Result<Seq<DurableModel<F, D>>, ComponentErrorModel>,
)
    ensures
        tree_text(reopened_system(system)) == Seq::<EdgeModel>::empty(),
{
    match system {
        Ok(nodes) => {
            lemma_reopened_texts(nodes);
        },
        Err(error) => {
            let failed = seq![TreeModel::<DeclarationModel<F, D>>::Failed(error)];
            assert(failed.drop_last() =~= Seq::empty());
            assert(tree_text(failed.drop_last()) =~= Seq::empty());
            assert(node_text(failed.last()) =~= Seq::empty());
            assert(tree_text(failed) =~= Seq::empty());
        },
    }
}

/// Creating a system does not change how it is reopened.
pub proof fn law_creation_keeps_the_reopened_system<F, D>(nodes: Seq<DurableModel<F, D>>)
    ensures
        reopened_nodes(consumed_nodes(nodes)) == reopened_nodes(nodes),
{
    assert forall|i: int| 0 <= i < nodes.len() implies reopened_nodes(consumed_nodes(nodes))[i]
        == #[trigger] reopened_nodes(nodes)[i] by {
        lemma_reopened_after_creation(nodes[i]);
    }
    assert(reopened_nodes(consumed_nodes(nodes)) =~= reopened_nodes(nodes));
}

/// Whether a failure is that of mounting a prompt a second time.
pub open spec fn is_second_mount(error: ComponentErrorModel) -> bool {
    error == consumed_prompt_error() || error == consumed_leaf_error()
}

proof fn lemma_created_twice<F, D>(node: DurableModel<F, D>)
    ensures
        node_text(created(consumed(node))) == Seq::<EdgeModel>::empty(),
        has_prompt(node) ==> node_error(created(consumed(node))) is Some,
        node_error(reopened(node)) is None ==> match node_error(created(consumed(node))) {
            Some(error) => is_second_mount(error),
            None => !has_prompt(node),
        },
    decreases node,
{
    match node {
        DurableModel::Scope { name, key, children } => {
            lemma_scope_projections(name, key, children);
            lemma_scope_projections(name, key, consumed_nodes(children));
            assert(decreases_to!(node => children));
            lemma_all_created_twice(children);
        },
        _ => {},
    }
}

proof fn lemma_all_created_twice<F, D>(nodes: Seq<DurableModel<F, D>>)
    ensures
        tree_text(created_nodes(consumed_nodes(nodes))) == Seq::<EdgeModel>::empty(),
        (exists|i: int| 0 <= i < nodes.len() && has_prompt(#[trigger] nodes[i])) ==> tree_error(
            created_nodes(consumed_nodes(nodes)),
        ) is Some,
        tree_error(reopened_nodes(nodes)) is None ==> match tree_error(
            created_nodes(consumed_nodes(nodes)),
        ) {
            Some(error) => is_second_mount(error),
            None => forall|i: int| 0 <= i < nodes.len() ==> !has_prompt(#[trigger] nodes[i]),
        },
    decreases nodes,
{
    let again = created_nodes(consumed_nodes(nodes));
    if nodes.len() == 0 {
        assert(again =~= Seq::empty());
    } else {
        let before = nodes.drop_last();
        assert(again.drop_last() =~= created_nodes(consumed_nodes(before)));
        assert(again.last() == created(consumed(nodes.last())));
        assert(reopened_nodes(nodes).drop_last() =~= reopened_nodes(before));
        assert(reopened_nodes(nodes).last() == reopened(nodes.last()));
        assert(decreases_to!(nodes => before));
        assert(decreases_to!(nodes => nodes[nodes.len() - 1]));
        lemma_all_created_twice(before);
        lemma_created_twice(nodes.last());
        assert(tree_text(again) =~= Seq::empty());
        assert forall|i: int| 0 <= i < nodes.len() && has_prompt(#[trigger] nodes[i]) implies i
            == nodes.len() - 1 || (0 <= i < before.len() && has_prompt(before[i])) by {}
        assert forall|i: int| 0 <= i < nodes.len() implies i == nodes.len() - 1
            || #[trigger] nodes[i] == before[i] by {}
    }
}

proof fn lemma_consumed_twice<F, D>(node: DurableModel<F, D>)
    ensures
        consumed(consumed(node)) == consumed(node),
    decreases node,
{
    match node {
        DurableModel::Scope { name, key, children } => {
            lemma_scope_projections(name, key, children);
            lemma_scope_projections(name, key, consumed_nodes(children));
            assert forall|i: int| 0 <= i < children.len() implies consumed_nodes(
                consumed_nodes(children),
            )[i] == #[trigger] consumed_nodes(children)[i] by {
                assert(decreases_to!(node => children));
                assert(decreases_to!(node => children[i]));
                lemma_consumed_twice(children[i]);
            }
            assert(consumed_nodes(consumed_nodes(children)) =~= consumed_nodes(children));
        },
        _ => {},
    }
}

/// A system hands its prompts out once. Creating it a second time sends no text, and
/// where it has a prompt, that fails: with the failure of a second mount, unless
/// something else about the system failed before. Reopening it goes on as if it had
/// not been created, and creating it again leaves it as it is.
pub proof fn law_prompts_are_handed_out_once<F, D>(
    system: Result<Seq<DurableModel<F, D>>, ComponentErrorModel>,
)
    ensures
        tree_text(created_system(consumed_system(system))) == Seq::<EdgeModel>::empty(),
        system_has_prompt(system) ==> match mounted(created_system(consumed_system(system))) {
            Err(MountErrorModel::Component(error)) => tree_error(reopened_system(system)) is None
                ==> is_second_mount(error),
            _ => false,
        },
        reopened_system(consumed_system(system)) == reopened_system(system),
        mounted(reopened_system(consumed_system(system))) == mounted(reopened_system(system)),
        consumed_system(consumed_system(system)) == consumed_system(system),
{
    match system {
        Ok(nodes) => {
            lemma_all_created_twice(nodes);
            law_creation_keeps_the_reopened_system(nodes);
            assert forall|i: int| 0 <= i < nodes.len() implies consumed_nodes(
                consumed_nodes(nodes),
            )[i] == #[trigger] consumed_nodes(nodes)[i] by {
                lemma_consumed_twice(nodes[i]);
            }
            assert(consumed_nodes(consumed_nodes(nodes)) =~= consumed_nodes(nodes));
        },
        Err(error) => {
            let failed = seq![TreeModel::<DeclarationModel<F, D>>::Failed(error)];
            assert(failed.drop_last() =~= Seq::empty());
            assert(tree_text(failed.drop_last()) =~= Seq::empty());
            assert(node_text(failed.last()) =~= Seq::empty());
            assert(tree_text(failed) =~= Seq::empty());
        },
    }
}

} // verus!
