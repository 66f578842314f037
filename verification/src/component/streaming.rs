//! Streaming components: XML contracts with reducers, and the views they are authored
//! as.

use core::marker::PhantomData;
use std::sync::Arc;
use vstd::prelude::*;
use crate::component::channel_map::{ChannelMap, Lane};
use crate::component::channels::TurnChannels;
use crate::component::declaration::share;
use crate::component::handlers::{ChannelDiagnostic, ChannelEffect, CommitEffect, FnFinish};
use crate::component::handlers::{FnReducer, HandlerModel, LiveEffect, MappedDiagnosticHandler};
use crate::component::handlers::{MappedEffectHandler, NoReducer, OutputEffect};
use crate::component::handlers::{StreamingBinding, StreamingBindingModel};
use crate::component::handlers::TypedStreamingHandler;
use crate::component::identity::{contract_error, is_key, BindingKey};
use crate::component::identity::{ComponentError, ComponentErrorModel, ComponentKey};
use crate::component::tree::{lemma_scope_view, tree_models, ComponentNode};
use crate::component::tree::TreeModel;
use crate::pom::document::Document;
use crate::pom::model::{is_xml_name, xml_edge, XmlModel};
use crate::pom::xml::{attribute_value, has_attribute, XmlName, XmlNode};
use crate::text_chars::joined;

verus! {

/// The tag that a streaming contract listens to: its own name, or for a `<tool>` the
/// name that the tool is given.
pub open spec fn contract_tag(contract: XmlModel) -> Result<Seq<char>, ComponentErrorModel> {
    if contract.name != "tool"@ {
        Ok(contract.name)
    } else if !has_attribute(contract.attributes, "name"@) {
        Err(contract_error("a <tool> streaming contract requires a name attribute"@))
    } else {
        let tag = attribute_value(contract.attributes, "name"@);
        if is_xml_name(tag) {
            Ok(tag)
        } else {
            Err(contract_error("invalid XML name: "@ + tag))
        }
    }
}

/// The tag that a streaming contract listens to.
pub fn streaming_contract_tag(contract: &XmlNode) -> (result: Result<String, ComponentError>)
    ensures
        match result {
            Ok(tag) => contract_tag(contract@) == Ok::<Seq<char>, ComponentErrorModel>(tag@),
            Err(error) => contract_tag(contract@) == Err::<Seq<char>, ComponentErrorModel>(error@),
        },
{
    let tool: String = "tool".to_owned();
    let own: String = contract.name().as_str().to_owned();
    if own != tool {
        return Ok(own);
    }
    proof {
        reveal_strlit("name");
    }
    assert(is_xml_name("name"@));
    let name = match XmlName::new("name") {
        Ok(name) => name,
        Err(_) => vstd::pervasive::unreached(),
    };
    match contract.attributes().get(&name) {
        None => Err(
            ComponentError::contract(
                "a <tool> streaming contract requires a name attribute".to_owned(),
            ),
        ),
        Some(attribute) => match XmlName::new(attribute.value()) {
            Ok(_) => Ok(attribute.value().to_owned()),
            Err(_) => Err(ComponentError::contract(joined("invalid XML name: ", attribute.value()))),
        },
    }
}

/// An XML contract for what a model may stream.
pub struct StreamingXml {
    pub(crate) contract: XmlNode,
}

impl View for StreamingXml {
    type V = XmlModel;

    open(crate) spec fn view(&self) -> XmlModel {
        self.contract@
    }
}

impl StreamingXml {
    pub fn new(contract: XmlNode) -> (streaming: Self)
        ensures
            streaming@ == contract@,
    {
        Self { contract }
    }

    /// Gives the contract a state, without reducers so far.
    pub fn init_state<S, E, D>(self, state: S) -> (reducer: StreamingXmlReducer<
        S,
        NoReducer<E, D>,
        NoReducer<E, D>,
        NoReducer<E, D>,
        NoReducer<E, D>,
    >)
        ensures
            reducer.contract_model() == self@,
            reducer@.state == Some(state),
            reducer@.finish is Some,
    {
        StreamingXmlReducer {
            contract: self.contract,
            state,
            on_open: NoReducer::new(),
            on_stream: NoReducer::new(),
            on_complete: NoReducer::new(),
            finish: NoReducer::new(),
        }
    }
}

/// A contract with a state and reducers.
pub struct StreamingXmlReducer<S, O, T, K, F> {
    pub(crate) contract: XmlNode,
    pub(crate) state: S,
    pub(crate) on_open: O,
    pub(crate) on_stream: T,
    pub(crate) on_complete: K,
    pub(crate) finish: F,
}

impl<S, O, T, K, F> View for StreamingXmlReducer<S, O, T, K, F> {
    type V = HandlerModel<S, O, T, K, F>;

    open(crate) spec fn view(&self) -> HandlerModel<S, O, T, K, F> {
        HandlerModel {
            state: Some(self.state),
            on_open: self.on_open,
            on_stream: self.on_stream,
            on_complete: self.on_complete,
            finish: Some(self.finish),
        }
    }
}

impl<S, O, T, K, F> StreamingXmlReducer<S, O, T, K, F> {
    /// The contract.
    pub open(crate) spec fn contract_model(self) -> XmlModel {
        self.contract@
    }

    /// Runs a reducer when an element opens.
    pub fn on_open<X, R, G: Fn(&mut S, &X) -> R>(self, reducer: G) -> (result: StreamingXmlReducer<
        S,
        FnReducer<S, X, R, G>,
        T,
        K,
        F,
    >)
        requires
            forall|state: &mut S, element: &X| #[trigger] reducer.requires((state, element)),
        ensures
            result.contract_model() == self.contract_model(),
            result@.state == self@.state,
            result@.on_open.function() == reducer,
            result@.on_stream == self@.on_stream,
            result@.on_complete == self@.on_complete,
            result@.finish == self@.finish,
    {
        StreamingXmlReducer {
            contract: self.contract,
            state: self.state,
            on_open: FnReducer::new(reducer),
            on_stream: self.on_stream,
            on_complete: self.on_complete,
            finish: self.finish,
        }
    }

    /// Runs a reducer while an element streams in.
    pub fn on_stream<X, R, G: Fn(&mut S, &X) -> R>(self, reducer: G) -> (result: StreamingXmlReducer<
        S,
        O,
        FnReducer<S, X, R, G>,
        K,
        F,
    >)
        requires
            forall|state: &mut S, element: &X| #[trigger] reducer.requires((state, element)),
        ensures
            result.contract_model() == self.contract_model(),
            result@.state == self@.state,
            result@.on_stream.function() == reducer,
            result@.on_open == self@.on_open,
            result@.on_complete == self@.on_complete,
            result@.finish == self@.finish,
    {
        StreamingXmlReducer {
            contract: self.contract,
            state: self.state,
            on_open: self.on_open,
            on_stream: FnReducer::new(reducer),
            on_complete: self.on_complete,
            finish: self.finish,
        }
    }

    /// Runs a reducer when an element is complete.
    pub fn on_complete<X, R, G: Fn(&mut S, &X) -> R>(self, reducer: G) -> (result: StreamingXmlReducer<
        S,
        O,
        T,
        FnReducer<S, X, R, G>,
        F,
    >)
        requires
            forall|state: &mut S, element: &X| #[trigger] reducer.requires((state, element)),
        ensures
            result.contract_model() == self.contract_model(),
            result@.state == self@.state,
            result@.on_complete.function() == reducer,
            result@.on_open == self@.on_open,
            result@.on_stream == self@.on_stream,
            result@.finish == self@.finish,
    {
        StreamingXmlReducer {
            contract: self.contract,
            state: self.state,
            on_open: self.on_open,
            on_stream: self.on_stream,
            on_complete: FnReducer::new(reducer),
            finish: self.finish,
        }
    }

    /// Runs a reducer at the end of the stream.
    pub fn finish<R, G: FnOnce(S) -> R>(self, reducer: G) -> (result: StreamingXmlReducer<
        S,
        O,
        T,
        K,
        FnFinish<S, R, G>,
    >)
        requires
            forall|state: S| #[trigger] reducer.requires((state,)),
        ensures
            result.contract_model() == self.contract_model(),
            result@.state == self@.state,
            result@.on_open == self@.on_open,
            result@.on_stream == self@.on_stream,
            result@.on_complete == self@.on_complete,
            result@.finish is Some,
            result@.finish->Some_0.function() == reducer,
    {
        StreamingXmlReducer {
            contract: self.contract,
            state: self.state,
            on_open: self.on_open,
            on_stream: self.on_stream,
            on_complete: self.on_complete,
            finish: FnFinish::new(reducer),
        }
    }

    /// The component of the contract: its text, and the binding that listens to its
    /// tag, under the tag as its key.
    pub fn into_view(self) -> (result: StreamingValueView<TypedStreamingHandler<S, O, T, K, F>>)
        ensures
            match contract_tag(self.contract_model()) {
                Err(error) => result@ == Err::<
                    TreeModel<StreamingBindingModel<TypedStreamingHandler<S, O, T, K, F>>>,
                    ComponentErrorModel,
                >(error),
                Ok(tag) => {
                    let binding = result@->Ok_0->children[1];
                    &&& result@ is Ok
                    &&& result@->Ok_0 == (TreeModel::Scope {
                        name: "agentview::component::StreamingXml"@,
                        key: Some(tag),
                        children: seq![
                            TreeModel::Pom(seq![xml_edge(self.contract_model())]),
                            binding,
                        ],
                    })
                    &&& binding is Binding
                    &&& binding->Binding_key == "stream"@
                    &&& binding->binding.tag == tag
                    &&& binding->binding.handler@ == self@
                },
            },
    {
        let tag: String = match streaming_contract_tag(&self.contract) {
            Ok(tag) => tag,
            Err(error) => return StreamingValueView { view: Err(error) },
        };
        let handler = TypedStreamingHandler::new(
            self.state,
            self.on_open,
            self.on_stream,
            self.on_complete,
            self.finish,
        );
        let binding = StreamingBinding::new(tag.as_str(), handler);
        let mut children: Vec<ComponentNode<StreamingBinding<TypedStreamingHandler<S, O, T, K, F>>>> =
            Vec::new();
        children.push(ComponentNode::Pom(Document::from_xml(self.contract)));
        children.push(
            ComponentNode::Binding { key: BindingKey { value: "stream".to_owned() }, binding },
        );
        let name: String = "agentview::component::StreamingXml".to_owned();
        let key = Some(ComponentKey { value: tag });
        proof {
            lemma_scope_view(name, key, children);
            let models = tree_models(children@);
            assert(models =~= seq![models[0], models[1]]);
        }
        StreamingValueView { view: Ok(ComponentNode::Scope { name, key, children }) }
    }

    /// The component of a contract whose reducers emit on several lanes.
    pub fn into_channels_view(self) -> (result: StreamingChannelsView<
        TypedStreamingHandler<S, O, T, K, F>,
    >)
        ensures
            match contract_tag(self.contract_model()) {
                Err(error) => result@ == Err::<
                    TreeModel<StreamingBindingModel<TypedStreamingHandler<S, O, T, K, F>>>,
                    ComponentErrorModel,
                >(error),
                Ok(tag) => {
                    let binding = result@->Ok_0->children[1];
                    &&& result@ is Ok
                    &&& result@->Ok_0 == (TreeModel::Scope {
                        name: "agentview::component::StreamingXml"@,
                        key: Some(tag),
                        children: seq![
                            TreeModel::Pom(seq![xml_edge(self.contract_model())]),
                            binding,
                        ],
                    })
                    &&& binding is Binding
                    &&& binding->Binding_key == "stream"@
                    &&& binding->binding.tag == tag
                    &&& binding->binding.handler@ == self@
                },
            },
    {
        StreamingChannelsView { view: self.into_view().view }
    }
}

/// Whether two trees have the same shape and text, and related bindings.
pub open spec fn tree_related<A, B>(
    relate: spec_fn(A, B) -> bool,
    from: ComponentNode<A>,
    to: ComponentNode<B>,
) -> bool
    decreases from,
{
    match (from, to) {
        (ComponentNode::Empty, ComponentNode::Empty) => true,
        (ComponentNode::Pom(from), ComponentNode::Pom(to)) => to == from,
        (
            ComponentNode::Binding { key, binding },
            ComponentNode::Binding { key: to_key, binding: to_binding },
        ) => to_key == key && relate(binding, to_binding),
        (
            ComponentNode::Scope { name, key, children },
            ComponentNode::Scope { name: to_name, key: to_key, children: to_children },
        ) => {
            &&& to_name == name
            &&& to_key == key
            &&& to_children@.len() == children@.len()
            &&& forall|i: int|
                0 <= i < children@.len() ==> tree_related(
                    relate,
                    children@[i],
                    #[trigger] to_children@[i],
                )
        },
        (ComponentNode::Failed(from), ComponentNode::Failed(to)) => to == from,
        _ => false,
    }
}

proof fn lemma_tree_related<A, B>(
    first: spec_fn(A, B) -> bool,
    second: spec_fn(A, B) -> bool,
    from: ComponentNode<A>,
    to: ComponentNode<B>,
)
    requires
        tree_related(first, from, to),
        forall|a: A, b: B| #[trigger] first(a, b) ==> second(a, b),
    ensures
        tree_related(second, from, to),
    decreases from,
{
    match (from, to) {
        (
            ComponentNode::Scope { name, key, children },
            ComponentNode::Scope { name: to_name, key: to_key, children: to_children },
        ) => {
            assert forall|i: int| 0 <= i < children@.len() implies tree_related(
                second,
                children@[i],
                #[trigger] to_children@[i],
            ) by {
                assert(decreases_to!(from => children));
                assert(decreases_to!(children => children@[i]));
                lemma_tree_related(first, second, children@[i], to_children@[i]);
            }
        },
        _ => {},
    }
}

/// Maps each binding of a tree.
pub fn map_bindings<A, B, M: Fn(A) -> B>(node: ComponentNode<A>, map: &M) -> (mapped:
    ComponentNode<B>)
    requires
        forall|binding: A| #[trigger] map.requires((binding,)),
    ensures
        tree_related(|from: A, to: B| map.ensures((from,), to), node, mapped),
    decreases node,
{
    match node {
        ComponentNode::Empty => ComponentNode::Empty,
        ComponentNode::Pom(document) => ComponentNode::Pom(document),
        ComponentNode::Binding { key, binding } => ComponentNode::Binding {
            key,
            binding: map(binding),
        },
        ComponentNode::Scope { name, key, children } => {
            let ghost all = children@;
            let mut mapped: Vec<ComponentNode<B>> = Vec::new();
            for child in iter: children
                invariant
                    iter.seq() == all,
                    all == children@,
                    decreases_to!(node => children),
                    forall|binding: A| #[trigger] map.requires((binding,)),
                    mapped@.len() == iter.index(),
                    forall|i: int|
                        0 <= i < mapped@.len() ==> tree_related(
                            |from: A, to: B| map.ensures((from,), to),
                            all[i],
                            #[trigger] mapped@[i],
                        ),
            {
                proof {
                    assert(child == all[iter.index() as int]);
                    assert(decreases_to!(children => all[iter.index() as int]));
                }
                mapped.push(map_bindings(child, map));
            }
            ComponentNode::Scope { name, key, children: mapped }
        },
        ComponentNode::Failed(error) => ComponentNode::Failed(error),
    }
}

/// The model of a view: a tree, or why there is none.
pub open spec fn view_model<B: View>(view: Result<ComponentNode<B>, ComponentError>) -> Result<
    TreeModel<B::V>,
    ComponentErrorModel,
> {
    match view {
        Ok(node) => Ok(node@),
        Err(error) => Err(error@),
    }
}

/// Whether two views are trees of the same shape with related bindings, or the same
/// failure.
pub open spec fn view_related<A, B>(
    relate: spec_fn(A, B) -> bool,
    from: Result<ComponentNode<A>, ComponentError>,
    to: Result<ComponentNode<B>, ComponentError>,
) -> bool {
    match (from, to) {
        (Ok(from), Ok(to)) => tree_related(relate, from, to),
        (Err(from), Err(to)) => to == from,
        _ => false,
    }
}

/// The key of a component, given by its author. Only one component without a key takes
/// one.
pub open spec fn keyed_view<V>(
    view: Result<TreeModel<V>, ComponentErrorModel>,
    key: Seq<char>,
) -> Result<TreeModel<V>, ComponentErrorModel> {
    match view {
        Err(error) => Err(error),
        Ok(node) => if !is_key(key) {
            Err(ComponentErrorModel::InvalidKey { value: key })
        } else {
            match node {
                TreeModel::Scope { name, key: old, children } => if old is Some {
                    Err(ComponentErrorModel::ComponentAlreadyKeyed)
                } else {
                    Ok(TreeModel::Scope { name, key: Some(key), children })
                },
                _ => Err(ComponentErrorModel::KeyRequiresComponent),
            }
        },
    }
}

fn key_view<B: View>(view: Result<ComponentNode<B>, ComponentError>, key: &str) -> (result: Result<
    ComponentNode<B>,
    ComponentError,
>)
    ensures
        view_model(result) == keyed_view(view_model(view), key@),
{
    let node = match view {
        Ok(node) => node,
        Err(error) => return Err(error),
    };
    let key = match ComponentKey::new(key) {
        Ok(key) => key,
        Err(error) => return Err(error),
    };
    match node {
        ComponentNode::Scope { name, key: old, children } => {
            proof {
                lemma_scope_view(name, old, children);
            }
            if old.is_some() {
                return Err(ComponentError::ComponentAlreadyKeyed);
            }
            let key = Some(key);
            proof {
                lemma_scope_view(name, key, children);
            }
            Ok(ComponentNode::Scope { name, key, children })
        },
        _ => Err(ComponentError::KeyRequiresComponent),
    }
}

fn map_view<A, B, M: Fn(A) -> B>(view: Result<ComponentNode<A>, ComponentError>, map: &M) -> (
mapped: Result<ComponentNode<B>, ComponentError>)
    requires
        forall|binding: A| #[trigger] map.requires((binding,)),
    ensures
        view_related(|from: A, to: B| map.ensures((from,), to), view, mapped),
{
    match view {
        Ok(node) => Ok(map_bindings(node, map)),
        Err(error) => Err(error),
    }
}

/// Whether a binding was kept with its effects mapped.
pub open spec fn effect_wrapped<A, H, M>(
    map: &Arc<M>,
    from: StreamingBinding<H>,
    to: StreamingBinding<MappedEffectHandler<A, H, M>>,
) -> bool {
    to@.tag == from@.tag && to@.handler.inner == from@.handler && to@.handler.map == *map
}

/// Whether a binding was kept with its diagnostics mapped.
pub open spec fn diagnostic_wrapped<A, H, M>(
    map: &Arc<M>,
    from: StreamingBinding<H>,
    to: StreamingBinding<MappedDiagnosticHandler<A, H, M>>,
) -> bool {
    to@.tag == from@.tag && to@.handler.inner == from@.handler && to@.handler.map == *map
}

/// Whether a view was kept with its effects mapped.
pub open spec fn view_effects_mapped<A, H, M>(
    map: Arc<M>,
    from: Result<ComponentNode<StreamingBinding<H>>, ComponentError>,
    to: Result<ComponentNode<StreamingBinding<MappedEffectHandler<A, H, M>>>, ComponentError>,
) -> bool {
    view_related(
        |a: StreamingBinding<H>, b: StreamingBinding<MappedEffectHandler<A, H, M>>|
            effect_wrapped(&map, a, b),
        from,
        to,
    )
}

/// Whether a view was kept with its diagnostics mapped.
pub open spec fn view_diagnostics_mapped<A, H, M>(
    map: Arc<M>,
    from: Result<ComponentNode<StreamingBinding<H>>, ComponentError>,
    to: Result<ComponentNode<StreamingBinding<MappedDiagnosticHandler<A, H, M>>>, ComponentError>,
) -> bool {
    view_related(
        |a: StreamingBinding<H>, b: StreamingBinding<MappedDiagnosticHandler<A, H, M>>|
            diagnostic_wrapped(&map, a, b),
        from,
        to,
    )
}

fn map_view_effects<A, H, M>(
    view: Result<ComponentNode<StreamingBinding<H>>, ComponentError>,
    map: Arc<M>,
) -> (mapped: Result<ComponentNode<StreamingBinding<MappedEffectHandler<A, H, M>>>, ComponentError>)
    ensures
        view_effects_mapped(map, view, mapped),
{
    let held: &Arc<M> = &map;
    let wrap = |binding: StreamingBinding<H>| -> (wrapped: StreamingBinding<
        MappedEffectHandler<A, H, M>,
    >)
        ensures
            effect_wrapped(held, binding, wrapped),
        { binding.map_effect(share(held)) };
    let ghost unmapped = view;
    let mapped = map_view(view, &wrap);
    proof {
        if unmapped is Ok {
                lemma_tree_related(
                    |from: StreamingBinding<H>, to: StreamingBinding<MappedEffectHandler<A, H, M>>|
                        wrap.ensures((from,), to),
                    |from: StreamingBinding<H>, to: StreamingBinding<MappedEffectHandler<A, H, M>>|
                        effect_wrapped(&map, from, to),
                    unmapped->Ok_0,
                    mapped->Ok_0,
                );
        }
    }
    mapped
}

fn map_view_diagnostics<A, H, M>(
    view: Result<ComponentNode<StreamingBinding<H>>, ComponentError>,
    map: Arc<M>,
) -> (mapped: Result<
    ComponentNode<StreamingBinding<MappedDiagnosticHandler<A, H, M>>>,
    ComponentError,
>)
    ensures
        view_diagnostics_mapped(map, view, mapped),
{
    let held: &Arc<M> = &map;
    let wrap = |binding: StreamingBinding<H>| -> (wrapped: StreamingBinding<
        MappedDiagnosticHandler<A, H, M>,
    >)
        ensures
            diagnostic_wrapped(held, binding, wrapped),
        { binding.map_diagnostic(share(held)) };
    let ghost unmapped = view;
    let mapped = map_view(view, &wrap);
    proof {
        if unmapped is Ok {
                lemma_tree_related(
                    |
                        from: StreamingBinding<H>,
                        to: StreamingBinding<MappedDiagnosticHandler<A, H, M>>,
                    | wrap.ensures((from,), to),
                    |
                        from: StreamingBinding<H>,
                        to: StreamingBinding<MappedDiagnosticHandler<A, H, M>>,
                    | diagnostic_wrapped(&map, from, to),
                    unmapped->Ok_0,
                    mapped->Ok_0,
                );
        }
    }
    mapped
}

/// A streaming component whose effects are not on any lane yet.
pub struct StreamingValueView<H> {
    pub(crate) view: Result<ComponentNode<StreamingBinding<H>>, ComponentError>,
}

impl<H> View for StreamingValueView<H> {
    type V = Result<TreeModel<StreamingBindingModel<H>>, ComponentErrorModel>;

    open(crate) spec fn view(&self) -> Result<
        TreeModel<StreamingBindingModel<H>>,
        ComponentErrorModel,
    > {
        view_model(self.view)
    }
}

impl<H> StreamingValueView<H> {
    /// The tree itself.
    pub open(crate) spec fn tree(self) -> Result<
        ComponentNode<StreamingBinding<H>>,
        ComponentError,
    > {
        self.view
    }

    pub fn from_view(view: Result<ComponentNode<StreamingBinding<H>>, ComponentError>) -> (result:
        Self)
        ensures
            result.tree() == view,
            result@ == view_model(view),
    {
        Self { view }
    }

    pub fn into_component_node(self) -> (view: Result<
        ComponentNode<StreamingBinding<H>>,
        ComponentError,
    >)
        ensures
            view == self.tree(),
            view_model(view) == self@,
    {
        self.view
    }
}

/// A streaming component whose effects are on a lane, with diagnostics of its own.
pub struct StreamingChannelView<H> {
    pub(crate) view: Result<ComponentNode<StreamingBinding<H>>, ComponentError>,
}

impl<H> View for StreamingChannelView<H> {
    type V = Result<TreeModel<StreamingBindingModel<H>>, ComponentErrorModel>;

    open(crate) spec fn view(&self) -> Result<
        TreeModel<StreamingBindingModel<H>>,
        ComponentErrorModel,
    > {
        view_model(self.view)
    }
}

impl<H> StreamingChannelView<H> {
    /// The tree itself.
    pub open(crate) spec fn tree(self) -> Result<
        ComponentNode<StreamingBinding<H>>,
        ComponentError,
    > {
        self.view
    }

    pub fn from_view(view: Result<ComponentNode<StreamingBinding<H>>, ComponentError>) -> (result:
        Self)
        ensures
            result.tree() == view,
            result@ == view_model(view),
    {
        Self { view }
    }

    pub fn into_component_node(self) -> (view: Result<
        ComponentNode<StreamingBinding<H>>,
        ComponentError,
    >)
        ensures
            view == self.tree(),
            view_model(view) == self@,
    {
        self.view
    }
}

/// A streaming component all of whose values are on lanes.
pub struct StreamingChannelsView<H> {
    pub(crate) view: Result<ComponentNode<StreamingBinding<H>>, ComponentError>,
}

impl<H> View for StreamingChannelsView<H> {
    type V = Result<TreeModel<StreamingBindingModel<H>>, ComponentErrorModel>;

    open(crate) spec fn view(&self) -> Result<
        TreeModel<StreamingBindingModel<H>>,
        ComponentErrorModel,
    > {
        view_model(self.view)
    }
}

impl<H> StreamingChannelsView<H> {
    /// The tree itself.
    pub open(crate) spec fn tree(self) -> Result<
        ComponentNode<StreamingBinding<H>>,
        ComponentError,
    > {
        self.view
    }

    pub fn from_view(view: Result<ComponentNode<StreamingBinding<H>>, ComponentError>) -> (result:
        Self)
        ensures
            result.tree() == view,
            result@ == view_model(view),
    {
        Self { view }
    }

    pub fn into_component_node(self) -> (view: Result<
        ComponentNode<StreamingBinding<H>>,
        ComponentError,
    >)
        ensures
            view == self.tree(),
            view_model(view) == self@,
    {
        self.view
    }
}

impl<H> StreamingChannelsView<H> {
    /// Gives the component a key.
    pub fn key(self, key: &str) -> (result: Self)
        ensures
            result@ == keyed_view(self@, key@),
    {
        Self { view: key_view(self.view, key) }
    }

    /// Carries the component over to the lanes of the surrounding one: first its
    /// emissions, then its diagnostics.
    pub fn map_channels<Local: TurnChannels, Root: TurnChannels, M: ChannelMap<Local, Root>>(
        self,
        map: Arc<M>,
    ) -> (result: StreamingChannelsView<ChannelsMapped<Local, Root, H, M>>)
        ensures
            exists|middle| #[trigger]
                mapped_through(map, self.tree(), middle, result.tree()),
    {
        let effects = ChannelEffect::<Local, Root, M> { map: share(&map), channels: PhantomData };
        let diagnostics = ChannelDiagnostic::<Local, Root, M> { map, channels: PhantomData };
        let middle = map_view_effects(self.view, Arc::new(effects));
        let ghost between = middle;
        let view = map_view_diagnostics(middle, Arc::new(diagnostics));
        let result = StreamingChannelsView { view };
        assert(mapped_through(map, self.tree(), between, result.tree()));
        result
    }
}

/// A handler whose emissions and diagnostics are mapped by one map.
pub type ChannelsMapped<Local, Root, H, M> = MappedDiagnosticHandler<
    <Local as TurnChannels>::Diagnostic,
    MappedEffectHandler<
        crate::component::channels::TurnEmission<Local>,
        H,
        ChannelEffect<Local, Root, M>,
    >,
    ChannelDiagnostic<Local, Root, M>,
>;

/// Whether a view was mapped by one map: its emissions, and then its diagnostics.
pub open spec fn mapped_through<
    Local: TurnChannels,
    Root: TurnChannels,
    H,
    M: ChannelMap<Local, Root>,
>(
    map: Arc<M>,
    from: Result<ComponentNode<StreamingBinding<H>>, ComponentError>,
    middle: Result<
        ComponentNode<
            StreamingBinding<
                MappedEffectHandler<
                    crate::component::channels::TurnEmission<Local>,
                    H,
                    ChannelEffect<Local, Root, M>,
                >,
            >,
        >,
        ComponentError,
    >,
    to: Result<
        ComponentNode<StreamingBinding<ChannelsMapped<Local, Root, H, M>>>,
        ComponentError,
    >,
) -> bool {
    &&& view_effects_mapped(
        Arc::new(ChannelEffect::<Local, Root, M> { map, channels: PhantomData }),
        from,
        middle,
    )
    &&& view_diagnostics_mapped(
        Arc::new(ChannelDiagnostic::<Local, Root, M> { map, channels: PhantomData }),
        middle,
        to,
    )
}

impl<H> StreamingChannelView<H> {
    /// Puts the diagnostics on their lane.
    pub fn map_diagnostic<A, B, F: Fn(A) -> B>(self, map: F) -> (result: StreamingChannelsView<
        MappedDiagnosticHandler<A, H, Lane<A, B, F>>,
    >)
        requires
            forall|value: A| #[trigger] map.requires((value,)),
        ensures
            exists|lane: Arc<Lane<A, B, F>>|
                lane.function() == map && #[trigger] view_diagnostics_mapped(
                    lane,
                    self.tree(),
                    result.tree(),
                ),
    {
        let lane = Arc::new(Lane::new(map));
        let ghost used = lane;
        let result = StreamingChannelsView { view: map_view_diagnostics(self.view, lane) };
        assert(view_diagnostics_mapped(used, self.tree(), result.tree()));
        result
    }

    /// The component, where its diagnostics are on their lane already.
    pub fn into_view(self) -> (result: StreamingChannelsView<H>)
        ensures
            result@ == self@,
            result.tree() == self.tree(),
    {
        StreamingChannelsView { view: self.view }
    }
}

impl<H> StreamingValueView<H> {
    /// Gives the component a key.
    pub fn key(self, key: &str) -> (result: Self)
        ensures
            result@ == keyed_view(self@, key@),
    {
        Self { view: key_view(self.view, key) }
    }

    /// Maps the effects.
    pub fn map_effect<A, B, F: Fn(A) -> B>(self, map: F) -> (result: StreamingValueView<
        MappedEffectHandler<A, H, Lane<A, B, F>>,
    >)
        requires
            forall|value: A| #[trigger] map.requires((value,)),
        ensures
            exists|lane: Arc<Lane<A, B, F>>|
                lane.function() == map && #[trigger] view_effects_mapped(
                    lane,
                    self.tree(),
                    result.tree(),
                ),
    {
        let lane = Arc::new(Lane::new(map));
        let ghost used = lane;
        let result = StreamingValueView { view: map_view_effects(self.view, lane) };
        assert(view_effects_mapped(used, self.tree(), result.tree()));
        result
    }

    /// Puts the effects on the output lane.
    pub fn map_output<A, C: TurnChannels, F: Fn(A) -> C::Output>(self, map: F) -> (result:
        StreamingChannelView<MappedEffectHandler<A, H, OutputEffect<A, C, F>>>)
        requires
            forall|value: A| #[trigger] map.requires((value,)),
        ensures
            exists|lane: Arc<OutputEffect<A, C, F>>|
                lane.function() == map && #[trigger] view_effects_mapped(
                    lane,
                    self.tree(),
                    result.tree(),
                ),
    {
        let lane = Arc::new(OutputEffect::new(map));
        let ghost used = lane;
        let result = StreamingChannelView { view: map_view_effects(self.view, lane) };
        assert(view_effects_mapped(used, self.tree(), result.tree()));
        result
    }

    /// Puts the effects on the live lane.
    pub fn map_live<A, C: TurnChannels, F: Fn(A) -> C::Live>(self, map: F) -> (result:
        StreamingChannelView<MappedEffectHandler<A, H, LiveEffect<A, C, F>>>)
        requires
            forall|value: A| #[trigger] map.requires((value,)),
        ensures
            exists|lane: Arc<LiveEffect<A, C, F>>|
                lane.function() == map && #[trigger] view_effects_mapped(
                    lane,
                    self.tree(),
                    result.tree(),
                ),
    {
        let lane = Arc::new(LiveEffect::new(map));
        let ghost used = lane;
        let result = StreamingChannelView { view: map_view_effects(self.view, lane) };
        assert(view_effects_mapped(used, self.tree(), result.tree()));
        result
    }

    /// Puts the effects on the commit lane.
    pub fn map_commit<A, C: TurnChannels, F: Fn(A) -> C::Commit>(self, map: F) -> (result:
        StreamingChannelView<MappedEffectHandler<A, H, CommitEffect<A, C, F>>>)
        requires
            forall|value: A| #[trigger] map.requires((value,)),
        ensures
            exists|lane: Arc<CommitEffect<A, C, F>>|
                lane.function() == map && #[trigger] view_effects_mapped(
                    lane,
                    self.tree(),
                    result.tree(),
                ),
    {
        let lane = Arc::new(CommitEffect::new(map));
        let ghost used = lane;
        let result = StreamingChannelView { view: map_view_effects(self.view, lane) };
        assert(view_effects_mapped(used, self.tree(), result.tree()));
        result
    }
}

} // verus!
