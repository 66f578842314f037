use std::sync::Arc;

use agentview::component::authoring::{
    binding_factory, durable_binding_factory, durable_binding_factory_with_context,
    durable_binding_factory_with_context_key, durable_binding_factory_with_key,
    durable_provider_contract, durable_provider_tool, durable_provider_tool_with_context_key,
    durable_provider_tools, provider_tool, provider_tool_with_context, provider_tools,
};
use agentview::component::binding::{
    plain_binding, plain_dispatcher, BindingFailure,
    BindingInstance, BindingPhase, DispatcherStartFailure, MappedProviderDispatcher,
    ProviderDispatchContext, ProviderDispatchFailure, ProviderDispatchUpdate, ProviderDispatcherCx,
    TurnBindingCx,
};
use agentview::component::channel_map::{ChannelMap, TurnChannelMap};
use agentview::component::channels::{LaneUpdate, StreamUpdate, TurnChannels, TurnEmission};
use agentview::component::contract::{
    structural_component_key_for_declaration, ProviderCapabilityContract, RuntimeContract,
};
use agentview::component::declaration::RuntimeDeclaration;
use agentview::component::durable::{DurableComponent, DurableSystem};
use agentview::component::identity::{
    BindingKey, ComponentError, ComponentId, ComponentKey, HarnessEpochId, LiveScopeId,
    ProviderAttemptId, ProviderAttemptIdentity, TurnInstanceId,
};
use agentview::component::maker::Maker;
use agentview::component::mount::{
    compile_durable_mount_provided, compile_mount_provided, BindingFactoryPlan, CompiledTurn,
    MountPlan, MountPlanError, ProviderCapabilityPlan,
};
use agentview::component::mountable::{component, Component};
use agentview::component::registry::{
    ProviderDispatcherRegistry, ProviderDispatcherRegistryError, RuntimeBindingRegistry,
};
use agentview::component::tools::{
    ProviderToolCall, ProviderToolResponse, ProviderToolSpec, RuntimeRoute,
};
use agentview::component::tree::{compile_system_component, ComponentNode};
use agentview::json::{JsonObject, JsonValue};
use agentview::pom::{BlockChildren, Document, XmlName, XmlNode};
use agentview::pom_renderer::render_pom_document;
use agentview::pom_resolution::resolve_system_document;

struct LocalChannels;

impl TurnChannels for LocalChannels {
    type Output = u8;
    type Live = u8;
    type Commit = u8;
    type Diagnostic = u8;
}

struct RootChannels;

impl TurnChannels for RootChannels {
    type Output = u16;
    type Live = u16;
    type Commit = u16;
    type Diagnostic = u16;
}

struct MappingBinding;

impl BindingInstance<LocalChannels, (), String> for MappingBinding {
    fn on_finish(&mut self) -> Result<LaneUpdate<LocalChannels>, BindingFailure<String>> {
        Ok(StreamUpdate::new()
            .with_emission(TurnEmission::Output(7))
            .with_emission(TurnEmission::Live(8))
            .with_emission(TurnEmission::Commit(9))
            .with_diagnostic(10))
    }
}

struct MappingDispatcher;

impl MappingDispatcher {
    fn dispatch(
        &mut self,
        _context: &ProviderDispatchContext,
        _call: ProviderToolCall,
    ) -> ProviderDispatchUpdate<LocalChannels> {
        ProviderDispatchUpdate::new(
            ProviderToolResponse::success(JsonValue::Text("mapped".to_owned())),
            StreamUpdate::new()
                .with_emission(TurnEmission::Output(1))
                .with_emission(TurnEmission::Live(2))
                .with_emission(TurnEmission::Commit(3))
                .with_diagnostic(4),
        )
    }

    fn finish(&mut self) -> LaneUpdate<LocalChannels> {
        StreamUpdate::new()
            .with_emission(TurnEmission::Output(5))
            .with_diagnostic(6)
    }
}

fn mapped_channels() -> impl ChannelMap<LocalChannels, RootChannels> {
    TurnChannelMap::new(
        |value: u8| u16::from(value) + 100,
        |value: u8| u16::from(value) + 200,
        |value: u8| u16::from(value) + 300,
        |value: u8| u16::from(value) + 400,
    )
}

fn assert_binding_update(update: StreamUpdate<TurnEmission<RootChannels>, u16>) {
    let (emissions, diagnostics) = update.into_parts();
    assert!(matches!(
        emissions.as_slice(),
        [
            TurnEmission::Output(107),
            TurnEmission::Live(208),
            TurnEmission::Commit(309),
        ]
    ));
    assert_eq!(diagnostics, [410]);
}

fn assert_dispatch_update(update: StreamUpdate<TurnEmission<RootChannels>, u16>) {
    let (emissions, diagnostics) = update.into_parts();
    assert!(matches!(
        emissions.as_slice(),
        [
            TurnEmission::Output(101),
            TurnEmission::Live(202),
            TurnEmission::Commit(303),
        ]
    ));
    assert_eq!(diagnostics, [404]);
}

fn assert_finish_update(update: StreamUpdate<TurnEmission<RootChannels>, u16>) {
    let (emissions, diagnostics) = update.into_parts();
    assert!(matches!(emissions.as_slice(), [TurnEmission::Output(105)]));
    assert_eq!(diagnostics, [406]);
}

fn name(text: &str) -> XmlName {
    XmlName::try_from(text).unwrap()
}

fn tag(text: &str) -> Document {
    Document::from_xml(XmlNode::new(name(text)))
}

fn no_text() -> Document {
    Document::new(BlockChildren::new())
}

fn empty_schema() -> JsonValue {
    JsonValue::Object(
        JsonObject::new()
            .with_member("type", JsonValue::Text("object".to_owned()))
            .with_member("properties", JsonValue::Object(JsonObject::new())),
    )
}

fn tool(tool_name: &str) -> ProviderToolSpec {
    ProviderToolSpec::new(tool_name, "a tool", empty_schema()).unwrap()
}

fn attempt(label: &str) -> ProviderAttemptIdentity {
    ProviderAttemptIdentity::new(
        HarnessEpochId::new(1),
        TurnInstanceId::new(2),
        ProviderAttemptId::new(3),
        LiveScopeId::new(4),
        label,
    )
}

/// Handles stand for what makes a binding or a dispatcher.
type Handle = &'static str;

fn leaf(id: &str, route: &str, handle: Handle) -> DurableComponent<Handle, Handle> {
    durable_binding_factory(
        RuntimeContract::new(id, "v1").unwrap(),
        tag(route),
        RuntimeRoute::xml(route).unwrap(),
        Arc::new(handle),
    )
}

fn created<F, D>(catalog: &mut DurableSystem<F, D>) -> CompiledTurn<RuntimeDeclaration<F, D>> {
    compile_system_component(catalog.take_create_component().into_nodes()).unwrap()
}

#[test]
fn retained_durable_catalog_maps_component_and_rebind_projection_together() {
    let component = leaf("test.local-binding", "local_binding", "local");
    let mut catalog = DurableSystem::new(vec![component])
        .unwrap()
        .map_channels::<LocalChannels, _>(Arc::new(mapped_channels()));

    let plan: MountPlan<_, _> = compile_durable_mount_provided(created(&mut catalog)).unwrap();
    let rebound: RuntimeBindingRegistry<_, _> = catalog.runtime_projection().unwrap();

    assert_eq!(plan.binding_factories().len(), 1);
    assert_eq!(rebound.binding_factories().len(), 1);
    assert_eq!(
        plan.binding_factories().factories()[0].route(),
        rebound.binding_factories().factories()[0].route(),
    );
    assert_eq!(
        plan.binding_factories().factories()[0].declaration_id(),
        rebound.binding_factories().factories()[0].declaration_id(),
    );
    assert_eq!(
        plan.binding_factories().factories()[0].implementation_version(),
        rebound.binding_factories().factories()[0].implementation_version(),
    );
    assert_eq!(
        plan.binding_factories().factories()[0].id(),
        rebound.binding_factories().factories()[0].id(),
    );
    for factories in [plan.binding_factories(), rebound.binding_factories()] {
        assert_eq!(
            *factories.factories()[0].declaration().handle().inner,
            "local"
        );
    }
}

#[test]
fn durable_system_structural_children_preserve_author_order() {
    let first = leaf("test.ordered-first", "first_leaf", "first");
    let second = leaf("test.ordered-second", "second_leaf", "second");
    let mut catalog: DurableSystem<Handle, Handle> = DurableSystem::prompt(tag("root_rules"))
        .append(DurableSystem::prompt(tag("optional_rules")))
        .append(DurableSystem::prompt(tag("vec_first")))
        .append(DurableSystem::prompt(tag("vec_second")))
        .append(DurableSystem::prompt(tag("array_first")))
        .append(DurableSystem::prompt(tag("array_second")))
        .append(
            DurableSystem::from_component(first)
                .append(DurableSystem::prompt(tag("nested_rules")))
                .append(DurableSystem::from_component(second)),
        );

    let projection = catalog.runtime_projection().unwrap();
    let plan = compile_durable_mount_provided(created(&mut catalog)).unwrap();

    assert_eq!(
        render_pom_document(&resolve_system_document(plan.system_document().clone())).unwrap(),
        [
            "<root_rules />\n\n",
            "<optional_rules />\n\n",
            "<vec_first />\n\n",
            "<vec_second />\n\n",
            "<array_first />\n\n",
            "<array_second />\n\n",
            "<first_leaf />\n\n",
            "<nested_rules />\n\n",
            "<second_leaf />",
        ]
        .concat(),
    );
    assert_eq!(
        projection
            .binding_factories()
            .factories()
            .iter()
            .map(|factory| factory.declaration_id())
            .collect::<Vec<_>>(),
        [Some("test.ordered-first"), Some("test.ordered-second")],
    );
    assert_eq!(
        plan.binding_factories()
            .factories()
            .iter()
            .map(|factory| factory.id())
            .collect::<Vec<_>>(),
        projection
            .binding_factories()
            .factories()
            .iter()
            .map(|factory| factory.id())
            .collect::<Vec<_>>(),
    );
}

#[test]
fn retained_feature_scope_and_pom_component_scopes_match_after_reopen() {
    let durable_leaf = leaf("test.scoped-runtime", "scoped_runtime", "scoped");
    let preamble = DurableSystem::prompt(tag("preamble")).with_component_scope("test::preamble");
    let mut feature_system = DurableSystem::new(vec![durable_leaf])
        .unwrap()
        .with_component_scope("test::scoped-feature");
    feature_system
        .set_outer_component_key(ComponentKey::new("stable-feature").unwrap())
        .unwrap();
    let mut catalog: DurableSystem<Handle, Handle> = preamble.append(feature_system);

    let created_plan = compile_durable_mount_provided(created(&mut catalog)).unwrap();
    let reopened = catalog.runtime_projection().unwrap();
    let created_id = created_plan.binding_factories().factories()[0].id();
    let reopened_id = reopened.binding_factories().factories()[0].id();

    assert_eq!(created_id, reopened_id);
    assert!(created_id
        .component()
        .as_str()
        .contains("test::scoped-feature[stable-feature]"));
}

type LocalBindingMaker = fn(TurnBindingCx<'_, ()>) -> Result<MappingBinding, BindingFailure<String>>;
type LocalDispatcherMaker = fn(
    ProviderDispatcherCx<'_, ()>,
) -> Result<MappingDispatcher, ProviderDispatchFailure<String>>;

fn make_binding(context: TurnBindingCx<'_, ()>) -> Result<MappingBinding, BindingFailure<String>> {
    assert_eq!(context.call_label(), "mapped-runtime");
    assert_eq!(context.route().name(), "mapped_binding");
    Ok(MappingBinding)
}

fn make_dispatcher(
    context: ProviderDispatcherCx<'_, ()>,
) -> Result<MappingDispatcher, ProviderDispatchFailure<String>> {
    assert_eq!(context.specs().len(), 1);
    assert_eq!(context.specs()[0].name(), "mapped_tool");
    Ok(MappingDispatcher)
}

type MappedTools<M> = MappedProviderDispatcher<LocalChannels, MappingDispatcher, M>;

fn assert_mapped_runtime<F, D, I, M>(
    factories: &BindingFactoryPlan<F>,
    capabilities: &ProviderCapabilityPlan<D>,
    attempt: &ProviderAttemptIdentity,
) where
    F: for<'a> Maker<TurnBindingCx<'a, ()>, Result<I, BindingFailure<String>>>,
    I: BindingInstance<RootChannels, (), String>,
    D: for<'a> Maker<
        ProviderDispatcherCx<'a, ()>,
        Result<MappedTools<M>, ProviderDispatchFailure<String>>,
    >,
    M: ChannelMap<LocalChannels, RootChannels>,
{
    let props = ();
    let mut binding = factories.factories()[0]
        .instantiate(&props, attempt)
        .ok()
        .unwrap();
    assert_binding_update(binding.on_finish().ok().unwrap());

    let capability = &capabilities.capabilities()[0];
    let mut dispatcher = capability
        .instantiate_dispatcher(&props, attempt)
        .ok()
        .unwrap();
    let context = ProviderDispatchContext::new(attempt, capability.id(), "mapped-call", 0);
    let dispatch = dispatcher.inner.dispatch(
        &context,
        ProviderToolCall::new(
            "mapped-call",
            "mapped_tool",
            JsonValue::Object(JsonObject::new()),
        ),
    );
    let dispatch: Result<ProviderDispatchUpdate<RootChannels>, ProviderDispatchFailure<String>> =
        dispatcher.dispatched(Ok(dispatch));
    assert_dispatch_update(dispatch.ok().unwrap().into_parts().1);
    let finish = dispatcher.inner.finish();
    let finish: Result<LaneUpdate<RootChannels>, ProviderDispatchFailure<String>> =
        dispatcher.finished(Ok(finish));
    assert_finish_update(finish.ok().unwrap());
}

#[test]
fn retained_durable_catalog_maps_runtime_behavior_for_create_and_reopen() {
    let binding: DurableComponent<LocalBindingMaker, LocalDispatcherMaker> =
        durable_binding_factory(
            RuntimeContract::new("test.mapped-binding", "v1").unwrap(),
            tag("mapped_binding"),
            RuntimeRoute::xml("mapped_binding").unwrap(),
            Arc::new(make_binding),
        );
    let provider = durable_provider_tool(
        RuntimeContract::new("test.mapped-provider", "v1").unwrap(),
        no_text(),
        ProviderToolSpec::new("mapped_tool", "Emit all mapped channels", empty_schema()).unwrap(),
        Arc::new(make_dispatcher as LocalDispatcherMaker),
    );
    let mut catalog = DurableSystem::new(vec![binding, provider])
        .unwrap()
        .map_channels::<LocalChannels, _>(Arc::new(mapped_channels()));

    let created_plan = compile_durable_mount_provided(created(&mut catalog)).unwrap();
    let reopened = catalog.runtime_projection().unwrap();
    let attempt = attempt("mapped-runtime");

    assert_mapped_runtime(
        created_plan.binding_factories(),
        created_plan.provider_capabilities(),
        &attempt,
    );
    assert_mapped_runtime(
        reopened.binding_factories(),
        reopened.provider_capabilities(),
        &attempt,
    );
}

#[test]
fn mapped_dispatchers_pass_failures_on() {
    let dispatcher: MappedTools<_> =
        MappedProviderDispatcher::new(MappingDispatcher, mapped_channels());
    let dispatch: Result<ProviderDispatchUpdate<RootChannels>, ProviderDispatchFailure<String>> =
        dispatcher.dispatched(Err(ProviderDispatchFailure::new("lost".to_owned())));
    assert_eq!(dispatch.err().unwrap().source_error(), "lost");
    let finish: Result<LaneUpdate<RootChannels>, ProviderDispatchFailure<String>> =
        dispatcher.finished(Err(ProviderDispatchFailure::new("late".to_owned())));
    assert_eq!(finish.err().unwrap().source_error(), "late");
}

struct Page {
    title: String,
}

fn title_of(page: &Page) -> &String {
    &page.title
}

type TitleBindingMaker = fn(TurnBindingCx<'_, String>) -> Result<String, BindingFailure<String>>;
type TitleDispatcherMaker =
    fn(ProviderDispatcherCx<'_, String>) -> Result<String, ProviderDispatchFailure<String>>;

fn title_binding(context: TurnBindingCx<'_, String>) -> Result<String, BindingFailure<String>> {
    if context.props().is_empty() {
        return Err(BindingFailure::new("no title".to_owned()));
    }
    Ok(format!(
        "{} {} {}",
        context.props(),
        context.call_label(),
        context.route().name()
    ))
}

fn title_dispatcher(
    context: ProviderDispatcherCx<'_, String>,
) -> Result<String, ProviderDispatchFailure<String>> {
    Ok(format!(
        "{} {} {}",
        context.props(),
        context.identity().call_label(),
        context.specs()[0].name()
    ))
}

#[test]
fn projected_makers_see_a_part_of_the_props() {
    let binding: DurableComponent<TitleBindingMaker, TitleDispatcherMaker> =
        durable_binding_factory(
            RuntimeContract::new("test.title", "v1").unwrap(),
            tag("title"),
            RuntimeRoute::xml("title").unwrap(),
            Arc::new(title_binding),
        );
    let provider = durable_provider_tool(
        RuntimeContract::new("test.titles", "v1").unwrap(),
        no_text(),
        tool("find_title"),
        Arc::new(title_dispatcher as TitleDispatcherMaker),
    );
    let catalog = DurableSystem::new(vec![binding, provider])
        .unwrap()
        .project_props::<String, _>(Arc::new(title_of));
    let rebound = catalog.runtime_projection().unwrap();
    let page = Page {
        title: "Maps".to_owned(),
    };
    let attempt = attempt("titled");
    let factory = &rebound.binding_factories().factories()[0];
    assert_eq!(
        factory.instantiate(&page, &attempt).ok().unwrap(),
        "Maps titled title"
    );
    let untitled = Page {
        title: String::new(),
    };
    let fault = factory.instantiate(&untitled, &attempt).err().unwrap();
    assert_eq!(fault.phase(), BindingPhase::Initialize);
    let capability = &rebound.provider_capabilities().capabilities()[0];
    assert_eq!(
        capability
            .instantiate_dispatcher(&page, &attempt)
            .ok()
            .unwrap(),
        "Maps titled find_title"
    );
}

#[test]
fn structural_keys_are_hex_digits_of_the_id() {
    assert_eq!(
        structural_component_key_for_declaration("a.b"),
        "contract-612e62"
    );
    let mut catalog: DurableSystem<Handle, Handle> =
        DurableSystem::from_component(leaf("a.b", "x", "h"));
    let plan = compile_durable_mount_provided(created(&mut catalog)).unwrap();
    assert!(plan.binding_factories().factories()[0]
        .id()
        .component()
        .as_str()
        .contains("[contract-612e62]"));
}

#[test]
fn creation_text_is_handed_out_once() {
    let mut catalog: DurableSystem<Handle, Handle> =
        DurableSystem::from_component(leaf("once", "once", "h"));
    let first = created(&mut catalog);
    assert_eq!(first.system.children().len(), 1);
    let error = compile_system_component(catalog.take_create_component().into_nodes())
        .err()
        .unwrap();
    assert!(matches!(
        error,
        ComponentError::InvalidBindingContract { message }
            if message == "a durable component POM projection can only be mounted once per process"
    ));
    let reopened = compile_system_component(catalog.runtime_component().into_nodes()).unwrap();
    assert_eq!(reopened.system.children().len(), 0);
    assert_eq!(reopened.bindings.len(), 1);
}

#[test]
fn one_declaration_id_is_mounted_once() {
    let mut catalog: DurableSystem<Handle, Handle> =
        DurableSystem::from_component(leaf("same", "one", "h")).append(
            DurableSystem::from_component(durable_binding_factory_with_key(
                "other-place",
                RuntimeContract::new("same", "v1").unwrap(),
                tag("two"),
                RuntimeRoute::xml("two").unwrap(),
                Arc::new("h"),
            )),
        );
    let error = compile_durable_mount_provided(created(&mut catalog))
        .err()
        .unwrap();
    assert!(matches!(
        error,
        MountPlanError::DuplicateRuntimeDeclaration { declaration_id, .. } if declaration_id == "same"
    ));
}

#[test]
fn one_route_is_mounted_once() {
    let mut catalog: DurableSystem<Handle, Handle> =
        DurableSystem::from_component(leaf("first", "same", "h"))
            .append(DurableSystem::from_component(leaf("second", "same", "h")));
    let error = compile_durable_mount_provided(created(&mut catalog))
        .err()
        .unwrap();
    assert!(matches!(
        error,
        MountPlanError::DuplicateBindingRoute { route, .. } if route.name() == "same"
    ));
}

#[test]
fn one_tool_is_mounted_once() {
    let mut nodes: Vec<ComponentNode<RuntimeDeclaration<Handle, Handle>>> =
        provider_tool("first", tool("search"), Arc::new("h")).into_nodes();
    nodes.extend(
        provider_tools("second", vec![tool("other"), tool("search")], Arc::new("h")).into_nodes(),
    );
    let turn = compile_system_component(nodes).unwrap();
    let error = compile_mount_provided(turn).err().unwrap();
    assert!(matches!(
        error,
        MountPlanError::DuplicateProviderTool { name, first, second }
            if name == "search" && first.key().as_str() == "first" && second.key().as_str() == "second"
    ));
}

#[test]
fn durable_mounts_need_durable_declarations() {
    let nodes: Vec<ComponentNode<RuntimeDeclaration<Handle, Handle>>> = binding_factory(
        "plain",
        tag("plain"),
        RuntimeRoute::xml("plain").unwrap(),
        Arc::new("h"),
    )
    .into_nodes();
    let turn = compile_system_component(nodes).unwrap();
    let error = compile_durable_mount_provided(turn).err().unwrap();
    assert!(matches!(
        error,
        MountPlanError::NonDurableRuntimeDeclaration { id } if id.key().as_str() == "plain"
    ));
}

#[test]
fn declarations_belong_to_the_system_prompt() {
    let nodes: Vec<ComponentNode<RuntimeDeclaration<Handle, Handle>>> =
        provider_tool("tool", tool("search"), Arc::new("h")).into_nodes();
    let mut turn = compile_system_component(nodes).unwrap();
    turn.bindings[0].role = None;
    let error = compile_mount_provided(turn).err().unwrap();
    assert!(matches!(
        error,
        MountPlanError::RuntimeDeclarationOutsideSystem { role: None, .. }
    ));
}

#[test]
fn mountable_components_are_mapped_in_place() {
    let part: Component<Handle, Handle> = binding_factory(
        "part",
        tag("part"),
        RuntimeRoute::xml("part").unwrap(),
        Arc::new("maker"),
    );
    let scope = ComponentNode::Scope {
        name: "test::page".to_owned(),
        key: None,
        children: part.into_nodes(),
    };
    let page = component(vec![scope]).key("front");
    let mapped = page
        .map_channels::<LocalChannels, _>(Arc::new(mapped_channels()))
        .project_props::<String, _>(Arc::new(title_of))
        .into_component();
    assert_eq!(mapped.nodes().len(), 1);
    let turn = compile_system_component(mapped.into_nodes()).unwrap();
    assert_eq!(
        render_pom_document(&resolve_system_document(turn.system.clone())).unwrap(),
        "<part />"
    );
    let plan = compile_mount_provided(turn).unwrap();
    let factory = &plan.binding_factories().factories()[0];
    assert_eq!(factory.id().component().as_str(), "/test::page[front]");
    assert_eq!(factory.id().key().as_str(), "part");
    assert_eq!(*factory.declaration().handle().inner.inner, "maker");
}

#[test]
fn handles_are_replaced_in_place() {
    let shout = |handle: Arc<Handle>| Arc::new(handle.to_uppercase());
    let component: Component<Handle, Handle> = provider_tool("tool", tool("t"), Arc::new("h"));
    let turn = compile_system_component(component.map_handles(&shout, &shout).into_nodes());
    let plan = compile_mount_provided(turn.unwrap()).unwrap();
    let capability = &plan.provider_capabilities().capabilities()[0];
    assert_eq!(capability.declaration().handle().unwrap(), "H");
    let system = DurableSystem::from_component(leaf("a", "x", "h").map_handles(&shout, &shout));
    let rebound = system.runtime_projection().unwrap();
    let factory = &rebound.binding_factories().factories()[0];
    assert_eq!(factory.declaration().handle(), "H");
}

fn key_failure(keyed: Component<Handle, Handle>) -> ComponentError {
    compile_system_component(keyed.into_nodes()).err().unwrap()
}

#[test]
fn only_single_scopes_take_a_key() {
    let scope = |key: Option<ComponentKey>| -> Component<Handle, Handle> {
        component(vec![ComponentNode::Scope {
            name: "test::scope".to_owned(),
            key,
            children: Vec::new(),
        }])
    };
    assert!(compile_system_component(scope(None).key("one").into_nodes()).is_ok());
    assert!(matches!(
        key_failure(scope(None).key("one").key("two")),
        ComponentError::ComponentAlreadyKeyed
    ));
    assert!(matches!(
        key_failure(scope(Some(ComponentKey::new("given").unwrap())).key("one")),
        ComponentError::ComponentAlreadyKeyed
    ));
    assert!(matches!(
        key_failure(component(vec![ComponentNode::Pom(tag("text"))]).key("one")),
        ComponentError::KeyRequiresComponent
    ));
    assert!(matches!(
        key_failure(component(Vec::new()).key("one")),
        ComponentError::KeyRequiresComponent
    ));
    assert!(matches!(
        key_failure(scope(None).key("")),
        ComponentError::InvalidKey { value } if value.is_empty()
    ));
    let broken: Component<Handle, Handle> = provider_tools("tools", Vec::new(), Arc::new("h"));
    assert!(matches!(
        key_failure(broken.key("one")),
        ComponentError::InvalidBindingContract { message }
            if message == "a provider tool group requires at least one tool spec"
    ));
}

#[test]
fn plain_makers_ignore_their_context() {
    let attempt = attempt("plain");
    let route = RuntimeRoute::xml("plain").unwrap();
    let mut catalog: DurableSystem<Handle, Handle> =
        DurableSystem::from_component(leaf("plain.id", "plain", "h"));
    let plan = compile_durable_mount_provided(created(&mut catalog)).unwrap();
    let id = plan.binding_factories().factories()[0].id();
    let binding: Result<u8, BindingFailure<String>> =
        plain_binding(&|| 7, TurnBindingCx::new(&(), &attempt, id, &route));
    assert_eq!(binding.ok(), Some(7));
    let specs = vec![tool("search")];
    let dispatcher: Result<u8, ProviderDispatchFailure<String>> = plain_dispatcher(
        &|| 8,
        ProviderDispatcherCx::new(&(), &attempt, id, &specs),
    );
    assert_eq!(dispatcher.ok(), Some(8));
}

#[test]
fn both_ways_of_authoring_declare_the_same() {
    let route = || RuntimeRoute::xml("twin").unwrap();
    let contract = || RuntimeContract::new("twin", "v1").unwrap();
    let ids = |component: DurableComponent<Handle, Handle>| -> String {
        let mut catalog = DurableSystem::from_component(component);
        let plan = compile_durable_mount_provided(created(&mut catalog)).unwrap();
        let mut text = String::new();
        for factory in plan.binding_factories().factories() {
            text += factory.id().component().as_str();
            text += factory.declaration().handle();
        }
        for capability in plan.provider_capabilities().capabilities() {
            text += capability.id().component().as_str();
            text += capability.declaration().handle().unwrap();
        }
        text
    };
    assert_eq!(
        ids(durable_binding_factory(contract(), tag("twin"), route(), Arc::new("h"))),
        ids(durable_binding_factory_with_context(contract(), tag("twin"), route(), Arc::new("h"))),
    );
    assert_eq!(
        ids(durable_binding_factory_with_key("k", contract(), tag("twin"), route(), Arc::new("h"))),
        ids(durable_binding_factory_with_context_key(
            "k",
            contract(),
            tag("twin"),
            route(),
            Arc::new("h"),
        )),
    );
    assert_eq!(
        ids(durable_provider_tool(contract(), no_text(), tool("t"), Arc::new("h"))),
        "/agentview::component::DurableProviderTools[contract-7477696e]h",
    );
    assert_eq!(
        ids(durable_provider_tool_with_context_key(
            "k",
            contract(),
            no_text(),
            tool("t"),
            Arc::new("h"),
        )),
        "/agentview::component::DurableProviderTools[k]h",
    );
    let tools: Component<Handle, Handle> =
        provider_tool_with_context("tools", tool("t"), Arc::new("h"));
    let turn = compile_system_component(tools.into_nodes()).unwrap();
    assert_eq!(turn.bindings[0].id.key().as_str(), "tools");
}

#[test]
fn components_are_keyed_once() {
    let mut system: DurableSystem<Handle, Handle> =
        DurableSystem::prompt(tag("x")).with_component_scope("feature");
    let key = ComponentKey::new("one").unwrap();
    system.set_outer_component_key(key.clone()).unwrap();
    assert!(matches!(
        system.set_outer_component_key(key.clone()),
        Err(ComponentError::ComponentAlreadyKeyed)
    ));
    let mut plain: DurableSystem<Handle, Handle> =
        DurableSystem::prompt(tag("x")).append(DurableSystem::prompt(tag("y")));
    assert!(matches!(
        plain.set_outer_component_key(key),
        Err(ComponentError::KeyRequiresComponent)
    ));
}

#[test]
fn ids_are_paths() {
    let child = ComponentId::root().child("panel", 3);
    let keyed = child.keyed_child("row", &ComponentKey::new("k").unwrap());
    assert_eq!(child.as_str(), "/panel#3");
    assert_eq!(keyed.as_str(), "/panel#3/row[k]");
    assert!(BindingKey::new("").is_err());
    assert!(ComponentKey::new("a\nb").is_err());
}

#[test]
fn failures_come_out_where_the_tree_is_compiled() {
    let component: DurableComponent<Handle, Handle> = leaf("id", "x", "h").key("");
    assert!(matches!(
        DurableSystem::new(vec![component]),
        Err(ComponentError::InvalidKey { value }) if value.is_empty()
    ));
}

fn contract(version: &str, tools: Vec<ProviderToolSpec>) -> ProviderCapabilityContract {
    ProviderCapabilityContract::new("search.v1", version, tools).unwrap()
}

fn contract_plan() -> ProviderCapabilityPlan<Handle> {
    let mut catalog: DurableSystem<Handle, Handle> = DurableSystem::from_component(
        durable_provider_contract(contract("c1", vec![tool("search")]), tag("search")),
    );
    let plan = compile_durable_mount_provided(created(&mut catalog)).unwrap();
    plan.provider_capabilities().clone()
}

#[test]
fn registered_dispatchers_are_bound_by_contract() {
    let registry = ProviderDispatcherRegistry::new()
        .with_dispatcher(contract("c1", vec![tool("search")]), "host-7", Arc::new("made"))
        .ok()
        .unwrap();
    let plan = contract_plan();
    assert!(!plan.capabilities()[0].declaration().is_dispatcher_bound());
    let bound = plan.bind_dispatchers(&registry).ok().unwrap();
    let declaration = bound.capabilities()[0].declaration();
    assert!(declaration.is_dispatcher_bound());
    assert_eq!(declaration.handle(), Some(&"made"));
    assert_eq!(declaration.host_implementation_version(), Some("host-7"));
    assert_eq!(declaration.contract_version(), Some("c1"));
}

#[test]
fn registries_refuse_what_does_not_fit() {
    let empty: ProviderDispatcherRegistry<Handle> = ProviderDispatcherRegistry::new();
    assert!(matches!(
        contract_plan().bind_dispatchers(&empty).err().unwrap(),
        ProviderDispatcherRegistryError::MissingBinding { declaration_id } if declaration_id == "search.v1"
    ));

    let other_version = ProviderDispatcherRegistry::new()
        .with_dispatcher(contract("c2", vec![tool("search")]), "h", Arc::new("made"))
        .ok()
        .unwrap();
    assert!(matches!(
        contract_plan().bind_dispatchers(&other_version).err().unwrap(),
        ProviderDispatcherRegistryError::ContractVersionMismatch { component_version, host_version, .. }
            if component_version == "c1" && host_version == "c2"
    ));

    let other_tools = ProviderDispatcherRegistry::new()
        .with_dispatcher(contract("c1", vec![tool("find")]), "h", Arc::new("made"))
        .ok()
        .unwrap();
    assert!(matches!(
        contract_plan().bind_dispatchers(&other_tools).err().unwrap(),
        ProviderDispatcherRegistryError::ToolSchemaMismatch { .. }
    ));

    let mut registry = ProviderDispatcherRegistry::new()
        .with_dispatcher(contract("c1", vec![tool("search")]), "h", Arc::new("made"))
        .ok()
        .unwrap();
    assert!(matches!(
        registry
            .register(contract("c9", vec![tool("search")]), "h", Arc::new("again"))
            .err()
            .unwrap(),
        ProviderDispatcherRegistryError::DuplicateBinding { .. }
    ));
    assert!(matches!(
        registry
            .register(
                ProviderCapabilityContract::new("other", "c1", vec![tool("t")]).unwrap(),
                "",
                Arc::new("again")
            )
            .err()
            .unwrap(),
        ProviderDispatcherRegistryError::InvalidHostImplementationVersion { .. }
    ));
}

#[test]
fn embedded_dispatchers_conflict_with_registered_ones() {
    let mut catalog: DurableSystem<Handle, Handle> =
        DurableSystem::from_component(durable_provider_tools(
            RuntimeContract::new("search.v1", "c1").unwrap(),
            no_text(),
            vec![tool("search")],
            Arc::new("embedded"),
        ));
    let plan = compile_durable_mount_provided(created(&mut catalog)).unwrap();
    let registry = ProviderDispatcherRegistry::new()
        .with_dispatcher(contract("c1", vec![tool("search")]), "h", Arc::new("made"))
        .ok()
        .unwrap();
    assert!(matches!(
        plan.provider_capabilities()
            .clone()
            .bind_dispatchers(&registry)
            .err()
            .unwrap(),
        ProviderDispatcherRegistryError::ConflictingEmbeddedBinding { .. }
    ));
}

type NoMaker = fn(ProviderDispatcherCx<'_, ()>) -> Result<(), ProviderDispatchFailure<String>>;

#[test]
fn an_unbound_capability_makes_no_dispatcher() {
    let component: DurableComponent<NoMaker, NoMaker> =
        durable_provider_contract(contract("c1", vec![tool("search")]), no_text());
    let mut catalog = DurableSystem::from_component(component);
    let plan = compile_durable_mount_provided(created(&mut catalog)).unwrap();
    let attempt = attempt("label");
    let failure = plan.provider_capabilities().capabilities()[0]
        .instantiate_dispatcher(&(), &attempt)
        .err()
        .unwrap();
    assert!(matches!(
        failure,
        DispatcherStartFailure::Unbound(ProviderDispatcherRegistryError::MissingBinding { .. })
    ));
}

type FailingMaker = fn(TurnBindingCx<'_, ()>) -> Result<(), BindingFailure<String>>;

fn fail_to_make(_context: TurnBindingCx<'_, ()>) -> Result<(), BindingFailure<String>> {
    Err(BindingFailure::new("no".to_owned()))
}

#[test]
fn a_failing_maker_is_an_initialization_fault() {
    let component: DurableComponent<FailingMaker, Handle> = durable_binding_factory(
        RuntimeContract::new("failing", "v1").unwrap(),
        no_text(),
        RuntimeRoute::xml("failing").unwrap(),
        Arc::new(fail_to_make),
    );
    let mut catalog = DurableSystem::from_component(component);
    let plan = compile_durable_mount_provided(created(&mut catalog)).unwrap();
    let attempt = attempt("label");
    let fault = plan.binding_factories().factories()[0]
        .instantiate(&(), &attempt)
        .err()
        .unwrap();
    assert_eq!(fault.phase(), BindingPhase::Initialize);
    assert_eq!(fault.phase().as_str(), "initialize");
    assert_eq!(fault.source_failure().source_error(), "no");
    assert_eq!(fault.origin().route().label(), "xml:failing");
    assert_eq!(fault.origin().attempt(), &attempt);
}

#[test]
fn tool_contracts_name_each_tool_once() {
    assert!(matches!(
        ProviderCapabilityContract::new("id", "v", vec![tool("a"), tool("a")]),
        Err(ComponentError::InvalidBindingContract { .. })
    ));
    assert!(ProviderCapabilityContract::new("id", "v", Vec::new()).is_err());
    assert!(RuntimeContract::new("", "v").is_err());
    assert!(RuntimeContract::new("id", "v\n1").is_err());
    assert!(ProviderToolSpec::new("", "d", empty_schema()).is_err());
    assert!(ProviderToolSpec::new("a", "d", JsonValue::Null).is_err());
}

#[test]
fn builders_give_the_same_map() {
    let map = TurnChannelMap::<LocalChannels, RootChannels>::builder()
        .live(|value: u8| u16::from(value) + 2)
        .output(|value: u8| u16::from(value) + 1)
        .diagnostic(|value: u8| u16::from(value) + 4)
        .commit(|value: u8| u16::from(value) + 3)
        .build();
    assert_eq!(
        [map.output(0), map.live(0), map.commit(0), map.diagnostic(0)],
        [1, 2, 3, 4]
    );
}
