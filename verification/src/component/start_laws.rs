//! How attempts start, and what is carried through them.

use vstd::prelude::*;
use std::sync::Arc;
use crate::component::attempt::{callback_begun, callback_phase, listens_to, tag_is_mounted};
use crate::component::attempt::{text_event, tool_answer, CallbackPhase, MountedBindingModel};
use crate::component::attempt::{ParserFailure, StreamingModel, TextEventModel};
use crate::component::attempt_start::{all_acknowledged, begun_from, begun_in_vain, instances_of};
use crate::component::attempt_start::{made_by, mounted_from};
use crate::component::attempt_start::{may_acknowledge, start_refused, started_from};
use crate::component::attempt_start::{StartedAttempt, StartedBinding};
use crate::component::binding::{result_mapped, BindingAbortAck, BindingAbortReason};
use crate::component::binding::{BindingFailure, BindingFault, BindingInstance, BindingPhase};
use crate::component::binding::{OriginModel, TurnBindingCx};
use crate::component::channel_map::{update_mapped, ChannelMap};
use crate::component::channels::{IntoStreamUpdate, LaneUpdate, StreamUpdate, TurnChannels};
use crate::component::contract::{declaration_id_error, version_error};
use crate::component::handlers::{MappedDiagnosticHandler, MappedEffectHandler, StreamingBinding};
use crate::component::identity::{AttemptModel, ComponentError, ComponentErrorModel};
use crate::component::live::LiveInterpretation;
use crate::component::maker::{is_mapped, is_projected, Maker, MappedMaker, ProjectedMaker};
use crate::component::mount::MountedFactoryModel;
use crate::component::signal::{RenderModel, RuntimeModel};
use crate::component::streaming::tree_related;
use crate::component::streaming::{view_diagnostics_mapped, view_effects_mapped};
use crate::component::task_supervisor::{MountTaskSupervisorError, SupervisorModel};
use crate::component::tools::{invalid_tag_message, schema_message, ProviderToolResult};
use crate::component::tree::ComponentNode;
use crate::llm_call::TextTurnEvent;

verus! {

/// An attempt begins with its bindings and with nothing else: no output, no effect, no
/// result, and neither complete nor failed.
pub proof fn law_attempts_begin_empty<C: TurnChannels>(
    identity: AttemptModel,
    bindings: Seq<MountedBindingModel>,
)
    ensures
        ({
            let fresh = StreamingModel::<C>::fresh(identity, bindings);
            &&& fresh.identity == identity
            &&& fresh.bindings == bindings
            &&& fresh.update.emissions.len() == 0
            &&& fresh.update.diagnostics.len() == 0
            &&& fresh.commits.len() == 0
            &&& fresh.live.next_sequence == 0
            &&& fresh.live.applied_effects == 0
            &&& fresh.provider_results.len() == 0
            &&& fresh.text.raw_output.len() == 0
            &&& !fresh.text.text_complete
            &&& !fresh.text.terminal
        }),
{
}

/// An attempt that starts has one binding for each factory, in order: the one that the
/// factory made, under the id and on the route of the factory.
pub proof fn law_every_factory_makes_its_binding<
    'a,
    Props: 'a,
    C: TurnChannels,
    I,
    P,
    E,
    H: Maker<TurnBindingCx<'a, Props>, Result<I, BindingFailure<E>>>,
>(
    factories: Seq<MountedFactoryModel<H>>,
    props: Props,
    attempt: AttemptModel,
    begun: StartedAttempt<C, I, P>,
    at: int,
)
    requires
        begun_from::<Props, C, I, P, E, H>(factories, props, attempt, begun),
    ensures
        begun.attempt@.identity == attempt,
        begun.attempt@.bindings.len() == factories.len(),
        begun.instances@.len() == factories.len(),
        0 <= at < factories.len() ==> begun.attempt@.bindings[at].id == factories[at].id,
        0 <= at < factories.len() ==> begun.attempt@.bindings[at].route
            == factories[at].declaration.route,
        0 <= at < factories.len() ==> made_by::<Props, I, E, H>(
            factories[at],
            props,
            attempt,
            Ok::<I, BindingFailure<E>>(begun.instances@[at]),
        ),
{
    let started = choose|started: Seq<StartedBinding<I>>|
        started.len() == factories.len() && #[trigger] started_from::<Props, I, E, H>(
            factories,
            props,
            attempt,
            started,
        ) && begun.attempt@ == StreamingModel::<C>::fresh(
            attempt,
            mounted_from(started),
        ) && begun.instances@ == instances_of(started);
    if 0 <= at < factories.len() {
        assert(started[at].mounted@.id == factories[at].id);
    }
}

/// What a factory made, it made for this attempt, with this state, in its own place and on
/// its own route.
pub proof fn law_factories_make_for_their_attempt<
    'a,
    Props: 'a,
    I,
    E,
    H: Maker<TurnBindingCx<'a, Props>, Result<I, BindingFailure<E>>>,
>(
    factory: MountedFactoryModel<H>,
    props: Props,
    attempt: AttemptModel,
    made: Result<I, BindingFailure<E>>,
)
    requires
        made_by::<Props, I, E, H>(factory, props, attempt, made),
    ensures
        exists|context: TurnBindingCx<'a, Props>|
            context@.props == props && context@.attempt == attempt && context@.binding_id
                == factory.id && context@.route == factory.declaration.route
                && #[trigger] factory.declaration.instantiate.may_make(context, made),
{
}

/// Where a factory fails, its own failure is reported of its own place, and every binding
/// that was made before it is told that the start failed.
pub proof fn law_failed_starts_are_undone<
    'a,
    Props: 'a,
    C: TurnChannels,
    X,
    I: BindingInstance<C, X, E>,
    E,
    H: Maker<TurnBindingCx<'a, Props>, Result<I, BindingFailure<E>>>,
>(
    factories: Seq<MountedFactoryModel<H>>,
    props: Props,
    attempt: AttemptModel,
    fault: BindingFault<E>,
    acknowledgements: Seq<BindingAbortAck>,
    at: int,
)
    requires
        start_refused::<Props, C, X, I, E, H>(factories, props, attempt, fault, acknowledgements),
    ensures
        acknowledgements.len() < factories.len(),
        fault@.phase == BindingPhase::Initialize,
        fault@.origin.attempt == attempt,
        fault@.origin.binding_id == factories[acknowledgements.len() as int].id,
        fault@.origin.route == factories[acknowledgements.len() as int].declaration.route,
        exists|source: BindingFailure<E>|
            source.error() == fault@.error && #[trigger] made_by::<Props, I, E, H>(
                factories[acknowledgements.len() as int],
                props,
                attempt,
                Err::<I, BindingFailure<E>>(source),
            ),
        0 <= at < acknowledgements.len() ==> exists|instance: I| #[trigger]
            made_by::<Props, I, E, H>(
                factories[at],
                props,
                attempt,
                Ok::<I, BindingFailure<E>>(instance),
            ) && may_acknowledge::<C, X, E, I>(
                instance,
                BindingAbortReason::InitializationFailure,
                acknowledgements[at],
            ),
{
    let created = choose|created: Seq<StartedBinding<I>>|
        created.len() == acknowledgements.len() && #[trigger] started_from::<Props, I, E, H>(
            factories,
            props,
            attempt,
            created,
        ) && all_acknowledged::<C, X, E, I>(created, acknowledgements);
    if 0 <= at < acknowledgements.len() {
        assert(made_by::<Props, I, E, H>(
            factories[at],
            props,
            attempt,
            Ok::<I, BindingFailure<E>>(created[at].instance),
        ));
    }
}

/// An attempt that does not start after all tells every binding that the start failed.
pub proof fn law_vain_starts_are_undone<
    'a,
    Props: 'a,
    C: TurnChannels,
    X,
    I: BindingInstance<C, X, E>,
    E,
    H: Maker<TurnBindingCx<'a, Props>, Result<I, BindingFailure<E>>>,
>(
    factories: Seq<MountedFactoryModel<H>>,
    props: Props,
    attempt: AttemptModel,
    acknowledgements: Seq<BindingAbortAck>,
    at: int,
)
    requires
        begun_in_vain::<Props, C, X, I, E, H>(factories, props, attempt, acknowledgements),
    ensures
        acknowledgements.len() == factories.len(),
        0 <= at < factories.len() ==> exists|instance: I| #[trigger]
            made_by::<Props, I, E, H>(
                factories[at],
                props,
                attempt,
                Ok::<I, BindingFailure<E>>(instance),
            ) && may_acknowledge::<C, X, E, I>(
                instance,
                BindingAbortReason::InitializationFailure,
                acknowledgements[at],
            ),
{
    let started = choose|started: Seq<StartedBinding<I>>|
        started.len() == factories.len() && #[trigger] started_from::<Props, I, E, H>(
            factories,
            props,
            attempt,
            started,
        ) && all_acknowledged::<C, X, E, I>(started, acknowledgements);
    if 0 <= at < factories.len() {
        assert(made_by::<Props, I, E, H>(
            factories[at],
            props,
            attempt,
            Ok::<I, BindingFailure<E>>(started[at].instance),
        ));
    }
}

/// What a binding answers to a callback is interpreted whole, from its own place, in the
/// phase of the callback. A failure stays what it is.
pub proof fn law_answers_are_interpreted_whole<C: TurnChannels, E>(
    answer: Result<LaneUpdate<C>, BindingFailure<E>>,
    origin: OriginModel,
    phase: CallbackPhase,
    result: Result<LiveInterpretation<C>, BindingFailure<E>>,
)
    requires
        callback_begun(answer, origin, phase, result),
    ensures
        answer is Ok <==> result is Ok,
        answer is Ok ==> {
            &&& result->Ok_0@.remaining == answer->Ok_0@.emissions
            &&& result->Ok_0@.diagnostics == answer->Ok_0@.diagnostics
            &&& result->Ok_0@.retained.len() == 0
            &&& result->Ok_0@.origin == origin
            &&& result->Ok_0@.phase == callback_phase(phase)
        },
        answer is Err ==> result->Err_0 == answer->Err_0,
        phase == CallbackPhase::Open ==> callback_phase(phase) == BindingPhase::Open,
        phase == CallbackPhase::Stream ==> callback_phase(phase) == BindingPhase::Stream,
        phase == CallbackPhase::Complete ==> callback_phase(phase) == BindingPhase::Complete,
{
}

/// A failure of the parser can be told of a binding exactly where it is none of a tag, or
/// some binding listens to that tag, or a live effect failed.
pub proof fn law_parser_failures_name_a_mounted_tag<E, L>(
    failure: ParserFailure<E, L>,
    bindings: Seq<MountedBindingModel>,
)
    ensures
        failure is Terminal ==> tag_is_mounted(failure, bindings),
        failure is IncompleteRegisteredTag ==> (tag_is_mounted(failure, bindings) <==> exists|
            i: int,
        |
            0 <= i < bindings.len() && #[trigger] listens_to(
                bindings[i],
                failure->IncompleteRegisteredTag_tag@,
            )),
        failure is Callback && failure->source is Live ==> tag_is_mounted(failure, bindings),
{
}

/// The events of a text are its pieces and its whole.
pub proof fn law_text_events_are_their_text(event: TextTurnEvent)
    ensures
        event is TextDelta ==> text_event(event) == TextEventModel::Delta(event->TextDelta_0@),
        event is TextComplete ==> text_event(event) == TextEventModel::Complete(
            event->TextComplete_0@,
        ),
{
}

/// A dispatcher that failed gave no answer.
pub proof fn law_failed_dispatches_give_no_answer<P>(
    outcome: Result<(ProviderToolResult, bool), P>,
)
    ensures
        tool_answer(outcome) is Some <==> outcome is Ok,
        outcome is Ok ==> tool_answer(outcome)->Some_0.0 == outcome->Ok_0.0@,
        outcome is Ok ==> tool_answer(outcome)->Some_0.1 == outcome->Ok_0.1,
{
}

/// A result that is mapped stays a result, and a failure stays what it is.
pub proof fn law_mapping_changes_no_failure<
    Local: TurnChannels,
    Root: TurnChannels,
    M: ChannelMap<Local, Root>,
    E,
>(
    map: &M,
    from: Result<LaneUpdate<Local>, BindingFailure<E>>,
    to: Result<LaneUpdate<Root>, BindingFailure<E>>,
)
    requires
        result_mapped(map, from, to),
    ensures
        from is Ok <==> to is Ok,
        from is Ok ==> update_mapped(map, from->Ok_0@, to->Ok_0@),
        from is Err ==> to->Err_0 == from->Err_0,
{
}

/// An update that is written as a list holds those emissions, and one that is written as a
/// failure holds that diagnostic and nothing else.
pub proof fn law_lists_and_failures_are_updates<E, D>(
    emissions: Vec<E>,
    diagnostic: D,
    update: StreamUpdate<E, D>,
)
    ensures
        IntoStreamUpdate::<E, D>::stream_update(emissions).emissions == emissions@,
        IntoStreamUpdate::<E, D>::stream_update(emissions).diagnostics.len() == 0,
        IntoStreamUpdate::<E, D>::stream_update(Ok::<Vec<E>, D>(emissions)).emissions
            == emissions@,
        IntoStreamUpdate::<E, D>::stream_update(Ok::<Vec<E>, D>(emissions)).diagnostics.len() == 0,
        IntoStreamUpdate::<E, D>::stream_update(Err::<Vec<E>, D>(diagnostic)).emissions.len() == 0,
        IntoStreamUpdate::<E, D>::stream_update(Err::<Vec<E>, D>(diagnostic)).diagnostics == seq![
            diagnostic,
        ],
        IntoStreamUpdate::<E, D>::stream_update(update) == update@,
{
}

/// A mapped maker is the same maker with the map, and a projected one with the projection.
pub proof fn law_wrapped_makers_keep_the_maker<Local, Props, H, M, P>(
    map: Arc<M>,
    project: Arc<P>,
    from: H,
    mapped: MappedMaker<Local, H, M>,
    projected: ProjectedMaker<Props, H, P>,
)
    ensures
        is_mapped(&map, from, mapped) <==> *mapped.inner == from && mapped.map == map,
        is_projected(&project, from, projected) <==> *projected.inner == from && projected.project
            == project,
{
}

/// A view whose effects are mapped keeps its failure, and its bindings keep their tag and
/// their handler behind the map.
pub proof fn law_mapped_effects_keep_their_handler<A, H, M>(
    map: Arc<M>,
    from: Result<ComponentNode<StreamingBinding<H>>, ComponentError>,
    to: Result<ComponentNode<StreamingBinding<MappedEffectHandler<A, H, M>>>, ComponentError>,
)
    requires
        view_effects_mapped(map, from, to),
    ensures
        from is Ok <==> to is Ok,
        from is Err ==> to->Err_0 == from->Err_0,
        from is Ok && from->Ok_0 is Binding ==> {
            let before = from->Ok_0->binding@;
            let after = to->Ok_0->binding@;
            &&& to->Ok_0 is Binding
            &&& to->Ok_0->Binding_key == from->Ok_0->Binding_key
            &&& after.tag == before.tag
            &&& after.handler.inner == before.handler
            &&& after.handler.map == map
        },
{
}

/// A view whose diagnostics are mapped keeps its failure, and its bindings keep their tag
/// and their handler behind the map.
pub proof fn law_mapped_diagnostics_keep_their_handler<A, H, M>(
    map: Arc<M>,
    from: Result<ComponentNode<StreamingBinding<H>>, ComponentError>,
    to: Result<ComponentNode<StreamingBinding<MappedDiagnosticHandler<A, H, M>>>, ComponentError>,
)
    requires
        view_diagnostics_mapped(map, from, to),
    ensures
        from is Ok <==> to is Ok,
        from is Err ==> to->Err_0 == from->Err_0,
        from is Ok && from->Ok_0 is Binding ==> {
            let before = from->Ok_0->binding@;
            let after = to->Ok_0->binding@;
            &&& to->Ok_0 is Binding
            &&& to->Ok_0->Binding_key == from->Ok_0->Binding_key
            &&& after.tag == before.tag
            &&& after.handler.inner == before.handler
            &&& after.handler.map == map
        },
{
}

/// Trees that are related have the same shape: every node its text, its key, its name and
/// its failure, and every child its relative.
pub proof fn law_related_trees_have_one_shape<A, B>(
    relate: spec_fn(A, B) -> bool,
    from: ComponentNode<A>,
    to: ComponentNode<B>,
    at: int,
)
    requires
        tree_related(relate, from, to),
    ensures
        from is Empty <==> to is Empty,
        from is Pom <==> to is Pom,
        from is Binding <==> to is Binding,
        from is Scope <==> to is Scope,
        from is Failed <==> to is Failed,
        from is Pom ==> to->Pom_0 == from->Pom_0,
        from is Failed ==> to->Failed_0 == from->Failed_0,
        from is Binding ==> to->Binding_key == from->Binding_key && relate(
            from->binding,
            to->binding,
        ),
        from is Scope ==> {
            &&& to->Scope_name == from->Scope_name
            &&& to->Scope_key == from->Scope_key
            &&& to->children@.len() == from->children@.len()
            &&& 0 <= at < from->children@.len() ==> tree_related(
                relate,
                from->children@[at],
                to->children@[at],
            )
        },
{
}

/// A runtime renders without any other change, and mounts what is mounted already or what it
/// has a generation for.
pub proof fn law_renders_change_nothing_yet<V>(
    runtime: RuntimeModel<V>,
    render: RenderModel<V>,
    component: Seq<char>,
)
    ensures
        runtime.rendering(render).render == Some(render),
        runtime.rendering(render).components == runtime.components,
        runtime.rendering(render).dirty_components == runtime.dirty_components,
        runtime.rendering(render).dirty == runtime.dirty,
        runtime.rendering(render).active == runtime.active,
        runtime.rendering(render).next_generation == runtime.next_generation,
        runtime.rendering(render).wake_revision == runtime.wake_revision,
        runtime.can_mount(component) <==> runtime.components.contains_key(component)
            || runtime.next_generation < u64::MAX,
{
}

/// Tasks run on the runtime that their supervisor began on, and nowhere else.
pub proof fn law_tasks_stay_on_their_runtime<P>(
    supervisor: SupervisorModel<P>,
    current: Option<u64>,
)
    ensures
        supervisor.runtime_fault(current) is None <==> supervisor.actor is None || supervisor.actor
            == current,
        supervisor.actor is Some && current is None ==> supervisor.runtime_fault(current) == Some(
            MountTaskSupervisorError::RuntimeUnavailable,
        ),
        supervisor.actor is Some && current is Some && supervisor.actor != current
            ==> supervisor.runtime_fault(current) == Some(MountTaskSupervisorError::Closed),
{
}

/// What is wrong with a contract is said in these words.
pub proof fn law_broken_contracts_are_explained(tag: Seq<char>, name: Seq<char>)
    ensures
        version_error() == (ComponentErrorModel::InvalidBindingContract {
            message:
                "a runtime implementation version must be non-empty and contain no control characters"@,
        }),
        declaration_id_error() == (ComponentErrorModel::InvalidBindingContract {
            message:
                "a durable runtime declaration id must be non-empty and contain no control characters"@,
        }),
        invalid_tag_message(tag) == "invalid XML runtime route `"@ + tag
            + "`: invalid XML name: "@ + tag,
        schema_message(name) == "provider tool `"@ + name
            + "` requires an object input schema"@,
{
}

} // verus!
