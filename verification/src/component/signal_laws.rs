//! What holds of signals over any course of events.

use vstd::prelude::*;
use crate::component::signal::{filled, is_sound, slot_changed, Caller, MountedSignalComponent};
use crate::component::signal::{RenderModel, RenderScopeModel, RuntimeModel, SignalModel};

verus! {

/// Whether a runtime has a mount of a component, be it mounted or being mounted.
pub open spec fn knows_mount<V>(
    runtime: RuntimeModel<V>,
    component: Seq<char>,
    generation: u64,
) -> bool {
    ||| runtime.components.contains_key(component) && runtime.components[component].generation
        == generation
    ||| match runtime.render {
        None => false,
        Some(render) => {
            ||| render.fresh.contains_key(component) && render.fresh[component].generation
                == generation
            ||| match render.scope {
                None => false,
                Some(scope) => scope.fresh is Some && scope.component == component
                    && scope.generation == generation,
            }
        },
    }
}

/// One thing that happens to a runtime.
pub enum SignalStep<V> {
    /// A signal is written: the component keeps its mount.
    Written(Seq<char>, MountedSignalComponent<V>),
    /// A render is asked for.
    Woken,
    /// The runtime ends.
    Deactivated,
    /// A render begins.
    RenderBegun,
    /// The render reaches a component that is mounted.
    ComponentRetained(Seq<char>),
    /// The render reaches a component that is not mounted.
    ComponentCreated(Seq<char>, MountedSignalComponent<V>),
    /// The component under way asks for a signal.
    SignalAsked(RenderScopeModel<V>),
    /// The component under way has ended well.
    ComponentEnded,
    /// The component under way has a fault.
    ComponentFailed,
    /// The render is put into effect.
    Committed,
    /// The render is dropped.
    Abandoned,
    /// Every mount is dropped.
    Invalidated,
    /// The mount of a component is dropped.
    Unmounted(Seq<char>),
}

/// Whether a step can be taken.
pub open spec fn can_happen<V>(runtime: RuntimeModel<V>, step: SignalStep<V>) -> bool {
    let render = runtime.render->Some_0;
    let scope = render.scope->Some_0;
    match step {
        SignalStep::Written(component, mounted) => runtime.components.contains_key(component)
            && mounted.generation == runtime.components[component].generation,
        SignalStep::Woken => true,
        SignalStep::Deactivated => true,
        SignalStep::RenderBegun => runtime.render is None,
        SignalStep::ComponentRetained(component) => runtime.render is Some && render.scope is None
            && runtime.components.contains_key(component),
        SignalStep::ComponentCreated(component, mounted) => {
            &&& runtime.render is Some
            &&& render.scope is None
            &&& !runtime.components.contains_key(component)
            &&& !render.fresh.contains_key(component)
            &&& mounted.generation == runtime.next_generation
            &&& runtime.next_generation < u64::MAX
        },
        SignalStep::SignalAsked(advanced) => {
            &&& runtime.render is Some
            &&& render.scope is Some
            &&& advanced.component == scope.component
            &&& advanced.generation == scope.generation
            &&& (advanced.fresh is Some) == (scope.fresh is Some)
            &&& advanced.fresh is Some ==> advanced.fresh->Some_0.generation == scope.generation
        },
        SignalStep::ComponentEnded => runtime.render is Some && render.scope is Some,
        SignalStep::ComponentFailed => runtime.render is Some && render.scope is Some,
        SignalStep::Committed => runtime.render is Some && render.scope is None,
        SignalStep::Abandoned => true,
        SignalStep::Invalidated => runtime.render is None,
        SignalStep::Unmounted(_) => runtime.render is None,
    }
}

/// The runtime after a step.
pub open spec fn after_step<V>(runtime: RuntimeModel<V>, step: SignalStep<V>) -> RuntimeModel<V> {
    let render = runtime.render->Some_0;
    let scope = render.scope->Some_0;
    match step {
        SignalStep::Written(component, mounted) => RuntimeModel {
            components: runtime.components.insert(component, mounted),
            dirty_components: runtime.dirty_components.insert(component),
            ..runtime
        }.woken(),
        SignalStep::Woken => runtime.woken(),
        SignalStep::Deactivated => RuntimeModel { active: false, ..runtime },
        SignalStep::RenderBegun => runtime.rendering(
            RenderModel { retained: Set::empty(), fresh: Map::empty(), scope: None },
        ),
        SignalStep::ComponentRetained(component) => runtime.rendering(
            RenderModel {
                scope: Some(
                    RenderScopeModel {
                        component,
                        generation: runtime.components[component].generation,
                        fresh: None,
                        cursor: 0,
                        fault: None,
                    },
                ),
                ..render
            },
        ),
        SignalStep::ComponentCreated(component, mounted) => RuntimeModel {
            next_generation: (runtime.next_generation + 1) as u64,
            ..runtime.rendering(
                RenderModel {
                    scope: Some(
                        RenderScopeModel {
                            component,
                            generation: runtime.next_generation,
                            fresh: Some(mounted),
                            cursor: 0,
                            fault: None,
                        },
                    ),
                    ..render
                },
            )
        },
        SignalStep::SignalAsked(advanced) => runtime.rendering(
            RenderModel { scope: Some(advanced), ..render },
        ),
        SignalStep::ComponentEnded => runtime.rendering(
            match scope.fresh {
                Some(mounted) => RenderModel {
                    fresh: render.fresh.insert(scope.component, mounted),
                    scope: None,
                    ..render
                },
                None => RenderModel {
                    retained: render.retained.insert(scope.component),
                    scope: None,
                    ..render
                },
            },
        ),
        SignalStep::ComponentFailed => runtime.rendering(RenderModel { scope: None, ..render }),
        SignalStep::Committed => runtime.committed(),
        SignalStep::Abandoned => RuntimeModel { render: None, ..runtime },
        SignalStep::Invalidated => runtime.invalidated(),
        SignalStep::Unmounted(component) => runtime.unmounted(component),
    }
}

/// A mount that is gone never comes back, whatever happens next: mounts are numbered,
/// and no number is handed out twice.
pub proof fn law_dropped_mounts_never_return<V>(
    runtime: RuntimeModel<V>,
    step: SignalStep<V>,
    component: Seq<char>,
    generation: u64,
)
    requires
        is_sound(runtime),
        can_happen(runtime, step),
        generation < runtime.next_generation,
        !knows_mount(runtime, component, generation),
    ensures
        !knows_mount(after_step(runtime, step), component, generation),
        generation < after_step(runtime, step).next_generation,
{
}

/// A signal whose mount is gone is stale for everybody.
pub proof fn law_dropped_mounts_have_stale_signals<V>(
    runtime: RuntimeModel<V>,
    signal: SignalModel,
)
    requires
        !knows_mount(runtime, signal.component, signal.generation),
    ensures
        !runtime.is_active_signal(signal),
        !runtime.is_pending_signal(signal),
{
}

/// After a write, the signal holds what was written, its component is due for a render,
/// and every other signal holds what it held.
pub proof fn law_reads_give_back_writes<V>(
    before: RuntimeModel<V>,
    after: RuntimeModel<V>,
    signal: SignalModel,
    caller: Caller,
    value: V,
    other: SignalModel,
)
    requires
        before.write_fault(signal, caller) is None,
        slot_changed(before, after, signal, filled(before.slot_of(signal), value, false)),
        before.is_active_signal(other),
        other != signal,
    ensures
        after.read_fault(signal, caller) is None,
        after.slot_of(signal).value == value,
        after.dirty,
        after.dirty_components.contains(signal.component),
        after.is_active_signal(other),
        after.slot_of(other) == before.slot_of(other),
{
    assert(after.components.contains_key(signal.component));
    if other.component != signal.component {
        assert(before.components.contains_key(other.component));
        assert(after.components.contains_key(other.component));
    } else {
        assert(other.generation == signal.generation);
        assert(other.slot != signal.slot);
    }
}

/// Rendering a mounted component again keeps its mount and all its values, once the
/// render is committed.
pub proof fn law_signals_outlive_renders<V>(runtime: RuntimeModel<V>, component: Seq<char>)
    requires
        is_sound(runtime),
        runtime.render is Some,
        runtime.render->Some_0.retained.contains(component),
    ensures
        runtime.committed().components.contains_key(component),
        runtime.committed().components[component] == runtime.components[component],
{
}

/// A component that a committed render did not visit is not mounted any more.
pub proof fn law_unvisited_components_are_dropped<V>(
    runtime: RuntimeModel<V>,
    component: Seq<char>,
)
    requires
        runtime.render is Some,
        !runtime.render->Some_0.retained.contains(component),
        !runtime.render->Some_0.fresh.contains_key(component),
    ensures
        !runtime.committed().components.contains_key(component),
{
}

/// Until a render is committed it changes nothing that is mounted, and dropping it
/// leaves no trace but used numbers.
pub proof fn law_abandoned_renders_leave_no_trace<V>(
    runtime: RuntimeModel<V>,
    steps: Seq<SignalStep<V>>,
)
    requires
        forall|i: int| 0 <= i < steps.len() ==> is_render_step(#[trigger] steps[i]),
    ensures
        after_step(after_steps(runtime, steps), SignalStep::Abandoned) == (RuntimeModel {
            render: None,
            next_generation: after_steps(runtime, steps).next_generation,
            ..runtime
        }),
    decreases steps.len(),
{
    if steps.len() > 0 {
        let before = steps.drop_last();
        assert(forall|i: int| 0 <= i < before.len() ==> #[trigger] before[i] == steps[i]);
        law_abandoned_renders_leave_no_trace(runtime, before);
        assert(is_render_step(steps[steps.len() - 1]));
    }
}

/// The steps of a render before its end.
pub open spec fn is_render_step<V>(step: SignalStep<V>) -> bool {
    ||| step is RenderBegun
    ||| step is ComponentRetained
    ||| step is ComponentCreated
    ||| step is SignalAsked
    ||| step is ComponentEnded
    ||| step is ComponentFailed
}

/// The runtime after several steps.
pub open spec fn after_steps<V>(runtime: RuntimeModel<V>, steps: Seq<SignalStep<V>>) -> RuntimeModel<
    V,
>
    decreases steps.len(),
{
    if steps.len() == 0 {
        runtime
    } else {
        after_step(after_steps(runtime, steps.drop_last()), steps.last())
    }
}

} // verus!
