//! Who reaches which signal, and what renders leave behind.

use vstd::prelude::*;
use crate::component::signal::{component_fault, filled, hook_fault, slot_changed};
use crate::component::signal::{AccessErrorModel, Caller, RenderErrorModel, RenderScopeModel};
use crate::component::signal::{RuntimeModel, SignalModel, SignalSlot};

verus! {

/// A signal belongs to the mount that it was made for, and to one of its places. A render
/// also knows the signals of the mounts that it makes.
pub proof fn law_signals_belong_to_their_mount<V>(runtime: RuntimeModel<V>, signal: SignalModel)
    ensures
        runtime.is_active_signal(signal) <==> {
            &&& runtime.components.contains_key(signal.component)
            &&& runtime.components[signal.component].generation == signal.generation
            &&& signal.slot < runtime.components[signal.component].slots@.len()
        },
        runtime.is_active_signal(signal) ==> runtime.slot_of(signal)
            == runtime.components[signal.component].slots@[signal.slot as int],
        runtime.render is None ==> !runtime.is_pending_signal(signal),
        runtime.render is Some && runtime.render->Some_0.fresh.contains_key(signal.component)
            && runtime.render->Some_0.fresh[signal.component].generation == signal.generation
            && signal.slot < runtime.render->Some_0.fresh[signal.component].slots@.len()
            ==> runtime.is_pending_signal(signal) && (!runtime.is_active_signal(signal)
            ==> runtime.slot_of(signal)
            == runtime.render->Some_0.fresh[signal.component].slots@[signal.slot as int]),
{
}

/// Somebody outside of a render reads exactly the signals of mounted components, while the
/// runtime is active and outside of another access. Whoever renders also reads what the
/// render makes. A value left in the middle of a change is read by nobody.
pub proof fn law_mounted_signals_are_read<V>(
    runtime: RuntimeModel<V>,
    signal: SignalModel,
    caller: Caller,
)
    ensures
        runtime.read_fault(signal, caller) is None <==> {
            &&& runtime.active
            &&& !caller.in_callback
            &&& runtime.is_active_signal(signal) || (caller.renders && runtime.is_pending_signal(
                signal,
            ))
            &&& !runtime.slot_of(signal).poisoned
        },
        !caller.in_callback && !runtime.active ==> runtime.read_fault(signal, caller) == Some(
            AccessErrorModel::RuntimeInactive,
        ),
        !caller.in_callback && runtime.active && !runtime.is_active_signal(signal) && !(
        caller.renders && runtime.is_pending_signal(signal)) ==> runtime.read_fault(signal, caller)
            == Some(AccessErrorModel::Stale),
        caller.in_callback && !caller.renders ==> runtime.read_fault(signal, caller) == Some(
            AccessErrorModel::ReentrantAccess { component: signal.component, slot: signal.slot },
        ),
        caller.in_callback && caller.renders && runtime.active && (runtime.is_active_signal(signal)
            || runtime.is_pending_signal(signal)) ==> runtime.read_fault(signal, caller) == Some(
            AccessErrorModel::ReentrantAccess { component: signal.component, slot: signal.slot },
        ),
        runtime.active && !caller.in_callback && runtime.is_active_signal(signal)
            && runtime.slot_of(signal).poisoned ==> runtime.read_fault(signal, caller) == Some(
            AccessErrorModel::StatePoisoned { component: signal.component, slot: signal.slot },
        ),
{
}

/// Only somebody outside of a render writes, and exactly what they can read.
pub proof fn law_renders_write_nothing<V>(
    runtime: RuntimeModel<V>,
    signal: SignalModel,
    caller: Caller,
)
    ensures
        runtime.write_fault(signal, caller) is None <==> !caller.renders && runtime.read_fault(
            signal,
            caller,
        ) is None,
        !caller.renders ==> runtime.write_fault(signal, caller) == runtime.read_fault(
            signal,
            caller,
        ),
        caller.renders && runtime.active && (runtime.is_active_signal(signal)
            || runtime.is_pending_signal(signal)) ==> runtime.write_fault(signal, caller) == Some(
            AccessErrorModel::WriteDuringRender { component: signal.component, slot: signal.slot },
        ),
        caller.renders && runtime.active && !runtime.is_active_signal(signal)
            && !runtime.is_pending_signal(signal) ==> runtime.write_fault(signal, caller) == Some(
            AccessErrorModel::Stale,
        ),
        caller.renders && !runtime.active ==> runtime.write_fault(signal, caller) == Some(
            AccessErrorModel::RuntimeInactive,
        ),
{
}

/// Asking for a render marks the runtime and takes the next revision, and nothing else.
pub proof fn law_waking_moves_the_revision<V>(runtime: RuntimeModel<V>)
    ensures
        runtime.woken().dirty,
        runtime.woken().wake_revision != runtime.wake_revision,
        runtime.wake_revision < u64::MAX ==> runtime.woken().wake_revision == runtime.wake_revision
            + 1,
        runtime.wake_revision == u64::MAX ==> runtime.woken().wake_revision == 0,
        runtime.woken().components == runtime.components,
        runtime.woken().render == runtime.render,
        runtime.woken().active == runtime.active,
        runtime.woken().next_generation == runtime.next_generation,
        runtime.woken().dirty_components == runtime.dirty_components,
{
}

/// A committed render leaves mounted exactly what it visited: what was mounted before as it
/// was, and what it made as it made it. Nothing is due for a render any more.
pub proof fn law_commits_mount_what_was_rendered<V>(
    runtime: RuntimeModel<V>,
    component: Seq<char>,
)
    requires
        runtime.render is Some,
    ensures
        ({
            let render = runtime.render->Some_0;
            let after = runtime.committed();
            let kept = render.retained.contains(component) && runtime.components.contains_key(
                component,
            );
            &&& after.components.contains_key(component) <==> kept
                || render.fresh.contains_key(component)
            &&& render.fresh.contains_key(component) ==> after.components[component]
                == render.fresh[component]
            &&& kept && !render.fresh.contains_key(component) ==> after.components[component]
                == runtime.components[component]
            &&& after.render is None
            &&& !after.dirty
            &&& !after.dirty_components.contains(component)
            &&& after.active == runtime.active
            &&& after.next_generation == runtime.next_generation
            &&& after.wake_revision == runtime.wake_revision
        }),
{
}

/// Dropping the mount of a component drops no other, and dropping all leaves none. Either
/// asks for a render.
pub proof fn law_dropping_mounts_is_exact<V>(
    runtime: RuntimeModel<V>,
    component: Seq<char>,
    other: Seq<char>,
)
    ensures
        ({
            let after = runtime.unmounted(component);
            &&& after.components.contains_key(other) <==> other != component
                && runtime.components.contains_key(other)
            &&& other != component && runtime.components.contains_key(other)
                ==> after.components[other] == runtime.components[other]
            &&& after.dirty_components.contains(other) <==> other != component
                && runtime.dirty_components.contains(other)
            &&& after.dirty
            &&& after.wake_revision != runtime.wake_revision
            &&& after.next_generation == runtime.next_generation
            &&& after.active == runtime.active
        }),
        ({
            let after = runtime.invalidated();
            &&& !after.components.contains_key(other)
            &&& !after.dirty_components.contains(other)
            &&& after.dirty
            &&& after.wake_revision != runtime.wake_revision
            &&& after.next_generation == runtime.next_generation
            &&& after.active == runtime.active
        }),
{
}

/// A render begins, and mounts are dropped, exactly outside of renders and accesses and
/// while the runtime is active.
pub proof fn law_renders_do_not_nest<V>(runtime: RuntimeModel<V>, caller: Caller)
    ensures
        runtime.render_fault(caller) is None <==> runtime.active && !caller.renders
            && !caller.in_callback,
        runtime.invalidation_fault(caller) is None <==> runtime.active && !caller.renders
            && !caller.in_callback,
        !runtime.active ==> runtime.render_fault(caller) == Some(RenderErrorModel::RuntimeInactive),
        runtime.active && caller.renders ==> runtime.render_fault(caller) == Some(
            RenderErrorModel::NestedRender,
        ),
        runtime.active && !caller.renders && caller.in_callback ==> runtime.render_fault(caller)
            == Some(RenderErrorModel::CallbackReentry),
        caller.renders ==> runtime.invalidation_fault(caller) == Some(
            RenderErrorModel::NestedRender,
        ),
        !caller.renders && caller.in_callback ==> runtime.invalidation_fault(caller) == Some(
            RenderErrorModel::CallbackReentry,
        ),
        !caller.renders && !caller.in_callback && !runtime.active ==> runtime.invalidation_fault(
            caller,
        ) == Some(RenderErrorModel::RuntimeInactive),
{
}

/// A component asks for its signals again in the same order, of the same kinds and from the
/// same places, or the first difference is reported.
pub proof fn law_signals_are_asked_for_alike<V>(
    component: Seq<char>,
    slots: Seq<SignalSlot<V>>,
    cursor: nat,
    kind: u64,
    kind_name: Seq<char>,
    site: u32,
)
    ensures
        ({
            let fault = hook_fault(component, slots, cursor, kind, kind_name, site);
            &&& fault is None <==> cursor < slots.len() && slots[cursor as int].kind == kind
                && slots[cursor as int].site == site
            &&& cursor >= slots.len() ==> fault == Some(
                RenderErrorModel::HookCountMismatch {
                    component,
                    expected: slots.len(),
                    observed: cursor + 1,
                },
            )
            &&& cursor < slots.len() && slots[cursor as int].kind != kind ==> fault == Some(
                RenderErrorModel::HookTypeMismatch {
                    component,
                    slot: cursor,
                    expected: slots[cursor as int].kind_name@,
                    observed: kind_name,
                },
            )
            &&& cursor < slots.len() && slots[cursor as int].kind == kind
                && slots[cursor as int].site != site ==> fault == Some(
                RenderErrorModel::HookLocationMismatch {
                    component,
                    slot: cursor,
                    expected: slots[cursor as int].site,
                    observed: site,
                },
            )
        }),
{
}

/// A component ends well exactly where its own rendering did, no signal was asked for
/// wrongly, and none was left out. The first of these that fails is reported.
pub proof fn law_components_end_with_all_their_signals<V>(
    scope: RenderScopeModel<V>,
    slots: Seq<SignalSlot<V>>,
    rendered: Option<RenderErrorModel>,
)
    ensures
        ({
            let fault = component_fault(scope, slots, rendered);
            &&& fault is None <==> rendered is None && scope.fault is None && (scope.fresh is Some
                || scope.cursor == slots.len())
            &&& rendered is Some ==> fault == rendered
            &&& rendered is None && scope.fault is Some ==> fault == scope.fault
            &&& rendered is None && scope.fault is None && fault is Some ==> fault == Some(
                RenderErrorModel::HookCountMismatch {
                    component: scope.component,
                    expected: slots.len(),
                    observed: scope.cursor,
                },
            )
        }),
{
}

/// A write changes the value at one place of one mount. That component is due for a render,
/// and everything else is as it was.
pub proof fn law_writes_touch_one_place<V>(
    before: RuntimeModel<V>,
    after: RuntimeModel<V>,
    signal: SignalModel,
    slot: SignalSlot<V>,
    value: V,
    poisoned: bool,
    other: Seq<char>,
    place: int,
)
    requires
        before.is_active_signal(signal),
        slot_changed(before, after, signal, slot),
    ensures
        filled(slot, value, poisoned).value == value,
        filled(slot, value, poisoned).poisoned == poisoned,
        filled(slot, value, poisoned).kind == slot.kind,
        filled(slot, value, poisoned).site == slot.site,
        after.slot_of(signal) == slot,
        after.components[signal.component].generation
            == before.components[signal.component].generation,
        after.components[signal.component].slots@.len()
            == before.components[signal.component].slots@.len(),
        0 <= place < before.components[signal.component].slots@.len() && place != signal.slot
            ==> after.components[signal.component].slots@[place]
            == before.components[signal.component].slots@[place],
        after.components.contains_key(other) <==> before.components.contains_key(other),
        other != signal.component && before.components.contains_key(other)
            ==> after.components[other] == before.components[other],
        after.dirty_components.contains(other) <==> other == signal.component
            || before.dirty_components.contains(other),
        after.dirty,
        after.wake_revision != before.wake_revision,
        after.render == before.render,
        after.active == before.active,
        after.next_generation == before.next_generation,
{
    assert(after.components.dom().contains(other) == before.components.dom().contains(other));
    assert(after.components.dom().contains(signal.component));
}

} // verus!
