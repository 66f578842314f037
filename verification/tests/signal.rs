use agentview::component::identity::ComponentId;
use agentview::component::signal::{
    Caller, Signal, SignalAccessError, SignalRenderError, SignalRuntime,
};

fn component(name: &str, position: u64) -> ComponentId {
    ComponentId::root().child(name, position)
}

/// Somebody who neither renders nor is inside a callback.
fn outside() -> Caller {
    Caller {
        renders: false,
        in_callback: false,
    }
}

/// The one who renders.
fn renderer() -> Caller {
    Caller {
        renders: true,
        in_callback: false,
    }
}

const USIZE: u64 = 1;
const BOOL: u64 = 2;
const STRING: u64 = 3;

fn hook(
    runtime: &mut SignalRuntime<usize>,
    kind: u64,
    site: u32,
    value: usize,
) -> Result<Signal, SignalRenderError> {
    let kind_name = match kind {
        USIZE => "usize",
        BOOL => "bool",
        _ => "String",
    };
    runtime.use_signal(kind, kind_name, site, || value)
}

fn render_one(
    runtime: &mut SignalRuntime<usize>,
    identity: &ComponentId,
    value: usize,
) -> Result<Signal, SignalRenderError> {
    runtime.begin_component(identity)?;
    let signal = hook(runtime, USIZE, 1, value);
    match signal {
        Ok(signal) => {
            runtime.end_component(Ok(()))?;
            Ok(signal)
        }
        Err(error) => {
            runtime.end_component(Err(error))?;
            panic!("a failed component ends with its failure")
        }
    }
}

fn render_counter(
    runtime: &mut SignalRuntime<usize>,
    identity: &ComponentId,
    initializations: &mut usize,
) -> Result<Signal, SignalRenderError> {
    runtime.begin_component(identity)?;
    let signal = runtime.use_signal(USIZE, "usize", 1, || {
        *initializations += 1;
        1usize
    })?;
    runtime.end_component(Ok(()))?;
    Ok(signal)
}

fn value(runtime: &SignalRuntime<usize>, signal: &Signal) -> Result<usize, SignalAccessError> {
    signal.with(runtime, outside(), |value| *value)
}

#[test]
fn signal_is_retained_and_initializer_runs_once() {
    let mut runtime = SignalRuntime::new();
    let identity = component("counter", 0);
    let mut initializations = 0;

    runtime.begin_render(outside()).unwrap();
    let first = render_counter(&mut runtime, &identity, &mut initializations).unwrap();
    assert_eq!(
        first.with(&runtime, renderer(), |value| *value).unwrap(),
        1
    );
    runtime.commit();

    first.set(&mut runtime, outside(), 9).unwrap();
    runtime.begin_render(outside()).unwrap();
    let second = render_counter(&mut runtime, &identity, &mut initializations).unwrap();
    assert_eq!(
        second.with(&runtime, renderer(), |value| *value).unwrap(),
        9
    );
    runtime.commit();

    assert_eq!(initializations, 1);
    assert_eq!(value(&runtime, &first).unwrap(), 9);
}

#[test]
fn abandoned_render_preserves_committed_shape_and_stales_new_handles() {
    let mut runtime = SignalRuntime::new();
    let committed_id = component("committed", 0);
    let abandoned_id = component("abandoned", 1);

    runtime.begin_render(outside()).unwrap();
    let committed = render_one(&mut runtime, &committed_id, 3).unwrap();
    runtime.commit();

    runtime.begin_render(outside()).unwrap();
    let abandoned = render_one(&mut runtime, &abandoned_id, 8).unwrap();
    runtime.abandon();

    assert_eq!(value(&runtime, &committed).unwrap(), 3);
    assert!(matches!(
        value(&runtime, &abandoned),
        Err(SignalAccessError::Stale)
    ));
    assert_eq!(runtime.mounted_components(), 1);
}

#[test]
fn explicit_remount_invalidates_old_handles_and_reinitializes() {
    let mut runtime = SignalRuntime::new();
    let identity = component("keyed", 0);
    let mut initializations = 0;

    runtime.begin_render(outside()).unwrap();
    let old = render_counter(&mut runtime, &identity, &mut initializations).unwrap();
    runtime.commit();
    old.set(&mut runtime, outside(), 12).unwrap();

    assert!(runtime.remount_component(&identity, outside()).unwrap());
    assert!(matches!(
        value(&runtime, &old),
        Err(SignalAccessError::Stale)
    ));

    runtime.begin_render(outside()).unwrap();
    let fresh = render_counter(&mut runtime, &identity, &mut initializations).unwrap();
    runtime.commit();
    assert_eq!(value(&runtime, &fresh).unwrap(), 1);
    assert_eq!(initializations, 2);
}

#[test]
fn whole_host_invalidation_stales_every_mounted_handle() {
    let mut runtime = SignalRuntime::new();
    runtime.begin_render(outside()).unwrap();
    let first = render_one(&mut runtime, &component("first", 0), 1).unwrap();
    let second = render_one(&mut runtime, &component("second", 1), 2).unwrap();
    runtime.commit();

    runtime.invalidate_all(outside()).unwrap();
    assert!(matches!(
        value(&runtime, &first),
        Err(SignalAccessError::Stale)
    ));
    assert!(matches!(
        value(&runtime, &second),
        Err(SignalAccessError::Stale)
    ));
    assert_eq!(runtime.mounted_components(), 0);
    assert!(runtime.is_dirty());
}

#[test]
fn removing_then_recreating_a_component_fences_its_old_signal_generation() {
    let mut runtime = SignalRuntime::new();
    let identity = component("conditional-child", 0);

    runtime.begin_render(outside()).unwrap();
    let old = render_one(&mut runtime, &identity, 1).unwrap();
    runtime.commit();

    runtime.begin_render(outside()).unwrap();
    runtime.commit();
    assert_eq!(
        old.set(&mut runtime, outside(), 2),
        Err(SignalAccessError::Stale)
    );

    runtime.begin_render(outside()).unwrap();
    let fresh = render_one(&mut runtime, &identity, 3).unwrap();
    runtime.commit();

    assert_eq!(
        old.set(&mut runtime, outside(), 4),
        Err(SignalAccessError::Stale)
    );
    assert_eq!(value(&runtime, &fresh).unwrap(), 3);
}

fn render_conditional(
    runtime: &mut SignalRuntime<usize>,
    identity: &ComponentId,
    second: bool,
) -> Result<(), SignalRenderError> {
    runtime.begin_component(identity)?;
    let mut rendered = hook(runtime, USIZE, 1, 0).map(|_| ());
    if rendered.is_ok() && second {
        rendered = hook(runtime, BOOL, 2, 0).map(|_| ());
    }
    runtime.end_component(rendered)
}

#[test]
fn hook_count_drift_fails_without_poisoning_committed_state() {
    let mut runtime = SignalRuntime::new();
    let identity = component("conditional", 0);
    runtime.begin_render(outside()).unwrap();
    render_conditional(&mut runtime, &identity, true).unwrap();
    runtime.commit();

    runtime.begin_render(outside()).unwrap();
    assert!(matches!(
        render_conditional(&mut runtime, &identity, false),
        Err(SignalRenderError::HookCountMismatch {
            expected: 2,
            observed: 1,
            ..
        })
    ));
    runtime.abandon();

    runtime.begin_render(outside()).unwrap();
    render_conditional(&mut runtime, &identity, true).unwrap();
    runtime.commit();
}

fn render_kind(
    runtime: &mut SignalRuntime<usize>,
    identity: &ComponentId,
    kind: u64,
    site: u32,
) -> Result<(), SignalRenderError> {
    runtime.begin_component(identity)?;
    let rendered = hook(runtime, kind, site, 0).map(|_| ());
    runtime.end_component(rendered)
}

#[test]
fn hook_type_drift_fails_closed() {
    let mut runtime = SignalRuntime::new();
    let identity = component("typed", 0);
    runtime.begin_render(outside()).unwrap();
    render_kind(&mut runtime, &identity, USIZE, 1).unwrap();
    runtime.commit();

    runtime.begin_render(outside()).unwrap();
    assert!(matches!(
        render_kind(&mut runtime, &identity, STRING, 1),
        Err(SignalRenderError::HookTypeMismatch { slot: 0, .. })
    ));
}

#[test]
fn hook_location_drift_fails_closed() {
    let mut runtime = SignalRuntime::new();
    let identity = component("located", 0);
    runtime.begin_render(outside()).unwrap();
    render_kind(&mut runtime, &identity, USIZE, 10).unwrap();
    runtime.commit();

    runtime.begin_render(outside()).unwrap();
    assert!(matches!(
        render_kind(&mut runtime, &identity, USIZE, 20),
        Err(SignalRenderError::HookLocationMismatch { slot: 0, .. })
    ));
}

fn assert_send_sync<T: Send + Sync>() {}

#[test]
fn signal_is_send_and_sync_when_value_is() {
    assert_send_sync::<Signal>();
    assert_send_sync::<SignalRuntime<String>>();
}

#[test]
fn successful_write_marks_dirty_and_wakes_revision_waiter() {
    let mut runtime = SignalRuntime::new();
    let identity = component("wake", 0);
    runtime.begin_render(outside()).unwrap();
    let signal = render_one(&mut runtime, &identity, 1).unwrap();
    runtime.commit();
    assert!(!runtime.is_dirty());
    assert!(!runtime.is_component_dirty(&identity));

    let revision = runtime.wake_revision();
    signal
        .update(&mut runtime, outside(), |value| *value += 1)
        .unwrap();
    assert!(runtime.is_dirty());
    assert!(runtime.is_component_dirty(&identity));
    assert_eq!(runtime.wake_revision(), revision + 1);
    assert!(runtime.take_dirty());
    assert!(!runtime.take_dirty());
    assert_eq!(value(&runtime, &signal).unwrap(), 2);
}

#[test]
fn render_owner_can_read_but_cannot_write() {
    let mut runtime = SignalRuntime::new();
    let identity = component("render-access", 0);
    runtime.begin_render(outside()).unwrap();
    let signal = render_one(&mut runtime, &identity, 5).unwrap();
    assert_eq!(
        signal.with(&runtime, renderer(), |value| *value).unwrap(),
        5
    );
    assert!(matches!(
        signal.set(&mut runtime, renderer(), 6),
        Err(SignalAccessError::WriteDuringRender { .. })
    ));
    runtime.commit();
    assert_eq!(value(&runtime, &signal).unwrap(), 5);
}

#[test]
fn nested_same_signal_write_completes_or_fails_closed() {
    let mut runtime = SignalRuntime::new();
    let identity = component("nested-same-slot", 0);
    runtime.begin_render(outside()).unwrap();
    let signal = render_one(&mut runtime, &identity, 1).unwrap();
    runtime.commit();
    let revision = runtime.wake_revision();

    let inside = Caller {
        renders: false,
        in_callback: true,
    };
    assert!(matches!(
        signal.set(&mut runtime, inside, 2),
        Err(SignalAccessError::ReentrantAccess { .. })
    ));
    assert_eq!(value(&runtime, &signal).unwrap(), 1);
    assert_eq!(runtime.wake_revision(), revision);
}

#[test]
fn stale_write_from_a_new_render_owner_fails_as_stale() {
    let mut runtime = SignalRuntime::new();
    let identity = component("stale-render-owner", 0);
    runtime.begin_render(outside()).unwrap();
    let stale = render_one(&mut runtime, &identity, 1).unwrap();
    runtime.commit();

    assert!(runtime.remount_component(&identity, outside()).unwrap());
    runtime.begin_render(outside()).unwrap();
    runtime.begin_component(&identity).unwrap();
    let _fresh = hook(&mut runtime, USIZE, 1, 2).unwrap();
    assert_eq!(
        stale.set(&mut runtime, renderer(), 3),
        Err(SignalAccessError::Stale)
    );
    runtime.end_component(Ok(())).unwrap();
    runtime.commit();
}

#[test]
fn with_can_return_a_borrow_from_the_callback_environment() {
    let mut runtime = SignalRuntime::new();
    runtime.begin_render(outside()).unwrap();
    let signal = render_one(&mut runtime, &component("external-borrow", 0), 1).unwrap();
    runtime.commit();

    let external = String::from("borrowed outside Signal state");
    let borrowed = signal
        .with(&runtime, outside(), |_| external.as_str())
        .unwrap();
    assert_eq!(borrowed, "borrowed outside Signal state");
}

#[test]
fn a_poisoned_signal_is_not_used_again() {
    let mut runtime = SignalRuntime::new();
    let identity = component("poisoned", 0);
    runtime.begin_render(outside()).unwrap();
    let signal = render_one(&mut runtime, &identity, 1).unwrap();
    runtime.commit();

    runtime.mark_poisoned(&signal);
    assert!(runtime.is_component_dirty(&identity));
    let poisoned = SignalAccessError::StatePoisoned {
        component: "/poisoned#0".to_owned(),
        slot: 0,
    };
    assert_eq!(value(&runtime, &signal), Err(poisoned.clone()));
    assert_eq!(signal.set(&mut runtime, outside(), 2), Err(poisoned));
}

#[test]
fn an_ended_runtime_refuses_everything() {
    let mut runtime = SignalRuntime::new();
    runtime.begin_render(outside()).unwrap();
    let signal = render_one(&mut runtime, &component("ended", 0), 1).unwrap();
    runtime.commit();
    runtime.deactivate();
    assert_eq!(
        value(&runtime, &signal),
        Err(SignalAccessError::RuntimeInactive)
    );
    assert_eq!(
        runtime.begin_render(outside()),
        Err(SignalRenderError::RuntimeInactive)
    );
    assert_eq!(
        runtime.invalidate_all(outside()),
        Err(SignalRenderError::RuntimeInactive)
    );
}

#[test]
fn renders_do_not_nest() {
    let mut runtime: SignalRuntime<usize> = SignalRuntime::new();
    runtime.begin_render(outside()).unwrap();
    assert_eq!(
        runtime.preflight_render(renderer()),
        Err(SignalRenderError::NestedRender)
    );
    assert_eq!(
        runtime.begin_render(renderer()),
        Err(SignalRenderError::NestedRender)
    );
    assert_eq!(
        runtime.invalidate_all(renderer()),
        Err(SignalRenderError::NestedRender)
    );
    assert_eq!(
        runtime.remount_component(&ComponentId::root(), renderer()),
        Err(SignalRenderError::NestedRender)
    );
    assert!(runtime.can_mount(&ComponentId::root()));
    runtime.abandon();
    let inside = Caller {
        renders: false,
        in_callback: true,
    };
    assert_eq!(
        runtime.preflight_render(inside),
        Err(SignalRenderError::CallbackReentry)
    );
}

#[test]
fn a_component_is_rendered_once() {
    let mut runtime = SignalRuntime::new();
    let identity = component("twice", 0);
    runtime.begin_render(outside()).unwrap();
    render_one(&mut runtime, &identity, 1).unwrap();
    assert_eq!(
        runtime.begin_component(&identity),
        Err(SignalRenderError::DuplicateComponent {
            component: "/twice#0".to_owned()
        })
    );
}
