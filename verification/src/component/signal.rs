//! Signals: state that belongs to a mounted component and outlives its renders.
//!
//! A render visits components and asks, in each, for its signals in order. What a
//! component asks for the first time is created; later renders must ask for the same
//! signals again. A render takes effect only when it is committed. Signals of
//! components that are no longer mounted cannot be used any more.

use vstd::prelude::*;
use crate::component::identity::ComponentId;
use crate::table::Table;

verus! {

/// Who accesses a signal or the runtime.
#[derive(Debug, Clone, Copy, PartialEq, Eq, Structural)]
pub struct Caller {
    /// Whether the caller is the one who renders.
    pub renders: bool,
    /// Whether the caller is inside a callback of a signal.
    pub in_callback: bool,
}

/// Model of [`Signal`].
pub struct SignalModel {
    pub component: Seq<char>,
    pub generation: u64,
    pub slot: nat,
}

/// One signal of one mount of a component.
#[derive(Debug)]
pub struct Signal {
    pub(crate) component: ComponentId,
    pub(crate) generation: u64,
    pub(crate) slot: usize,
}

impl View for Signal {
    type V = SignalModel;

    open(crate) spec fn view(&self) -> SignalModel {
        SignalModel {
            component: self.component@,
            generation: self.generation,
            slot: self.slot as nat,
        }
    }
}

impl Clone for Signal {
    fn clone(&self) -> (copy: Self)
        ensures
            copy@ == self@,
    {
        Self { component: self.component.clone(), generation: self.generation, slot: self.slot }
    }
}

/// Model of [`SignalAccessError`].
#[allow(inconsistent_fields)]
pub enum AccessErrorModel {
    RuntimeInactive,
    Stale,
    WriteDuringRender { component: Seq<char>, slot: nat },
    ReentrantAccess { component: Seq<char>, slot: nat },
    StatePoisoned { component: Seq<char>, slot: nat },
}

/// Why a signal cannot be used.
#[derive(Debug, Clone, PartialEq, Eq)]
#[non_exhaustive]
#[allow(inconsistent_fields)]
pub enum SignalAccessError {
    /// The runtime is gone.
    RuntimeInactive,
    /// The component is not mounted any more.
    Stale,
    /// Signals cannot be written by the one who renders.
    WriteDuringRender { component: String, slot: usize },
    /// Signals cannot be used inside a callback of a signal.
    ReentrantAccess { component: String, slot: usize },
    /// A callback panicked while it changed the value.
    StatePoisoned { component: String, slot: usize },
}

impl View for SignalAccessError {
    type V = AccessErrorModel;

    open spec fn view(&self) -> AccessErrorModel {
        match *self {
            SignalAccessError::RuntimeInactive => AccessErrorModel::RuntimeInactive,
            SignalAccessError::Stale => AccessErrorModel::Stale,
            SignalAccessError::WriteDuringRender { component, slot } => {
                AccessErrorModel::WriteDuringRender { component: component@, slot: slot as nat }
            },
            SignalAccessError::ReentrantAccess { component, slot } => {
                AccessErrorModel::ReentrantAccess { component: component@, slot: slot as nat }
            },
            SignalAccessError::StatePoisoned { component, slot } => {
                AccessErrorModel::StatePoisoned { component: component@, slot: slot as nat }
            },
        }
    }
}

/// Model of [`SignalRenderError`].
#[allow(inconsistent_fields)]
pub enum RenderErrorModel {
    RuntimeInactive,
    NestedRender,
    CallbackReentry,
    DuplicateComponent { component: Seq<char> },
    HookCountMismatch { component: Seq<char>, expected: nat, observed: nat },
    HookTypeMismatch {
        component: Seq<char>,
        slot: nat,
        expected: Seq<char>,
        observed: Seq<char>,
    },
    HookLocationMismatch { component: Seq<char>, slot: nat, expected: u32, observed: u32 },
}

/// Why a render fails.
#[derive(Debug, PartialEq, Eq)]
#[allow(inconsistent_fields)]
pub enum SignalRenderError {
    /// The runtime is gone.
    RuntimeInactive,
    /// The one who renders cannot begin another render.
    NestedRender,
    /// A render cannot begin inside a callback of a signal.
    CallbackReentry,
    /// A component is rendered once.
    DuplicateComponent { component: String },
    /// A component asks for the same number of signals each time.
    HookCountMismatch { component: String, expected: usize, observed: usize },
    /// A component asks for signals of the same types each time.
    HookTypeMismatch { component: String, slot: usize, expected: String, observed: String },
    /// A component asks for signals in the same places each time.
    HookLocationMismatch { component: String, slot: usize, expected: u32, observed: u32 },
}

impl View for SignalRenderError {
    type V = RenderErrorModel;

    open spec fn view(&self) -> RenderErrorModel {
        match *self {
            SignalRenderError::RuntimeInactive => RenderErrorModel::RuntimeInactive,
            SignalRenderError::NestedRender => RenderErrorModel::NestedRender,
            SignalRenderError::CallbackReentry => RenderErrorModel::CallbackReentry,
            SignalRenderError::DuplicateComponent { component } => {
                RenderErrorModel::DuplicateComponent { component: component@ }
            },
            SignalRenderError::HookCountMismatch { component, expected, observed } => {
                RenderErrorModel::HookCountMismatch {
                    component: component@,
                    expected: expected as nat,
                    observed: observed as nat,
                }
            },
            SignalRenderError::HookTypeMismatch { component, slot, expected, observed } => {
                RenderErrorModel::HookTypeMismatch {
                    component: component@,
                    slot: slot as nat,
                    expected: expected@,
                    observed: observed@,
                }
            },
            SignalRenderError::HookLocationMismatch { component, slot, expected, observed } => {
                RenderErrorModel::HookLocationMismatch {
                    component: component@,
                    slot: slot as nat,
                    expected,
                    observed,
                }
            },
        }
    }
}

impl Clone for SignalRenderError {
    fn clone(&self) -> (copy: Self)
        ensures
            copy@ == self@,
    {
        match self {
            SignalRenderError::RuntimeInactive => SignalRenderError::RuntimeInactive,
            SignalRenderError::NestedRender => SignalRenderError::NestedRender,
            SignalRenderError::CallbackReentry => SignalRenderError::CallbackReentry,
            SignalRenderError::DuplicateComponent { component } => {
                SignalRenderError::DuplicateComponent { component: component.clone() }
            },
            SignalRenderError::HookCountMismatch { component, expected, observed } => {
                SignalRenderError::HookCountMismatch {
                    component: component.clone(),
                    expected: *expected,
                    observed: *observed,
                }
            },
            SignalRenderError::HookTypeMismatch { component, slot, expected, observed } => {
                SignalRenderError::HookTypeMismatch {
                    component: component.clone(),
                    slot: *slot,
                    expected: expected.clone(),
                    observed: observed.clone(),
                }
            },
            SignalRenderError::HookLocationMismatch { component, slot, expected, observed } => {
                SignalRenderError::HookLocationMismatch {
                    component: component.clone(),
                    slot: *slot,
                    expected: *expected,
                    observed: *observed,
                }
            },
        }
    }
}

/// One signal of a mounted component: the type and the place it was asked for with,
/// its value, and whether a callback panicked while it changed the value.
#[derive(Debug)]
pub struct SignalSlot<V> {
    pub kind: u64,
    pub kind_name: String,
    pub site: u32,
    pub value: V,
    pub poisoned: bool,
}

/// One mount of a component.
#[derive(Debug)]
pub struct MountedSignalComponent<V> {
    pub generation: u64,
    pub slots: Vec<SignalSlot<V>>,
}

/// Model of the component that is being rendered. `fresh` is its mount where it was
/// not mounted before.
pub struct RenderScopeModel<V> {
    pub component: Seq<char>,
    pub generation: u64,
    pub fresh: Option<MountedSignalComponent<V>>,
    pub cursor: nat,
    pub fault: Option<RenderErrorModel>,
}

#[derive(Debug)]
pub(crate) struct RenderScope<V> {
    pub(crate) component: ComponentId,
    pub(crate) generation: u64,
    pub(crate) fresh: Option<MountedSignalComponent<V>>,
    pub(crate) cursor: usize,
    pub(crate) fault: Option<SignalRenderError>,
}

/// The model of an optional fault.
pub open spec fn optional_fault(fault: Option<SignalRenderError>) -> Option<RenderErrorModel> {
    match fault {
        Some(fault) => Some(fault@),
        None => None,
    }
}

impl<V> View for RenderScope<V> {
    type V = RenderScopeModel<V>;

    open(crate) spec fn view(&self) -> RenderScopeModel<V> {
        RenderScopeModel {
            component: self.component@,
            generation: self.generation,
            fresh: self.fresh,
            cursor: self.cursor as nat,
            fault: optional_fault(self.fault),
        }
    }
}

/// Model of a render under way. `retained` are the rendered components that were
/// mounted before, `fresh` those that were not.
pub struct RenderModel<V> {
    pub retained: Set<Seq<char>>,
    pub fresh: Map<Seq<char>, MountedSignalComponent<V>>,
    pub scope: Option<RenderScopeModel<V>>,
}

#[derive(Debug)]
pub(crate) struct RenderState<V> {
    pub(crate) retained: Table<()>,
    pub(crate) fresh: Table<MountedSignalComponent<V>>,
    pub(crate) scope: Option<RenderScope<V>>,
}

pub(crate) open(crate) spec fn optional_scope<V>(scope: Option<RenderScope<V>>) -> Option<
    RenderScopeModel<V>,
> {
    match scope {
        Some(scope) => Some(scope@),
        None => None,
    }
}

impl<V> View for RenderState<V> {
    type V = RenderModel<V>;

    open(crate) spec fn view(&self) -> RenderModel<V> {
        RenderModel {
            retained: self.retained@.dom(),
            fresh: self.fresh@,
            scope: optional_scope(self.scope),
        }
    }
}

pub(crate) open(crate) spec fn optional_render<V>(render: Option<RenderState<V>>) -> Option<
    RenderModel<V>,
> {
    match render {
        Some(render) => Some(render@),
        None => None,
    }
}

/// Model of [`SignalRuntime`].
pub struct RuntimeModel<V> {
    pub active: bool,
    pub next_generation: u64,
    pub components: Map<Seq<char>, MountedSignalComponent<V>>,
    pub render: Option<RenderModel<V>>,
    pub dirty: bool,
    pub dirty_components: Set<Seq<char>>,
    pub wake_revision: u64,
}

/// What holds of the runtime at all times: every mount has a number that was handed
/// out; and a render retains what is mounted, creates what is not, and is in one or
/// the other.
pub open spec fn is_sound<V>(runtime: RuntimeModel<V>) -> bool {
    &&& forall|component: Seq<char>| #[trigger]
        runtime.components.contains_key(component) ==> runtime.components[component].generation
            < runtime.next_generation
    &&& match runtime.render {
        None => true,
        Some(render) => {
            &&& forall|component: Seq<char>| #[trigger]
                render.retained.contains(component) ==> runtime.components.contains_key(component)
            &&& forall|component: Seq<char>| #[trigger]
                render.fresh.contains_key(component) ==> !runtime.components.contains_key(component)
                    && render.fresh[component].generation < runtime.next_generation
            &&& match render.scope {
                None => true,
                Some(scope) => match scope.fresh {
                    None => {
                        &&& runtime.components.contains_key(scope.component)
                        &&& runtime.components[scope.component].generation == scope.generation
                        &&& scope.cursor <= runtime.components[scope.component].slots@.len()
                    },
                    Some(mounted) => {
                        &&& !runtime.components.contains_key(scope.component)
                        &&& mounted.generation == scope.generation
                        &&& scope.generation < runtime.next_generation
                        &&& scope.cursor == mounted.slots@.len()
                    },
                },
            }
        },
    }
}

impl<V> RuntimeModel<V> {
    /// Whether a signal belongs to a mounted component.
    pub open spec fn is_active_signal(self, signal: SignalModel) -> bool {
        &&& self.components.contains_key(signal.component)
        &&& self.components[signal.component].generation == signal.generation
        &&& signal.slot < self.components[signal.component].slots@.len()
    }

    /// Whether a signal belongs to a component that is being mounted by a render.
    pub open spec fn is_pending_signal(self, signal: SignalModel) -> bool {
        match self.render {
            None => false,
            Some(render) => {
                ||| {
                    &&& render.fresh.contains_key(signal.component)
                    &&& render.fresh[signal.component].generation == signal.generation
                    &&& signal.slot < render.fresh[signal.component].slots@.len()
                }
                ||| match render.scope {
                    Some(scope) => {
                        &&& scope.fresh is Some
                        &&& scope.component == signal.component
                        &&& scope.generation == signal.generation
                        &&& signal.slot < scope.fresh->Some_0.slots@.len()
                    },
                    None => false,
                }
            },
        }
    }

    /// The slot of a signal that is active or pending.
    pub open spec fn slot_of(self, signal: SignalModel) -> SignalSlot<V> {
        let slot = signal.slot as int;
        if self.is_active_signal(signal) {
            self.components[signal.component].slots@[slot]
        } else {
            let render = self.render->Some_0;
            if render.fresh.contains_key(signal.component)
                && render.fresh[signal.component].generation == signal.generation && signal.slot
                < render.fresh[signal.component].slots@.len() {
                render.fresh[signal.component].slots@[slot]
            } else {
                render.scope->Some_0.fresh->Some_0.slots@[slot]
            }
        }
    }

    /// Why a signal is out of reach, if so. The one who renders also reaches what it
    /// creates; others reach what is mounted.
    pub open spec fn access_fault(self, signal: SignalModel, caller: Caller) -> Option<
        AccessErrorModel,
    > {
        let reentrant = AccessErrorModel::ReentrantAccess {
            component: signal.component,
            slot: signal.slot,
        };
        if caller.renders {
            if !self.active {
                Some(AccessErrorModel::RuntimeInactive)
            } else if !self.is_active_signal(signal) && !self.is_pending_signal(signal) {
                Some(AccessErrorModel::Stale)
            } else if caller.in_callback {
                Some(reentrant)
            } else {
                None
            }
        } else if caller.in_callback {
            Some(reentrant)
        } else if !self.active {
            Some(AccessErrorModel::RuntimeInactive)
        } else if !self.is_active_signal(signal) {
            Some(AccessErrorModel::Stale)
        } else {
            None
        }
    }

    /// Why a signal cannot be read, if so: it is out of reach, or its value was left in
    /// the middle of a change.
    pub open spec fn read_fault(self, signal: SignalModel, caller: Caller) -> Option<
        AccessErrorModel,
    > {
        let fault = self.access_fault(signal, caller);
        if fault is None && self.slot_of(signal).poisoned {
            Some(
                AccessErrorModel::StatePoisoned { component: signal.component, slot: signal.slot },
            )
        } else {
            fault
        }
    }

    /// Why a signal cannot be written, if so. The one who renders writes nothing.
    pub open spec fn write_fault(self, signal: SignalModel, caller: Caller) -> Option<
        AccessErrorModel,
    > {
        if caller.renders {
            if !self.active {
                Some(AccessErrorModel::RuntimeInactive)
            } else if !self.is_active_signal(signal) && !self.is_pending_signal(signal) {
                Some(AccessErrorModel::Stale)
            } else {
                Some(
                    AccessErrorModel::WriteDuringRender {
                        component: signal.component,
                        slot: signal.slot,
                    },
                )
            }
        } else {
            self.read_fault(signal, caller)
        }
    }

    /// The runtime once something asks for a render.
    pub open spec fn woken(self) -> Self {
        RuntimeModel {
            dirty: true,
            wake_revision: if self.wake_revision == u64::MAX {
                0
            } else {
                (self.wake_revision + 1) as u64
            },
            ..self
        }
    }

    /// Why a render cannot begin, if so.
    pub open spec fn render_fault(self, caller: Caller) -> Option<RenderErrorModel> {
        if !self.active {
            Some(RenderErrorModel::RuntimeInactive)
        } else if caller.renders {
            Some(RenderErrorModel::NestedRender)
        } else if caller.in_callback {
            Some(RenderErrorModel::CallbackReentry)
        } else {
            None
        }
    }

    /// Why mounts cannot be dropped, if so.
    pub open spec fn invalidation_fault(self, caller: Caller) -> Option<RenderErrorModel> {
        if caller.renders {
            Some(RenderErrorModel::NestedRender)
        } else if caller.in_callback {
            Some(RenderErrorModel::CallbackReentry)
        } else if !self.active {
            Some(RenderErrorModel::RuntimeInactive)
        } else {
            None
        }
    }

    /// Whether a component is mounted or can still get a number of its own.
    pub open spec fn can_mount(self, component: Seq<char>) -> bool {
        self.components.contains_key(component) || self.next_generation < u64::MAX
    }

    /// The runtime with another render state.
    pub open spec fn rendering(self, render: RenderModel<V>) -> Self {
        RuntimeModel { render: Some(render), ..self }
    }

    /// The slots that the component under way has to ask for again.
    pub open spec fn expected_slots(self) -> Seq<SignalSlot<V>> {
        self.components[self.render->Some_0.scope->Some_0.component].slots@
    }

    /// The runtime once the render under way has been committed: what was rendered is
    /// mounted, everything else is not.
    pub open spec fn committed(self) -> Self {
        let render = self.render->Some_0;
        RuntimeModel {
            components: self.components.restrict(render.retained).union_prefer_right(render.fresh),
            render: None,
            dirty: false,
            dirty_components: Set::empty(),
            ..self
        }
    }

    /// The runtime once nothing is mounted any more.
    pub open spec fn invalidated(self) -> Self {
        RuntimeModel {
            components: Map::empty(),
            dirty_components: Set::empty(),
            ..self
        }.woken()
    }

    /// The runtime once a component is not mounted any more.
    pub open spec fn unmounted(self, component: Seq<char>) -> Self {
        RuntimeModel {
            components: self.components.remove(component),
            dirty_components: self.dirty_components.remove(component),
            ..self
        }.woken()
    }
}

/// What is wrong with asking for a signal of a component that was mounted before.
pub open spec fn hook_fault<V>(
    component: Seq<char>,
    slots: Seq<SignalSlot<V>>,
    cursor: nat,
    kind: u64,
    kind_name: Seq<char>,
    site: u32,
) -> Option<RenderErrorModel> {
    if cursor >= slots.len() {
        Some(
            RenderErrorModel::HookCountMismatch {
                component,
                expected: slots.len(),
                observed: cursor + 1,
            },
        )
    } else if slots[cursor as int].kind != kind {
        Some(
            RenderErrorModel::HookTypeMismatch {
                component,
                slot: cursor,
                expected: slots[cursor as int].kind_name@,
                observed: kind_name,
            },
        )
    } else if slots[cursor as int].site != site {
        Some(
            RenderErrorModel::HookLocationMismatch {
                component,
                slot: cursor,
                expected: slots[cursor as int].site,
                observed: site,
            },
        )
    } else {
        None
    }
}

/// What is wrong with a component once it was rendered: what its code reports, else
/// the first fault of its signals, else that it asked for too few.
pub open spec fn component_fault<V>(
    scope: RenderScopeModel<V>,
    slots: Seq<SignalSlot<V>>,
    rendered: Option<RenderErrorModel>,
) -> Option<RenderErrorModel> {
    if rendered is Some {
        rendered
    } else if scope.fault is Some {
        scope.fault
    } else if scope.fresh is None && scope.cursor != slots.len() {
        Some(
            RenderErrorModel::HookCountMismatch {
                component: scope.component,
                expected: slots.len(),
                observed: scope.cursor,
            },
        )
    } else {
        None
    }
}

/// The signals of the mounted components.
#[derive(Debug)]
pub struct SignalRuntime<V> {
    pub(crate) active: bool,
    pub(crate) next_generation: u64,
    pub(crate) components: Table<MountedSignalComponent<V>>,
    pub(crate) render: Option<RenderState<V>>,
    pub(crate) dirty: bool,
    pub(crate) dirty_components: Table<()>,
    pub(crate) wake_revision: u64,
}

impl<V> View for SignalRuntime<V> {
    type V = RuntimeModel<V>;

    open(crate) spec fn view(&self) -> RuntimeModel<V> {
        RuntimeModel {
            active: self.active,
            next_generation: self.next_generation,
            components: self.components@,
            render: optional_render(self.render),
            dirty: self.dirty,
            dirty_components: self.dirty_components@.dom(),
            wake_revision: self.wake_revision,
        }
    }
}

impl<V> SignalRuntime<V> {
    #[verifier::type_invariant]
    pub(crate) open(crate) spec fn inv(self) -> bool {
        is_sound(self@)
    }

    /// A runtime without components, which waits for its first render.
    pub fn new() -> (runtime: Self)
        ensures
            runtime@ == (RuntimeModel::<V> {
                active: true,
                next_generation: 1,
                components: Map::empty(),
                render: None,
                dirty: true,
                dirty_components: Set::empty(),
                wake_revision: 0,
            }),
    {
        let runtime = Self {
            active: true,
            next_generation: 1,
            components: Table::new(),
            render: None,
            dirty: true,
            dirty_components: Table::new(),
            wake_revision: 0,
        };
        assert(runtime@.dirty_components =~= Set::empty());
        runtime
    }

    /// What holds at all times.
    pub fn assure(&self)
        ensures
            is_sound(self@),
    {
        proof {
            use_type_invariant(self);
        }
    }

    fn take_out(&mut self) -> (taken: Self)
        ensures
            taken@ == old(self)@,
    {
        let mut taken = SignalRuntime::new();
        std::mem::swap(&mut taken, self);
        taken
    }

    pub fn is_dirty(&self) -> (dirty: bool)
        ensures
            dirty == self@.dirty,
    {
        self.dirty
    }

    /// Whether a render was asked for since the last time.
    pub fn take_dirty(&mut self) -> (dirty: bool)
        ensures
            dirty == old(self)@.dirty,
            final(self)@ == (RuntimeModel { dirty: false, ..old(self)@ }),
    {
        proof {
            use_type_invariant(&*self);
        }
        let dirty = self.dirty;
        self.dirty = false;
        dirty
    }

    pub fn wake_revision(&self) -> (revision: u64)
        ensures
            revision == self@.wake_revision,
    {
        self.wake_revision
    }

    pub fn mounted_components(&self) -> (count: usize)
        ensures
            self@.components.dom().finite(),
            count == self@.components.len(),
    {
        self.components.len()
    }

    pub fn is_component_dirty(&self, component: &ComponentId) -> (dirty: bool)
        ensures
            dirty == self@.dirty_components.contains(component@),
    {
        self.dirty_components.contains(component.as_str())
    }

    /// Asks for a render.
    pub fn mark_dirty(&mut self)
        ensures
            final(self)@ == old(self)@.woken(),
    {
        proof {
            use_type_invariant(&*self);
        }
        self.dirty = true;
        self.wake_revision = self.wake_revision.wrapping_add(1);
    }

    /// Ends the runtime: no signal can be used any more.
    pub fn deactivate(&mut self)
        ensures
            final(self)@ == (RuntimeModel { active: false, ..old(self)@ }),
    {
        proof {
            use_type_invariant(&*self);
        }
        self.active = false;
    }

    fn is_active_signal(&self, signal: &Signal) -> (active: bool)
        ensures
            active == self@.is_active_signal(signal@),
    {
        match self.components.get(signal.component.as_str()) {
            Some(mounted) => mounted.generation == signal.generation && signal.slot
                < mounted.slots.len(),
            None => false,
        }
    }

    fn is_pending_signal(&self, signal: &Signal) -> (pending: bool)
        ensures
            pending == self@.is_pending_signal(signal@),
    {
        match &self.render {
            None => false,
            Some(render) => {
                let staged = match render.fresh.get(signal.component.as_str()) {
                    Some(mounted) => mounted.generation == signal.generation && signal.slot
                        < mounted.slots.len(),
                    None => false,
                };
                staged || match &render.scope {
                    Some(scope) => match &scope.fresh {
                        Some(mounted) => scope.component == signal.component && scope.generation
                            == signal.generation && signal.slot < mounted.slots.len(),
                        None => false,
                    },
                    None => false,
                }
            },
        }
    }

    fn reentrant(signal: &Signal) -> (error: SignalAccessError)
        ensures
            error@ == (AccessErrorModel::ReentrantAccess {
                component: signal@.component,
                slot: signal@.slot,
            }),
    {
        SignalAccessError::ReentrantAccess {
            component: signal.component.as_str().to_owned(),
            slot: signal.slot,
        }
    }

    fn check_access(&self, signal: &Signal, caller: Caller) -> (result: Result<
        (),
        SignalAccessError,
    >)
        ensures
            match result {
                Ok(_) => self@.access_fault(signal@, caller) is None,
                Err(error) => self@.access_fault(signal@, caller) == Some(error@),
            },
    {
        if caller.renders {
            if !self.active {
                return Err(SignalAccessError::RuntimeInactive);
            }
            if !self.is_active_signal(signal) && !self.is_pending_signal(signal) {
                return Err(SignalAccessError::Stale);
            }
            if caller.in_callback {
                return Err(Self::reentrant(signal));
            }
            return Ok(());
        }
        if caller.in_callback {
            return Err(Self::reentrant(signal));
        }
        if !self.active {
            return Err(SignalAccessError::RuntimeInactive);
        }
        if !self.is_active_signal(signal) {
            return Err(SignalAccessError::Stale);
        }
        Ok(())
    }

    fn slot(&self, signal: &Signal) -> (slot: &SignalSlot<V>)
        requires
            self@.is_active_signal(signal@) || self@.is_pending_signal(signal@),
        ensures
            *slot == self@.slot_of(signal@),
    {
        if self.is_active_signal(signal) {
            return match self.components.get(signal.component.as_str()) {
                Some(mounted) => &mounted.slots[signal.slot],
                None => vstd::pervasive::unreached(),
            };
        }
        match &self.render {
            None => vstd::pervasive::unreached(),
            Some(render) => {
                match render.fresh.get(signal.component.as_str()) {
                    Some(mounted) => {
                        if mounted.generation == signal.generation && signal.slot
                            < mounted.slots.len() {
                            return &mounted.slots[signal.slot];
                        }
                    },
                    None => {},
                }
                match &render.scope {
                    Some(scope) => match &scope.fresh {
                        Some(mounted) => &mounted.slots[signal.slot],
                        None => vstd::pervasive::unreached(),
                    },
                    None => vstd::pervasive::unreached(),
                }
            },
        }
    }

    fn check_read(&self, signal: &Signal, caller: Caller) -> (result: Result<
        (),
        SignalAccessError,
    >)
        ensures
            match result {
                Ok(_) => self@.read_fault(signal@, caller) is None,
                Err(error) => self@.read_fault(signal@, caller) == Some(error@),
            },
    {
        match self.check_access(signal, caller) {
            Ok(_) => {},
            Err(error) => return Err(error),
        }
        if self.slot(signal).poisoned {
            return Err(
                SignalAccessError::StatePoisoned {
                    component: signal.component.as_str().to_owned(),
                    slot: signal.slot,
                },
            );
        }
        Ok(())
    }

    fn check_write(&self, signal: &Signal, caller: Caller) -> (result: Result<
        (),
        SignalAccessError,
    >)
        ensures
            match result {
                Ok(_) => self@.write_fault(signal@, caller) is None,
                Err(error) => self@.write_fault(signal@, caller) == Some(error@),
            },
    {
        if !caller.renders {
            return self.check_read(signal, caller);
        }
        match self.check_access(signal, Caller { renders: true, in_callback: false }) {
            Ok(_) => Err(Self::write_during_render(signal)),
            Err(error) => Err(error),
        }
    }

    /// The value of a signal.
    pub fn read(&self, signal: &Signal, caller: Caller) -> (result: Result<&V, SignalAccessError>)
        ensures
            match result {
                Ok(value) => {
                    &&& self@.read_fault(signal@, caller) is None
                    &&& *value == self@.slot_of(signal@).value
                },
                Err(error) => self@.read_fault(signal@, caller) == Some(error@),
            },
    {
        match self.check_read(signal, caller) {
            Ok(_) => Ok(&self.slot(signal).value),
            Err(error) => Err(error),
        }
    }

    /// Changes the value of a mounted signal, and whether it can be used. Its component
    /// asks for a render.
    fn change_slot<R, F: FnOnce(&mut V) -> R>(
        &mut self,
        signal: &Signal,
        poisoned: bool,
        change: F,
    ) -> (answer: R)
        requires
            old(self)@.is_active_signal(signal@),
            forall|value: &mut V|
                *value == old(self)@.slot_of(signal@).value ==> #[trigger] change.requires(
                    (value,),
                ),
        ensures
            exists|value: &mut V|
                *value == old(self)@.slot_of(signal@).value && #[trigger] change.ensures(
                    (value,),
                    answer,
                ) && slot_changed(
                    old(self)@,
                    final(self)@,
                    signal@,
                    filled(old(self)@.slot_of(signal@), *final(value), poisoned),
                ),
    {
        proof {
            use_type_invariant(&*self);
        }
        let ghost before = self@;
        let taken = self.take_out();
        let SignalRuntime {
            active,
            next_generation,
            components,
            render,
            dirty: _,
            dirty_components,
            wake_revision,
        } = taken;
        let mut components = components;
        let mut dirty_components = dirty_components;
        let mounted = match components.remove(signal.component.as_str()) {
            Some(mounted) => mounted,
            None => vstd::pervasive::unreached(),
        };
        let MountedSignalComponent { generation, slots } = mounted;
        let mut slots = slots;
        let ghost slots_before = slots@;
        let slot = &mut slots[signal.slot];
        let answer = change(&mut slot.value);
        slot.poisoned = poisoned;
        proof {
            let at = signal.slot as int;
            assert(exists|value: &mut V|
                *value == slots_before[at].value && #[trigger] change.ensures((value,), answer)
                    && slots@ == slots_before.update(
                    at,
                    filled(slots_before[at], *final(value), poisoned),
                ));
        }
        let mounted = MountedSignalComponent { generation, slots };
        let ghost now = mounted;
        components.insert(signal.component.as_str(), mounted);
        dirty_components.insert(signal.component.as_str(), ());
        proof {
            assert(components@ =~= before.components.insert(signal@.component, now));
            assert(components@.dom() =~= before.components.dom());
            assert(dirty_components@.dom() =~= before.dirty_components.insert(signal@.component));
        }
        *self = SignalRuntime {
            active,
            next_generation,
            components,
            render,
            dirty: true,
            dirty_components,
            wake_revision: wake_revision.wrapping_add(1),
        };
        answer
    }

    /// Records that a callback panicked while it changed a mounted signal: its value
    /// cannot be used any more. Its component asks for a render.
    pub fn mark_poisoned(&mut self, signal: &Signal)
        requires
            old(self)@.is_active_signal(signal@),
        ensures
            slot_changed(
                old(self)@,
                final(self)@,
                signal@,
                filled(old(self)@.slot_of(signal@), old(self)@.slot_of(signal@).value, true),
            ),
    {
        let keep = |value: &mut V| -> (done: ())
            ensures
                *final(value) == *old(value),
            {};
        self.change_slot(signal, true, keep);
    }

    fn write_during_render(signal: &Signal) -> (error: SignalAccessError)
        ensures
            error@ == (AccessErrorModel::WriteDuringRender {
                component: signal@.component,
                slot: signal@.slot,
            }),
    {
        SignalAccessError::WriteDuringRender {
            component: signal.component.as_str().to_owned(),
            slot: signal.slot,
        }
    }
}

/// A slot with another value, which can be used or not.
pub open spec fn filled<V>(slot: SignalSlot<V>, value: V, poisoned: bool) -> SignalSlot<V> {
    SignalSlot { value, poisoned, ..slot }
}

/// Whether one slot of a component was changed and nothing else.
pub open spec fn written<V>(
    before: MountedSignalComponent<V>,
    after: MountedSignalComponent<V>,
    at: int,
    slot: SignalSlot<V>,
) -> bool {
    &&& after.generation == before.generation
    &&& after.slots@ == before.slots@.update(at, slot)
}

/// Whether the slot of a mounted signal was changed to `slot`, which makes its component
/// ask for a render, and nothing else.
pub open spec fn slot_changed<V>(
    before: RuntimeModel<V>,
    after: RuntimeModel<V>,
    signal: SignalModel,
    slot: SignalSlot<V>,
) -> bool {
    &&& after == (RuntimeModel {
        components: after.components,
        dirty_components: before.dirty_components.insert(signal.component),
        ..before
    }).woken()
    &&& after.components.dom() == before.components.dom()
    &&& forall|component: Seq<char>| #[trigger]
        before.components.contains_key(component) && component != signal.component
            ==> after.components[component] == before.components[component]
    &&& written(
        before.components[signal.component],
        after.components[signal.component],
        signal.slot as int,
        slot,
    )
}

impl Signal {
    /// What `read` makes of the value of the signal.
    pub fn with<V, R, F: FnOnce(&V) -> R>(
        &self,
        runtime: &SignalRuntime<V>,
        caller: Caller,
        read: F,
    ) -> (result: Result<R, SignalAccessError>)
        requires
            runtime@.read_fault(self@, caller) is None ==> read.requires(
                (&runtime@.slot_of(self@).value,),
            ),
        ensures
            match result {
                Ok(answer) => {
                    &&& runtime@.read_fault(self@, caller) is None
                    &&& read.ensures((&runtime@.slot_of(self@).value,), answer)
                },
                Err(error) => runtime@.read_fault(self@, caller) == Some(error@),
            },
    {
        match runtime.read(self, caller) {
            Ok(value) => Ok(read(value)),
            Err(error) => Err(error),
        }
    }

    /// Replaces the value of the signal. Its component asks for a render.
    pub fn set<V>(&self, runtime: &mut SignalRuntime<V>, caller: Caller, next: V) -> (result:
        Result<(), SignalAccessError>)
        ensures
            match result {
                Ok(_) => {
                    &&& old(runtime)@.write_fault(self@, caller) is None
                    &&& slot_changed(
                        old(runtime)@,
                        final(runtime)@,
                        self@,
                        filled(old(runtime)@.slot_of(self@), next, false),
                    )
                },
                Err(error) => {
                    &&& old(runtime)@.write_fault(self@, caller) == Some(error@)
                    &&& final(runtime)@ == old(runtime)@
                },
            },
    {
        match runtime.check_write(self, caller) {
            Ok(_) => {},
            Err(error) => return Err(error),
        }
        let replace = |value: &mut V| -> (done: ())
            ensures
                *final(value) == next,
            {
                *value = next;
            };
        runtime.change_slot(self, false, replace);
        Ok(())
    }

    /// Changes the value of the signal in place. Its component asks for a render.
    pub fn update<V, R, F: FnOnce(&mut V) -> R>(
        &self,
        runtime: &mut SignalRuntime<V>,
        caller: Caller,
        update: F,
    ) -> (result: Result<R, SignalAccessError>)
        requires
            old(runtime)@.write_fault(self@, caller) is None ==> forall|value: &mut V|
                *value == old(runtime)@.slot_of(self@).value ==> #[trigger] update.requires(
                    (value,),
                ),
        ensures
            match result {
                Ok(_) => old(runtime)@.write_fault(self@, caller) is None,
                Err(error) => {
                    &&& old(runtime)@.write_fault(self@, caller) == Some(error@)
                    &&& final(runtime)@ == old(runtime)@
                },
            },
            result is Ok ==> exists|value: &mut V|
                *value == old(runtime)@.slot_of(self@).value && #[trigger] update.ensures(
                    (value,),
                    result->Ok_0,
                ) && slot_changed(
                    old(runtime)@,
                    final(runtime)@,
                    self@,
                    filled(old(runtime)@.slot_of(self@), *final(value), false),
                ),
    {
        match runtime.check_write(self, caller) {
            Ok(_) => {},
            Err(error) => return Err(error),
        }
        let answer = runtime.change_slot(self, false, update);
        let made: Result<R, SignalAccessError> = Ok(answer);
        assert(made->Ok_0 == answer);
        made
    }
}

impl<V> SignalRuntime<V> {
    /// Whether a render may begin.
    pub fn preflight_render(&self, caller: Caller) -> (result: Result<(), SignalRenderError>)
        ensures
            match result {
                Ok(_) => self@.render_fault(caller) is None,
                Err(error) => self@.render_fault(caller) == Some(error@),
            },
    {
        if !self.active {
            return Err(SignalRenderError::RuntimeInactive);
        }
        if caller.renders {
            return Err(SignalRenderError::NestedRender);
        }
        if caller.in_callback {
            return Err(SignalRenderError::CallbackReentry);
        }
        Ok(())
    }

    /// Begins a render. One render is under way at a time.
    pub fn begin_render(&mut self, caller: Caller) -> (result: Result<(), SignalRenderError>)
        requires
            old(self)@.render is None || old(self)@.render_fault(caller) is Some,
        ensures
            match result {
                Ok(_) => {
                    &&& old(self)@.render_fault(caller) is None
                    &&& final(self)@ == old(self)@.rendering(
                        RenderModel {
                            retained: Set::empty(),
                            fresh: Map::empty(),
                            scope: None,
                        },
                    )
                },
                Err(error) => {
                    &&& old(self)@.render_fault(caller) == Some(error@)
                    &&& final(self)@ == old(self)@
                },
            },
    {
        match self.preflight_render(caller) {
            Ok(_) => {},
            Err(error) => return Err(error),
        }
        proof {
            use_type_invariant(&*self);
        }
        let retained: Table<()> = Table::new();
        assert(retained@.dom() =~= Set::empty());
        self.render = Some(RenderState { retained, fresh: Table::new(), scope: None });
        Ok(())
    }

    /// Whether a component is mounted or can still get a number of its own.
    pub fn can_mount(&self, component: &ComponentId) -> (possible: bool)
        ensures
            possible == self@.can_mount(component@),
    {
        self.components.contains(component.as_str()) || self.next_generation < u64::MAX
    }

    /// Begins to render a component. One that is not mounted gets a number of its own.
    pub fn begin_component(&mut self, component: &ComponentId) -> (result: Result<
        (),
        SignalRenderError,
    >)
        requires
            old(self)@.render is Some,
            old(self)@.render->Some_0.scope is None,
            old(self)@.can_mount(component@),
        ensures
            ({
                let before = old(self)@;
                let render = before.render->Some_0;
                if render.retained.contains(component@) || render.fresh.contains_key(component@) {
                    &&& result is Err
                    &&& result->Err_0@ == (RenderErrorModel::DuplicateComponent {
                        component: component@,
                    })
                    &&& final(self)@ == before
                } else if before.components.contains_key(component@) {
                    &&& result is Ok
                    &&& final(self)@ == before.rendering(
                        RenderModel {
                            scope: Some(
                                RenderScopeModel {
                                    component: component@,
                                    generation: before.components[component@].generation,
                                    fresh: None,
                                    cursor: 0,
                                    fault: None,
                                },
                            ),
                            ..render
                        },
                    )
                } else {
                    let mounted = final(self)@.render->Some_0.scope->Some_0.fresh->Some_0;
                    &&& result is Ok
                    &&& mounted.generation == before.next_generation
                    &&& mounted.slots@ == Seq::<SignalSlot<V>>::empty()
                    &&& final(self)@ == (RuntimeModel {
                        next_generation: (before.next_generation + 1) as u64,
                        ..before.rendering(
                            RenderModel {
                                scope: Some(
                                    RenderScopeModel {
                                        component: component@,
                                        generation: before.next_generation,
                                        fresh: Some(mounted),
                                        cursor: 0,
                                        fault: None,
                                    },
                                ),
                                ..render
                            },
                        )
                    })
                }
            }),
    {
        proof {
            use_type_invariant(&*self);
        }
        let name = component.as_str();
        let rendered = match &self.render {
            Some(render) => render.retained.contains(name) || render.fresh.contains(name),
            None => vstd::pervasive::unreached(),
        };
        if rendered {
            return Err(SignalRenderError::DuplicateComponent { component: name.to_owned() });
        }
        let taken = self.take_out();
        let SignalRuntime {
            active,
            next_generation,
            components,
            render,
            dirty,
            dirty_components,
            wake_revision,
        } = taken;
        let (retained, fresh) = match render {
            Some(RenderState { retained, fresh, scope: _ }) => (retained, fresh),
            None => vstd::pervasive::unreached(),
        };
        let mounted: Option<u64> = match components.get(name) {
            Some(mounted) => Some(mounted.generation),
            None => None,
        };
        let (scope, next_generation): (RenderScope<V>, u64) = match mounted {
            Some(generation) => (
                RenderScope {
                    component: component.clone(),
                    generation,
                    fresh: None,
                    cursor: 0,
                    fault: None,
                },
                next_generation,
            ),
            None => (
                RenderScope {
                    component: component.clone(),
                    generation: next_generation,
                    fresh: Some(
                        MountedSignalComponent { generation: next_generation, slots: Vec::new() },
                    ),
                    cursor: 0,
                    fault: None,
                },
                next_generation + 1,
            ),
        };
        *self = SignalRuntime {
            active,
            next_generation,
            components,
            render: Some(RenderState { retained, fresh, scope: Some(scope) }),
            dirty,
            dirty_components,
            wake_revision,
        };
        Ok(())
    }

    /// Asks for the next signal of the component under way. A component that was not
    /// mounted before creates it; another has to ask for it as it did before. After a
    /// fault nothing is handed out.
    pub fn use_signal<F: FnOnce() -> V>(
        &mut self,
        kind: u64,
        kind_name: &str,
        site: u32,
        initialize: F,
    ) -> (result: Result<Signal, SignalRenderError>)
        requires
            old(self)@.render is Some,
            old(self)@.render->Some_0.scope is Some,
            old(self)@.render->Some_0.scope->Some_0.cursor < usize::MAX,
            initialize.requires(()),
        ensures
            ({
                let before = old(self)@;
                let render = before.render->Some_0;
                let scope = render.scope->Some_0;
                let fault = hook_fault(
                    scope.component,
                    before.expected_slots(),
                    scope.cursor,
                    kind,
                    kind_name@,
                    site,
                );
                let advanced = final(self)@.render->Some_0.scope->Some_0;
                if scope.fault is Some {
                    &&& result is Err
                    &&& Some(result->Err_0@) == scope.fault
                    &&& final(self)@ == before
                } else if scope.fresh is None && fault is Some {
                    &&& result is Err
                    &&& Some(result->Err_0@) == fault
                    &&& final(self)@ == before.rendering(
                        RenderModel {
                            scope: Some(RenderScopeModel { fault, ..scope }),
                            ..render
                        },
                    )
                } else {
                    &&& result is Ok
                    &&& result->Ok_0@ == (SignalModel {
                        component: scope.component,
                        generation: scope.generation,
                        slot: scope.cursor,
                    })
                    &&& final(self)@ == before.rendering(
                        RenderModel {
                            scope: Some(
                                RenderScopeModel {
                                    cursor: scope.cursor + 1,
                                    fresh: advanced.fresh,
                                    ..scope
                                },
                            ),
                            ..render
                        },
                    )
                    &&& match (scope.fresh, advanced.fresh) {
                        (None, None) => true,
                        (Some(from), Some(to)) => {
                            let slot = to.slots@.last();
                            &&& to.generation == from.generation
                            &&& to.slots@ == from.slots@.push(slot)
                            &&& slot.kind == kind
                            &&& slot.kind_name@ == kind_name@
                            &&& slot.site == site
                            &&& !slot.poisoned
                            &&& initialize.ensures((), slot.value)
                        },
                        _ => false,
                    }
                }
            }),
    {
        proof {
            use_type_invariant(&*self);
        }
        let taken = self.take_out();
        let SignalRuntime {
            active,
            next_generation,
            components,
            render,
            dirty,
            dirty_components,
            wake_revision,
        } = taken;
        let (retained, fresh, scope) = match render {
            Some(RenderState { retained, fresh, scope: Some(scope) }) => (retained, fresh, scope),
            _ => vstd::pervasive::unreached(),
        };
        let mut scope = scope;
        let result = match &scope.fault {
            Some(fault) => Err(fault.clone()),
            None => {
                let slot: usize = scope.cursor;
                match scope.fresh {
                    Some(mounted) => {
                        let MountedSignalComponent { generation, slots } = mounted;
                        let mut slots = slots;
                        slots.push(
                            SignalSlot {
                                kind,
                                kind_name: kind_name.to_owned(),
                                site,
                                value: initialize(),
                                poisoned: false,
                            },
                        );
                        scope.fresh = Some(MountedSignalComponent { generation, slots });
                        scope.cursor = slot + 1;
                        Ok(
                            Signal {
                                component: scope.component.clone(),
                                generation: scope.generation,
                                slot,
                            },
                        )
                    },
                    None => {
                        let mounted = match components.get(scope.component.as_str()) {
                            Some(mounted) => mounted,
                            None => vstd::pervasive::unreached(),
                        };
                        match Self::check_hook(
                            &scope.component,
                            &mounted.slots,
                            slot,
                            kind,
                            kind_name,
                            site,
                        ) {
                            Some(fault) => {
                                scope.fault = Some(fault.clone());
                                Err(fault)
                            },
                            None => {
                                scope.cursor = slot + 1;
                                Ok(
                                    Signal {
                                        component: scope.component.clone(),
                                        generation: scope.generation,
                                        slot,
                                    },
                                )
                            },
                        }
                    },
                }
            },
        };
        *self = SignalRuntime {
            active,
            next_generation,
            components,
            render: Some(RenderState { retained, fresh, scope: Some(scope) }),
            dirty,
            dirty_components,
            wake_revision,
        };
        result
    }

    fn check_hook(
        component: &ComponentId,
        slots: &Vec<SignalSlot<V>>,
        cursor: usize,
        kind: u64,
        kind_name: &str,
        site: u32,
    ) -> (fault: Option<SignalRenderError>)
        requires
            cursor < usize::MAX,
        ensures
            optional_fault(fault) == hook_fault(
                component@,
                slots@,
                cursor as nat,
                kind,
                kind_name@,
                site,
            ),
    {
        if cursor >= slots.len() {
            return Some(
                SignalRenderError::HookCountMismatch {
                    component: component.as_str().to_owned(),
                    expected: slots.len(),
                    observed: cursor + 1,
                },
            );
        }
        let slot = &slots[cursor];
        if slot.kind != kind {
            return Some(
                SignalRenderError::HookTypeMismatch {
                    component: component.as_str().to_owned(),
                    slot: cursor,
                    expected: slot.kind_name.clone(),
                    observed: kind_name.to_owned(),
                },
            );
        }
        if slot.site != site {
            return Some(
                SignalRenderError::HookLocationMismatch {
                    component: component.as_str().to_owned(),
                    slot: cursor,
                    expected: slot.site,
                    observed: site,
                },
            );
        }
        None
    }

    /// Ends the component under way. `rendered` is what its code reports. A component
    /// with a fault is left out of the render, and what it created is gone.
    pub fn end_component(&mut self, rendered: Result<(), SignalRenderError>) -> (result: Result<
        (),
        SignalRenderError,
    >)
        requires
            old(self)@.render is Some,
            old(self)@.render->Some_0.scope is Some,
        ensures
            ({
                let before = old(self)@;
                let render = before.render->Some_0;
                let scope = render.scope->Some_0;
                let reported = match rendered {
                    Ok(_) => None,
                    Err(error) => Some(error@),
                };
                match component_fault(scope, before.expected_slots(), reported) {
                    Some(fault) => {
                        &&& result is Err
                        &&& result->Err_0@ == fault
                        &&& final(self)@ == before.rendering(RenderModel { scope: None, ..render })
                    },
                    None => {
                        &&& result is Ok
                        &&& final(self)@ == before.rendering(
                            match scope.fresh {
                                Some(mounted) => RenderModel {
                                    fresh: render.fresh.insert(scope.component, mounted),
                                    scope: None,
                                    ..render
                                },
                                None => RenderModel {
                                    retained: render.retained.insert(scope.component),
                                    scope: None,
                                    ..render
                                },
                            },
                        )
                    },
                }
            }),
    {
        proof {
            use_type_invariant(&*self);
        }
        let taken = self.take_out();
        let SignalRuntime {
            active,
            next_generation,
            components,
            render,
            dirty,
            dirty_components,
            wake_revision,
        } = taken;
        let (retained, fresh, scope) = match render {
            Some(RenderState { retained, fresh, scope: Some(scope) }) => (retained, fresh, scope),
            _ => vstd::pervasive::unreached(),
        };
        let mut retained = retained;
        let mut fresh = fresh;
        let ghost was_retained = retained@.dom();
        let RenderScope { component, generation: _, fresh: mounted, cursor, fault } = scope;
        let fault: Option<SignalRenderError> = match rendered {
            Err(error) => Some(error),
            Ok(_) => match fault {
                Some(fault) => Some(fault),
                None => match &mounted {
                    Some(_) => None,
                    None => match components.get(component.as_str()) {
                        Some(known) => if cursor != known.slots.len() {
                            Some(
                                SignalRenderError::HookCountMismatch {
                                    component: component.as_str().to_owned(),
                                    expected: known.slots.len(),
                                    observed: cursor,
                                },
                            )
                        } else {
                            None
                        },
                        None => vstd::pervasive::unreached(),
                    },
                },
            },
        };
        let result = match fault {
            Some(fault) => Err(fault),
            None => {
                match mounted {
                    Some(mounted) => {
                        fresh.insert(component.as_str(), mounted);
                    },
                    None => {
                        retained.insert(component.as_str(), ());
                        assert(retained@.dom() =~= was_retained.insert(component@));
                    },
                }
                Ok(())
            },
        };
        *self = SignalRuntime {
            active,
            next_generation,
            components,
            render: Some(RenderState { retained, fresh, scope: None }),
            dirty,
            dirty_components,
            wake_revision,
        };
        result
    }

    /// Puts the render into effect.
    pub fn commit(&mut self)
        requires
            old(self)@.render is Some,
            old(self)@.render->Some_0.scope is None,
        ensures
            final(self)@ == old(self)@.committed(),
    {
        proof {
            use_type_invariant(&*self);
        }
        let ghost before = self@;
        let taken = self.take_out();
        let SignalRuntime {
            active,
            next_generation,
            components,
            render,
            dirty: _,
            dirty_components: _,
            wake_revision,
        } = taken;
        let (retained, fresh) = match render {
            Some(RenderState { retained, fresh, scope: _ }) => (retained, fresh),
            None => vstd::pervasive::unreached(),
        };
        let mut components = components;
        components.retain_keys(&retained);
        components.merge(fresh);
        let dirty_components: Table<()> = Table::new();
        assert(dirty_components@.dom() =~= Set::empty());
        *self = SignalRuntime {
            active,
            next_generation,
            components,
            render: None,
            dirty: false,
            dirty_components,
            wake_revision,
        };
    }

    /// Drops the render: what was mounted stays as it was, and what was created is
    /// gone.
    pub fn abandon(&mut self)
        ensures
            final(self)@ == (RuntimeModel { render: None, ..old(self)@ }),
    {
        proof {
            use_type_invariant(&*self);
        }
        self.render = None;
    }

    fn check_invalidation(&self, caller: Caller) -> (result: Result<(), SignalRenderError>)
        ensures
            match result {
                Ok(_) => self@.invalidation_fault(caller) is None,
                Err(error) => self@.invalidation_fault(caller) == Some(error@),
            },
    {
        if caller.renders {
            return Err(SignalRenderError::NestedRender);
        }
        if caller.in_callback {
            return Err(SignalRenderError::CallbackReentry);
        }
        if !self.active {
            return Err(SignalRenderError::RuntimeInactive);
        }
        Ok(())
    }

    /// Drops every mount. All signals are stale, and a render is asked for.
    pub fn invalidate_all(&mut self, caller: Caller) -> (result: Result<(), SignalRenderError>)
        requires
            old(self)@.render is None || old(self)@.invalidation_fault(caller) is Some,
        ensures
            match result {
                Ok(_) => {
                    &&& old(self)@.invalidation_fault(caller) is None
                    &&& final(self)@ == old(self)@.invalidated()
                },
                Err(error) => {
                    &&& old(self)@.invalidation_fault(caller) == Some(error@)
                    &&& final(self)@ == old(self)@
                },
            },
    {
        match self.check_invalidation(caller) {
            Ok(_) => {},
            Err(error) => return Err(error),
        }
        proof {
            use_type_invariant(&*self);
        }
        let dirty_components: Table<()> = Table::new();
        assert(dirty_components@.dom() =~= Set::empty());
        self.components = Table::new();
        self.dirty_components = dirty_components;
        self.mark_dirty();
        Ok(())
    }

    /// Drops the mount of a component, so that the next render mounts it anew. Says
    /// whether it was mounted.
    pub fn remount_component(&mut self, component: &ComponentId, caller: Caller) -> (result: Result<
        bool,
        SignalRenderError,
    >)
        requires
            old(self)@.render is None || old(self)@.invalidation_fault(caller) is Some,
        ensures
            match result {
                Ok(removed) => {
                    &&& old(self)@.invalidation_fault(caller) is None
                    &&& removed == old(self)@.components.contains_key(component@)
                    &&& final(self)@ == if removed {
                        old(self)@.unmounted(component@)
                    } else {
                        old(self)@
                    }
                },
                Err(error) => {
                    &&& old(self)@.invalidation_fault(caller) == Some(error@)
                    &&& final(self)@ == old(self)@
                },
            },
    {
        match self.check_invalidation(caller) {
            Ok(_) => {},
            Err(error) => return Err(error),
        }
        if !self.components.contains(component.as_str()) {
            return Ok(false);
        }
        proof {
            use_type_invariant(&*self);
        }
        let ghost before = self@;
        let taken = self.take_out();
        let SignalRuntime {
            active,
            next_generation,
            components,
            render,
            dirty: _,
            dirty_components,
            wake_revision,
        } = taken;
        let mut components = components;
        let mut dirty_components = dirty_components;
        let removed = components.remove(component.as_str());
        let cleared = dirty_components.remove(component.as_str());
        assert(dirty_components@.dom() =~= before.dirty_components.remove(component@));
        *self = SignalRuntime {
            active,
            next_generation,
            components,
            render,
            dirty: true,
            dirty_components,
            wake_revision: wake_revision.wrapping_add(1),
        };
        Ok(true)
    }
}

} // verus!
