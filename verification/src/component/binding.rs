//! Binding instances and provider dispatchers: what the host implements, and what
//! goes wrong with it.

use core::marker::PhantomData;
use vstd::prelude::*;
use crate::component::channel_map::{map_provider_update, update_mapped, ChannelMap};
use crate::component::channels::{LaneUpdate, StreamUpdate, TurnChannels, TurnEmission};
use crate::component::channels::UpdateModel;
use crate::component::identity::{AttemptModel, BindingId, BindingIdModel, HarnessEpochId};
use crate::component::identity::{LiveScopeId, ProviderAttemptId, ProviderAttemptIdentity};
use crate::component::identity::TurnInstanceId;
use crate::component::maker::Maker;
use crate::component::mount::{MountedBindingFactory, MountedProviderCapability};
use crate::component::registry::{ProviderDispatcherRegistryError, RegistryErrorModel};
use crate::component::tools::{spec_models, ProviderToolResponse, ProviderToolSpec};
use crate::component::tools::{ResponseModel, RouteModel, RuntimeRoute, ToolSpecModel};

verus! {

/// What the author of a binding reports as its failure.
#[derive(Debug)]
pub struct BindingFailure<E> {
    pub(crate) source: E,
}

impl<E> BindingFailure<E> {
    /// The reported error.
    pub open(crate) spec fn error(self) -> E {
        self.source
    }

    pub fn new(error: E) -> (failure: Self)
        ensures
            failure.error() == error,
    {
        Self { source: error }
    }

    pub fn source_error(&self) -> (error: &E)
        ensures
            *error == self.error(),
    {
        &self.source
    }
}

/// What the author of a dispatcher reports as its failure.
#[derive(Debug)]
pub struct ProviderDispatchFailure<E> {
    pub(crate) source: E,
}

impl<E> ProviderDispatchFailure<E> {
    /// The reported error.
    pub open(crate) spec fn error(self) -> E {
        self.source
    }

    pub fn new(error: E) -> (failure: Self)
        ensures
            failure.error() == error,
    {
        Self { source: error }
    }

    pub fn source_error(&self) -> (error: &E)
        ensures
            *error == self.error(),
    {
        &self.source
    }
}

/// What a binding fault of a stream comes from.
#[derive(Debug)]
#[allow(inconsistent_fields)]
pub enum BindingErrorSource<E> {
    /// The author's code reported it.
    Author(E),
    /// The stream ended within the binding's XML tag.
    IncompleteRegisteredXml { tag: String },
}

/// When a binding was at work.
#[derive(Debug, Clone, Copy, PartialEq, Eq, Structural)]
#[non_exhaustive]
pub enum BindingPhase {
    Initialize,
    Open,
    Stream,
    Complete,
    Dispatch,
    Finish,
    Finalize,
}

/// The name of a phase.
pub open spec fn phase_name(phase: BindingPhase) -> Seq<char> {
    match phase {
        BindingPhase::Initialize => "initialize"@,
        BindingPhase::Open => "open"@,
        BindingPhase::Stream => "stream"@,
        BindingPhase::Complete => "complete"@,
        BindingPhase::Dispatch => "dispatch"@,
        BindingPhase::Finish => "finish"@,
        BindingPhase::Finalize => "finalize"@,
    }
}

impl BindingPhase {
    pub fn as_str(&self) -> (name: &'static str)
        ensures
            name@ == phase_name(*self),
    {
        match self {
            BindingPhase::Initialize => "initialize",
            BindingPhase::Open => "open",
            BindingPhase::Stream => "stream",
            BindingPhase::Complete => "complete",
            BindingPhase::Dispatch => "dispatch",
            BindingPhase::Finish => "finish",
            BindingPhase::Finalize => "finalize",
        }
    }
}

/// Model of [`BindingOrigin`].
pub struct OriginModel {
    pub attempt: AttemptModel,
    pub binding_id: BindingIdModel,
    pub route: RouteModel,
}

/// Which binding of which attempt something comes from.
#[derive(Debug)]
pub struct BindingOrigin {
    pub(crate) attempt: ProviderAttemptIdentity,
    pub(crate) binding_id: BindingId,
    pub(crate) route: RuntimeRoute,
}

impl View for BindingOrigin {
    type V = OriginModel;

    open(crate) spec fn view(&self) -> OriginModel {
        OriginModel { attempt: self.attempt@, binding_id: self.binding_id@, route: self.route@ }
    }
}

impl BindingOrigin {
    pub fn new(
        attempt: &ProviderAttemptIdentity,
        binding_id: &BindingId,
        route: &RuntimeRoute,
    ) -> (origin: Self)
        ensures
            origin@ == (OriginModel {
                attempt: attempt@,
                binding_id: binding_id@,
                route: route@,
            }),
    {
        Self { attempt: attempt.clone(), binding_id: binding_id.clone(), route: route.clone() }
    }

    pub fn attempt(&self) -> (value: &ProviderAttemptIdentity)
        ensures
            value@ == self@.attempt,
    {
        &self.attempt
    }

    pub fn binding_id(&self) -> (value: &BindingId)
        ensures
            value@ == self@.binding_id,
    {
        &self.binding_id
    }

    pub fn route(&self) -> (value: &RuntimeRoute)
        ensures
            value@ == self@.route,
    {
        &self.route
    }
}

impl Clone for BindingOrigin {
    fn clone(&self) -> (copy: Self)
        ensures
            copy@ == self@,
    {
        Self {
            attempt: self.attempt.clone(),
            binding_id: self.binding_id.clone(),
            route: self.route.clone(),
        }
    }
}

impl PartialEq for BindingOrigin {
    fn eq(&self, other: &Self) -> (equal: bool) {
        self.attempt == other.attempt
            && self.binding_id == other.binding_id
            && self.route == other.route
    }
}

impl Eq for BindingOrigin {

}

impl vstd::std_specs::cmp::PartialEqSpecImpl for BindingOrigin {
    open spec fn obeys_eq_spec() -> bool {
        true
    }

    open spec fn eq_spec(&self, other: &Self) -> bool {
        self@ == other@
    }
}

/// Model of [`BindingFault`].
pub struct FaultModel<E> {
    pub origin: OriginModel,
    pub phase: BindingPhase,
    pub error: E,
}

/// The failure of a binding, with where and when it happened.
#[derive(Debug)]
pub struct BindingFault<E> {
    pub(crate) origin: BindingOrigin,
    pub(crate) phase: BindingPhase,
    pub(crate) source: BindingFailure<E>,
}

impl<E> View for BindingFault<E> {
    type V = FaultModel<E>;

    open(crate) spec fn view(&self) -> FaultModel<E> {
        FaultModel { origin: self.origin@, phase: self.phase, error: self.source.error() }
    }
}

impl<E> BindingFault<E> {
    pub fn new(
        attempt: &ProviderAttemptIdentity,
        binding_id: &BindingId,
        route: &RuntimeRoute,
        phase: BindingPhase,
        source: BindingFailure<E>,
    ) -> (fault: Self)
        ensures
            fault@ == (FaultModel {
                origin: OriginModel {
                    attempt: attempt@,
                    binding_id: binding_id@,
                    route: route@,
                },
                phase,
                error: source.error(),
            }),
    {
        Self { origin: BindingOrigin::new(attempt, binding_id, route), phase, source }
    }

    pub fn origin(&self) -> (origin: &BindingOrigin)
        ensures
            origin@ == self@.origin,
    {
        &self.origin
    }

    pub fn phase(&self) -> (phase: BindingPhase)
        ensures
            phase == self@.phase,
    {
        self.phase
    }

    pub fn source_failure(&self) -> (failure: &BindingFailure<E>)
        ensures
            failure.error() == self@.error,
    {
        &self.source
    }
}

/// Why an attempt is aborted.
#[derive(Debug, Clone, Copy, PartialEq, Eq, Structural)]
#[non_exhaustive]
pub enum BindingAbortReason {
    InitializationFailure,
    ProviderFailure,
    ParserFailure,
    HostRuntimeFailure,
    HostInterpretationFailure,
    Cancelled,
    PreparationReplaced,
    PublishFailure,
}

/// What a binding answers to an abort.
#[derive(Debug, Clone, Copy, PartialEq, Eq, Structural)]
pub enum BindingAbortAck {
    NoCleanupNeeded,
    LocalCleanupCompleted,
}

/// What a dispatcher answers to an abort.
#[derive(Debug, Clone, Copy, PartialEq, Eq, Structural)]
pub enum ProviderDispatcherAbortAck {
    NoCleanupNeeded,
    CleanupCompleted,
}

/// A binding in one attempt. `X` is what the stream parser hands over. What is not
/// implemented does nothing.
pub trait BindingInstance<C: TurnChannels, X, E>: Sized {
    fn on_open(&mut self, element: &X) -> (result: Result<LaneUpdate<C>, BindingFailure<E>>)
        default_ensures
            *final(self) == *old(self),
            result is Ok,
            result->Ok_0@ == UpdateModel::<TurnEmission<C>, C::Diagnostic>::empty(),
    {
        Ok(StreamUpdate::new())
    }

    fn on_stream(&mut self, element: &X) -> (result: Result<LaneUpdate<C>, BindingFailure<E>>)
        default_ensures
            *final(self) == *old(self),
            result is Ok,
            result->Ok_0@ == UpdateModel::<TurnEmission<C>, C::Diagnostic>::empty(),
    {
        Ok(StreamUpdate::new())
    }

    fn on_complete(&mut self, element: &X) -> (result: Result<LaneUpdate<C>, BindingFailure<E>>)
        default_ensures
            *final(self) == *old(self),
            result is Ok,
            result->Ok_0@ == UpdateModel::<TurnEmission<C>, C::Diagnostic>::empty(),
    {
        Ok(StreamUpdate::new())
    }

    fn on_finish(&mut self) -> (result: Result<LaneUpdate<C>, BindingFailure<E>>)
        default_ensures
            *final(self) == *old(self),
            result is Ok,
            result->Ok_0@ == UpdateModel::<TurnEmission<C>, C::Diagnostic>::empty(),
    {
        Ok(StreamUpdate::new())
    }

    fn abort(&mut self, reason: BindingAbortReason) -> (acknowledgement: BindingAbortAck)
        default_ensures
            *final(self) == *old(self),
            acknowledgement == BindingAbortAck::NoCleanupNeeded,
    {
        BindingAbortAck::NoCleanupNeeded
    }
}

/// A binding whose updates are mapped to the lanes of the surrounding component.
pub struct MappedBindingInstance<Local, I, M> {
    pub inner: I,
    pub map: M,
    pub local: PhantomData<Local>,
}

/// Whether a result was mapped: an update lane by lane, a failure as it is.
pub open spec fn result_mapped<Local: TurnChannels, Root: TurnChannels, M: ChannelMap<Local, Root>, E>(
    map: &M,
    from: Result<LaneUpdate<Local>, BindingFailure<E>>,
    to: Result<LaneUpdate<Root>, BindingFailure<E>>,
) -> bool {
    match (from, to) {
        (Ok(from), Ok(to)) => update_mapped(map, from@, to@),
        (Err(from), Err(to)) => to == from,
        _ => false,
    }
}

/// Maps the result of a binding.
pub fn map_result<Local: TurnChannels, Root: TurnChannels, M: ChannelMap<Local, Root>, E>(
    map: &M,
    result: Result<LaneUpdate<Local>, BindingFailure<E>>,
) -> (mapped: Result<LaneUpdate<Root>, BindingFailure<E>>)
    ensures
        result_mapped(map, result, mapped),
{
    match result {
        Ok(update) => Ok(map_provider_update(update, map)),
        Err(failure) => Err(failure),
    }
}

impl<Local: TurnChannels, I, M> MappedBindingInstance<Local, I, M> {
    pub fn new(inner: I, map: M) -> (instance: Self)
        ensures
            instance.inner == inner,
            instance.map == map,
    {
        Self { inner, map, local: PhantomData }
    }
}

impl<
    Local: TurnChannels,
    Root: TurnChannels,
    X,
    E,
    I: BindingInstance<Local, X, E>,
    M: ChannelMap<Local, Root>,
> BindingInstance<Root, X, E> for MappedBindingInstance<Local, I, M> {
    fn on_open(&mut self, element: &X) -> (result: Result<LaneUpdate<Root>, BindingFailure<E>>)
        ensures
            final(self).map == old(self).map,
            exists|inner: &mut I, local: Result<LaneUpdate<Local>, BindingFailure<E>>|
                *inner == old(self).inner && *final(inner) == final(self).inner && #[trigger]
                    call_ensures(I::on_open, (inner, element), local) && result_mapped(
                    &old(self).map,
                    local,
                    result,
                ),
    {
        let local = self.inner.on_open(element);
        map_result(&self.map, local)
    }

    fn on_stream(&mut self, element: &X) -> (result: Result<LaneUpdate<Root>, BindingFailure<E>>)
        ensures
            final(self).map == old(self).map,
            exists|inner: &mut I, local: Result<LaneUpdate<Local>, BindingFailure<E>>|
                *inner == old(self).inner && *final(inner) == final(self).inner && #[trigger]
                    call_ensures(I::on_stream, (inner, element), local) && result_mapped(
                    &old(self).map,
                    local,
                    result,
                ),
    {
        let local = self.inner.on_stream(element);
        map_result(&self.map, local)
    }

    fn on_complete(&mut self, element: &X) -> (result: Result<LaneUpdate<Root>, BindingFailure<E>>)
        ensures
            final(self).map == old(self).map,
            exists|inner: &mut I, local: Result<LaneUpdate<Local>, BindingFailure<E>>|
                *inner == old(self).inner && *final(inner) == final(self).inner && #[trigger]
                    call_ensures(I::on_complete, (inner, element), local) && result_mapped(
                    &old(self).map,
                    local,
                    result,
                ),
    {
        let local = self.inner.on_complete(element);
        map_result(&self.map, local)
    }

    fn on_finish(&mut self) -> (result: Result<LaneUpdate<Root>, BindingFailure<E>>)
        ensures
            final(self).map == old(self).map,
            exists|inner: &mut I, local: Result<LaneUpdate<Local>, BindingFailure<E>>|
                *inner == old(self).inner && *final(inner) == final(self).inner && #[trigger]
                    call_ensures(I::on_finish, (inner,), local) && result_mapped(
                    &old(self).map,
                    local,
                    result,
                ),
    {
        let local = self.inner.on_finish();
        map_result(&self.map, local)
    }

    fn abort(&mut self, reason: BindingAbortReason) -> (acknowledgement: BindingAbortAck)
        ensures
            final(self).map == old(self).map,
            exists|inner: &mut I|
                *inner == old(self).inner && *final(inner) == final(self).inner && #[trigger]
                    call_ensures(I::abort, (inner, reason), acknowledgement),
    {
        self.inner.abort(reason)
    }
}

/// The answer of a dispatcher to one call, with the update that it caused.
#[must_use]
pub struct ProviderDispatchUpdate<C: TurnChannels> {
    pub(crate) response: ProviderToolResponse,
    pub(crate) update: LaneUpdate<C>,
}

/// Model of [`ProviderDispatchUpdate`].
pub struct DispatchUpdateModel<C: TurnChannels> {
    pub response: ResponseModel,
    pub update: UpdateModel<TurnEmission<C>, C::Diagnostic>,
}

impl<C: TurnChannels> View for ProviderDispatchUpdate<C> {
    type V = DispatchUpdateModel<C>;

    open(crate) spec fn view(&self) -> DispatchUpdateModel<C> {
        DispatchUpdateModel { response: self.response@, update: self.update@ }
    }
}

impl<C: TurnChannels> ProviderDispatchUpdate<C> {
    pub fn new(response: ProviderToolResponse, update: LaneUpdate<C>) -> (result: Self)
        ensures
            result@ == (DispatchUpdateModel::<C> { response: response@, update: update@ }),
    {
        Self { response, update }
    }

    pub fn response(&self) -> (response: &ProviderToolResponse)
        ensures
            response@ == self@.response,
    {
        &self.response
    }

    pub fn update(&self) -> (update: &LaneUpdate<C>)
        ensures
            update@ == self@.update,
    {
        &self.update
    }

    pub fn into_parts(self) -> (parts: (ProviderToolResponse, LaneUpdate<C>))
        ensures
            parts.0@ == self@.response,
            parts.1@ == self@.update,
    {
        (self.response, self.update)
    }

    /// The response as it is, with the update on the lanes of the surrounding
    /// component.
    pub fn map_channels<Root: TurnChannels, M: ChannelMap<C, Root>>(self, map: &M) -> (mapped:
        ProviderDispatchUpdate<Root>)
        ensures
            mapped@.response == self@.response,
            update_mapped(map, self@.update, mapped@.update),
    {
        ProviderDispatchUpdate {
            response: self.response,
            update: map_provider_update(self.update, map),
        }
    }
}

/// Model of [`ProviderInvocationKey`].
pub struct InvocationKeyModel {
    pub epoch_id: HarnessEpochId,
    pub turn_instance_id: TurnInstanceId,
    pub capability_id: BindingIdModel,
    pub invocation_id: Seq<char>,
}

/// Which call of which capability in which turn. It stays the same when the turn is
/// attempted again.
#[derive(Debug)]
pub struct ProviderInvocationKey {
    pub(crate) epoch_id: HarnessEpochId,
    pub(crate) turn_instance_id: TurnInstanceId,
    pub(crate) capability_id: BindingId,
    pub(crate) invocation_id: String,
}

impl View for ProviderInvocationKey {
    type V = InvocationKeyModel;

    open(crate) spec fn view(&self) -> InvocationKeyModel {
        InvocationKeyModel {
            epoch_id: self.epoch_id,
            turn_instance_id: self.turn_instance_id,
            capability_id: self.capability_id@,
            invocation_id: self.invocation_id@,
        }
    }
}

impl ProviderInvocationKey {
    pub fn epoch_id(&self) -> (value: HarnessEpochId)
        ensures
            value == self@.epoch_id,
    {
        self.epoch_id
    }

    pub fn turn_instance_id(&self) -> (value: TurnInstanceId)
        ensures
            value == self@.turn_instance_id,
    {
        self.turn_instance_id
    }

    pub fn capability_id(&self) -> (value: &BindingId)
        ensures
            value@ == self@.capability_id,
    {
        &self.capability_id
    }

    pub fn invocation_id(&self) -> (text: &str)
        ensures
            text@ == self@.invocation_id,
    {
        self.invocation_id.as_str()
    }
}

impl Clone for ProviderInvocationKey {
    fn clone(&self) -> (copy: Self)
        ensures
            copy@ == self@,
    {
        Self {
            epoch_id: self.epoch_id,
            turn_instance_id: self.turn_instance_id,
            capability_id: self.capability_id.clone(),
            invocation_id: self.invocation_id.clone(),
        }
    }
}

impl PartialEq for ProviderInvocationKey {
    fn eq(&self, other: &Self) -> (equal: bool) {
        self.epoch_id == other.epoch_id
            && self.turn_instance_id == other.turn_instance_id
            && self.capability_id == other.capability_id
            && self.invocation_id == other.invocation_id
    }
}

impl Eq for ProviderInvocationKey {

}

impl vstd::std_specs::cmp::PartialEqSpecImpl for ProviderInvocationKey {
    open spec fn obeys_eq_spec() -> bool {
        true
    }

    open spec fn eq_spec(&self, other: &Self) -> bool {
        self@ == other@
    }
}

/// Model of [`ProviderDispatchContext`].
pub struct DispatchContextModel {
    pub identity: AttemptModel,
    pub invocation: InvocationKeyModel,
    pub sequence: u64,
}

/// What a dispatcher is told about a call.
#[derive(Debug)]
pub struct ProviderDispatchContext {
    pub(crate) identity: ProviderAttemptIdentity,
    pub(crate) invocation: ProviderInvocationKey,
    pub(crate) sequence: u64,
}

impl View for ProviderDispatchContext {
    type V = DispatchContextModel;

    open(crate) spec fn view(&self) -> DispatchContextModel {
        DispatchContextModel {
            identity: self.identity@,
            invocation: self.invocation@,
            sequence: self.sequence,
        }
    }
}

impl ProviderDispatchContext {
    pub fn new(
        identity: &ProviderAttemptIdentity,
        capability_id: &BindingId,
        invocation_id: &str,
        sequence: u64,
    ) -> (context: Self)
        ensures
            context@ == (DispatchContextModel {
                identity: identity@,
                invocation: InvocationKeyModel {
                    epoch_id: identity@.epoch_id,
                    turn_instance_id: identity@.turn_instance_id,
                    capability_id: capability_id@,
                    invocation_id: invocation_id@,
                },
                sequence,
            }),
    {
        Self {
            identity: identity.clone(),
            invocation: ProviderInvocationKey {
                epoch_id: identity.epoch_id(),
                turn_instance_id: identity.turn_instance_id(),
                capability_id: capability_id.clone(),
                invocation_id: invocation_id.to_owned(),
            },
            sequence,
        }
    }

    pub fn invocation_key(&self) -> (key: &ProviderInvocationKey)
        ensures
            key@ == self@.invocation,
    {
        &self.invocation
    }

    pub fn identity(&self) -> (value: &ProviderAttemptIdentity)
        ensures
            value@ == self@.identity,
    {
        &self.identity
    }

    pub fn sequence(&self) -> (value: u64)
        ensures
            value == self@.sequence,
    {
        self.sequence
    }
}

impl Clone for ProviderDispatchContext {
    fn clone(&self) -> (copy: Self)
        ensures
            copy@ == self@,
    {
        Self {
            identity: self.identity.clone(),
            invocation: self.invocation.clone(),
            sequence: self.sequence,
        }
    }
}

impl PartialEq for ProviderDispatchContext {
    fn eq(&self, other: &Self) -> (equal: bool) {
        self.identity == other.identity
            && self.invocation == other.invocation
            && self.sequence == other.sequence
    }
}

impl Eq for ProviderDispatchContext {

}

impl vstd::std_specs::cmp::PartialEqSpecImpl for ProviderDispatchContext {
    open spec fn obeys_eq_spec() -> bool {
        true
    }

    open spec fn eq_spec(&self, other: &Self) -> bool {
        self@ == other@
    }
}

/// Model of [`ProviderDispatcherAbortContext`].
pub struct DispatcherAbortModel {
    pub identity: AttemptModel,
    pub capability_id: BindingIdModel,
    pub reason: BindingAbortReason,
    pub completed_calls: u64,
}

/// What a dispatcher is told about an abort.
#[derive(Debug)]
pub struct ProviderDispatcherAbortContext {
    pub(crate) identity: ProviderAttemptIdentity,
    pub(crate) capability_id: BindingId,
    pub(crate) reason: BindingAbortReason,
    pub(crate) completed_calls: u64,
}

impl View for ProviderDispatcherAbortContext {
    type V = DispatcherAbortModel;

    open(crate) spec fn view(&self) -> DispatcherAbortModel {
        DispatcherAbortModel {
            identity: self.identity@,
            capability_id: self.capability_id@,
            reason: self.reason,
            completed_calls: self.completed_calls,
        }
    }
}

impl ProviderDispatcherAbortContext {
    pub fn new(
        identity: &ProviderAttemptIdentity,
        capability_id: &BindingId,
        reason: BindingAbortReason,
        completed_calls: u64,
    ) -> (context: Self)
        ensures
            context@ == (DispatcherAbortModel {
                identity: identity@,
                capability_id: capability_id@,
                reason,
                completed_calls,
            }),
    {
        Self {
            identity: identity.clone(),
            capability_id: capability_id.clone(),
            reason,
            completed_calls,
        }
    }

    pub fn identity(&self) -> (value: &ProviderAttemptIdentity)
        ensures
            value@ == self@.identity,
    {
        &self.identity
    }

    pub fn capability_id(&self) -> (value: &BindingId)
        ensures
            value@ == self@.capability_id,
    {
        &self.capability_id
    }

    pub fn reason(&self) -> (value: BindingAbortReason)
        ensures
            value == self@.reason,
    {
        self.reason
    }

    pub fn completed_calls(&self) -> (value: u64)
        ensures
            value == self@.completed_calls,
    {
        self.completed_calls
    }
}

impl Clone for ProviderDispatcherAbortContext {
    fn clone(&self) -> (copy: Self)
        ensures
            copy@ == self@,
    {
        Self {
            identity: self.identity.clone(),
            capability_id: self.capability_id.clone(),
            reason: self.reason,
            completed_calls: self.completed_calls,
        }
    }
}

impl PartialEq for ProviderDispatcherAbortContext {
    fn eq(&self, other: &Self) -> (equal: bool) {
        self.identity == other.identity
            && self.capability_id == other.capability_id
            && self.reason == other.reason
            && self.completed_calls == other.completed_calls
    }
}

impl Eq for ProviderDispatcherAbortContext {

}

impl vstd::std_specs::cmp::PartialEqSpecImpl for ProviderDispatcherAbortContext {
    open spec fn obeys_eq_spec() -> bool {
        true
    }

    open spec fn eq_spec(&self, other: &Self) -> bool {
        self@ == other@
    }
}

/// Model of [`TurnBindingCx`].
pub struct BindingCxModel<Props> {
    pub props: Props,
    pub attempt: AttemptModel,
    pub binding_id: BindingIdModel,
    pub route: RouteModel,
}

/// What a factory is told when it makes a binding.
pub struct TurnBindingCx<'a, Props> {
    pub(crate) props: &'a Props,
    pub(crate) attempt: &'a ProviderAttemptIdentity,
    pub(crate) binding_id: &'a BindingId,
    pub(crate) route: &'a RuntimeRoute,
}

impl<'a, Props> View for TurnBindingCx<'a, Props> {
    type V = BindingCxModel<Props>;

    open(crate) spec fn view(&self) -> BindingCxModel<Props> {
        BindingCxModel {
            props: *self.props,
            attempt: self.attempt@,
            binding_id: self.binding_id@,
            route: self.route@,
        }
    }
}

impl<'a, Props> TurnBindingCx<'a, Props> {
    pub fn new(
        props: &'a Props,
        attempt: &'a ProviderAttemptIdentity,
        binding_id: &'a BindingId,
        route: &'a RuntimeRoute,
    ) -> (context: Self)
        ensures
            context@ == (BindingCxModel {
                props: *props,
                attempt: attempt@,
                binding_id: binding_id@,
                route: route@,
            }),
    {
        Self { props, attempt, binding_id, route }
    }

    pub fn props(&self) -> (props: &'a Props)
        ensures
            *props == self@.props,
    {
        self.props
    }

    pub fn epoch_id(&self) -> (id: HarnessEpochId)
        ensures
            id == self@.attempt.epoch_id,
    {
        self.attempt.epoch_id()
    }

    pub fn turn_instance_id(&self) -> (id: TurnInstanceId)
        ensures
            id == self@.attempt.turn_instance_id,
    {
        self.attempt.turn_instance_id()
    }

    pub fn provider_attempt_id(&self) -> (id: ProviderAttemptId)
        ensures
            id == self@.attempt.provider_attempt_id,
    {
        self.attempt.provider_attempt_id()
    }

    pub fn live_scope_id(&self) -> (id: LiveScopeId)
        ensures
            id == self@.attempt.live_scope_id,
    {
        self.attempt.live_scope_id()
    }

    pub fn call_label(&self) -> (label: &str)
        ensures
            label@ == self@.attempt.call_label,
    {
        self.attempt.call_label()
    }

    pub fn binding_id(&self) -> (id: &'a BindingId)
        ensures
            id@ == self@.binding_id,
    {
        self.binding_id
    }

    pub fn route(&self) -> (route: &'a RuntimeRoute)
        ensures
            route@ == self@.route,
    {
        self.route
    }
}

/// What a capability is told when it makes a dispatcher.
pub struct ProviderDispatcherCx<'a, Props> {
    pub(crate) props: &'a Props,
    pub(crate) attempt: &'a ProviderAttemptIdentity,
    pub(crate) capability_id: &'a BindingId,
    pub(crate) specs: &'a Vec<ProviderToolSpec>,
}

/// Model of [`ProviderDispatcherCx`].
pub struct DispatcherCxModel<Props> {
    pub props: Props,
    pub attempt: AttemptModel,
    pub capability_id: BindingIdModel,
    pub specs: Seq<ToolSpecModel>,
}

impl<'a, Props> View for ProviderDispatcherCx<'a, Props> {
    type V = DispatcherCxModel<Props>;

    open(crate) spec fn view(&self) -> DispatcherCxModel<Props> {
        DispatcherCxModel {
            props: *self.props,
            attempt: self.attempt@,
            capability_id: self.capability_id@,
            specs: spec_models(self.specs@),
        }
    }
}

impl<'a, Props> ProviderDispatcherCx<'a, Props> {
    pub fn new(
        props: &'a Props,
        attempt: &'a ProviderAttemptIdentity,
        capability_id: &'a BindingId,
        specs: &'a Vec<ProviderToolSpec>,
    ) -> (context: Self)
        ensures
            context@ == (DispatcherCxModel {
                props: *props,
                attempt: attempt@,
                capability_id: capability_id@,
                specs: spec_models(specs@),
            }),
    {
        Self { props, attempt, capability_id, specs }
    }

    pub fn props(&self) -> (props: &'a Props)
        ensures
            *props == self@.props,
    {
        self.props
    }

    pub fn identity(&self) -> (identity: &'a ProviderAttemptIdentity)
        ensures
            identity@ == self@.attempt,
    {
        self.attempt
    }

    pub fn capability_id(&self) -> (id: &'a BindingId)
        ensures
            id@ == self@.capability_id,
    {
        self.capability_id
    }

    pub fn specs(&self) -> (specs: &'a Vec<ProviderToolSpec>)
        ensures
            spec_models(specs@) == self@.specs,
    {
        self.specs
    }
}

impl<H> MountedBindingFactory<H> {
    /// Makes the binding for an attempt. What the maker reports as its failure becomes
    /// a fault of this binding's initialization.
    pub fn instantiate<'a, Props, I, E>(
        &'a self,
        props: &'a Props,
        identity: &'a ProviderAttemptIdentity,
    ) -> (result: Result<I, BindingFault<E>>) where
        H: Maker<TurnBindingCx<'a, Props>, Result<I, BindingFailure<E>>>,

        requires
            forall|context: TurnBindingCx<'a, Props>| #[trigger]
                self@.declaration.instantiate.can_make(context),
        ensures
            exists|context: TurnBindingCx<'a, Props>, made: Result<I, BindingFailure<E>>|
                context@ == (BindingCxModel {
                    props: *props,
                    attempt: identity@,
                    binding_id: self@.id,
                    route: self@.declaration.route,
                }) && #[trigger] self@.declaration.instantiate.may_make(context, made)
                    && match (made, result) {
                    (Ok(made), Ok(result)) => result == made,
                    (Err(made), Err(fault)) => fault@ == (FaultModel {
                        origin: OriginModel {
                            attempt: identity@,
                            binding_id: self@.id,
                            route: self@.declaration.route,
                        },
                        phase: BindingPhase::Initialize,
                        error: made.error(),
                    }),
                    _ => false,
                },
    {
        let route = self.declaration.route();
        let context = TurnBindingCx::new(props, identity, &self.id, route);
        let make = self.declaration.handle();
        let made = make.make(context);
        match made {
            Ok(instance) => Ok(instance),
            Err(source) => Err(
                BindingFault::new(identity, &self.id, route, BindingPhase::Initialize, source),
            ),
        }
    }
}

/// Why there is no dispatcher for an attempt.
#[derive(Debug)]
pub enum DispatcherStartFailure<E> {
    /// Nobody was bound to the capability.
    Unbound(ProviderDispatcherRegistryError),
    /// The maker reported a failure.
    Maker(ProviderDispatchFailure<E>),
}

impl<H> MountedProviderCapability<H> {
    /// Makes the dispatcher for an attempt.
    pub fn instantiate_dispatcher<'a, Props, I, E>(
        &'a self,
        props: &'a Props,
        identity: &'a ProviderAttemptIdentity,
    ) -> (result: Result<I, DispatcherStartFailure<E>>) where
        H: Maker<ProviderDispatcherCx<'a, Props>, Result<I, ProviderDispatchFailure<E>>>,

        requires
            self@.declaration.dispatcher is Some ==> forall|
                context: ProviderDispatcherCx<'a, Props>,
            | #[trigger]
                self@.declaration.dispatcher->Some_0.instantiate.can_make(context),
        ensures
            self@.declaration.dispatcher is None ==> match result {
                Err(DispatcherStartFailure::Unbound(error)) => error@ == (
                RegistryErrorModel::MissingBinding {
                    declaration_id: match self@.declaration.declaration_id() {
                        Some(id) => id,
                        None => "<non-durable-provider-capability>"@,
                    },
                }),
                _ => false,
            },
            self@.declaration.dispatcher is Some ==> exists|
                context: ProviderDispatcherCx<'a, Props>,
                made: Result<I, ProviderDispatchFailure<E>>,
            |
                context@ == (DispatcherCxModel {
                    props: *props,
                    attempt: identity@,
                    capability_id: self@.id,
                    specs: self@.declaration.specs,
                }) && #[trigger] self@.declaration.dispatcher->Some_0.instantiate.may_make(context, made) && match (made, result) {
                    (Ok(made), Ok(result)) => result == made,
                    (Err(made), Err(DispatcherStartFailure::Maker(failure))) => failure == made,
                    _ => false,
                },
    {
        let make = match self.declaration.handle() {
            Some(make) => make,
            None => {
                return Err(
                    DispatcherStartFailure::Unbound(
                        ProviderDispatcherRegistryError::MissingBinding {
                            declaration_id: match self.declaration_id() {
                                Some(id) => id.to_owned(),
                                None => "<non-durable-provider-capability>".to_owned(),
                            },
                        },
                    ),
                );
            },
        };
        let context = ProviderDispatcherCx::new(
            props,
            identity,
            &self.id,
            self.declaration.specs(),
        );
        match make.make(context) {
            Ok(instance) => Ok(instance),
            Err(failure) => Err(DispatcherStartFailure::Maker(failure)),
        }
    }
}

/// Makes a binding with a maker that reads nothing of its context.
pub fn plain_binding<'a, Props, I, E, H: Fn() -> I>(
    make: &H,
    _context: TurnBindingCx<'a, Props>,
) -> (result: Result<I, BindingFailure<E>>)
    requires
        make.requires(()),
    ensures
        result is Ok,
        make.ensures((), result->Ok_0),
{
    Ok(make())
}

/// Makes a binding of a component, on the lanes of the one around it. The maker is told
/// the same as ever.
pub fn mapped_binding<'a, Local: TurnChannels, Props, I, M, E, H>(
    make: &H,
    map: M,
    context: TurnBindingCx<'a, Props>,
) -> (result: Result<MappedBindingInstance<Local, I, M>, BindingFailure<E>>) where
    H: Maker<TurnBindingCx<'a, Props>, Result<I, BindingFailure<E>>>,

    requires
        forall|local: TurnBindingCx<'a, Props>|
            local@ == context@ ==> #[trigger] make.can_make(local),
    ensures
        exists|local: TurnBindingCx<'a, Props>, made: Result<I, BindingFailure<E>>|
            local@ == context@ && #[trigger] make.may_make(local, made) && match (made, result) {
                (Ok(inner), Ok(mapped)) => mapped.inner == inner && mapped.map == map,
                (Err(made), Err(failure)) => failure == made,
                _ => false,
            },
{
    let local = TurnBindingCx::new(
        context.props,
        context.attempt,
        context.binding_id,
        context.route,
    );
    match make.make(local) {
        Ok(inner) => Ok(MappedBindingInstance::new(inner, map)),
        Err(failure) => Err(failure),
    }
}

/// Makes a binding of a component whose properties are a part of those of the one
/// around it. Of everything else the maker is told the same as ever.
pub fn projected_binding<'a, Parent, Props: 'a, I, P, E, H>(
    make: &H,
    project: &P,
    context: TurnBindingCx<'a, Parent>,
) -> (result: Result<I, BindingFailure<E>>) where
    H: Maker<TurnBindingCx<'a, Props>, Result<I, BindingFailure<E>>>,
    P: Fn(&'a Parent) -> &'a Props,

    requires
        project.requires((&context@.props,)),
        forall|local: TurnBindingCx<'a, Props>| #[trigger] make.can_make(local),
    ensures
        exists|local: TurnBindingCx<'a, Props>|
            project.ensures((&context@.props,), &local@.props) && local@ == (BindingCxModel {
                props: local@.props,
                attempt: context@.attempt,
                binding_id: context@.binding_id,
                route: context@.route,
            }) && #[trigger] make.may_make(local, result),
{
    let local = TurnBindingCx::new(
        project(context.props),
        context.attempt,
        context.binding_id,
        context.route,
    );
    make.make(local)
}

/// Makes a dispatcher with a maker that reads nothing of its context.
pub fn plain_dispatcher<'a, Props, I, E, H: Fn() -> I>(
    make: &H,
    _context: ProviderDispatcherCx<'a, Props>,
) -> (result: Result<I, ProviderDispatchFailure<E>>)
    requires
        make.requires(()),
    ensures
        result is Ok,
        make.ensures((), result->Ok_0),
{
    Ok(make())
}

/// A dispatcher whose updates are mapped to the lanes of the surrounding component.
pub struct MappedProviderDispatcher<Local, I, M> {
    pub inner: I,
    pub map: M,
    pub local: PhantomData<Local>,
}

impl<Local: TurnChannels, I, M> MappedProviderDispatcher<Local, I, M> {
    pub fn new(inner: I, map: M) -> (dispatcher: Self)
        ensures
            dispatcher.inner == inner,
            dispatcher.map == map,
    {
        Self { inner, map, local: PhantomData }
    }

    /// What a dispatch comes to once the inner dispatcher has answered: its response as
    /// it is, with its update mapped, or its failure.
    pub fn dispatched<Root: TurnChannels, E>(
        &self,
        local: Result<ProviderDispatchUpdate<Local>, ProviderDispatchFailure<E>>,
    ) -> (result: Result<ProviderDispatchUpdate<Root>, ProviderDispatchFailure<E>>) where
        M: ChannelMap<Local, Root>,

        ensures
            match (local, result) {
                (Ok(from), Ok(to)) => to@.response == from@.response && update_mapped(
                    &self.map,
                    from@.update,
                    to@.update,
                ),
                (Err(from), Err(to)) => to == from,
                _ => false,
            },
    {
        match local {
            Ok(update) => Ok(update.map_channels(&self.map)),
            Err(failure) => Err(failure),
        }
    }

    /// What the end comes to once the inner dispatcher has finished: its last update
    /// mapped, or its failure.
    pub fn finished<Root: TurnChannels, E>(
        &self,
        local: Result<LaneUpdate<Local>, ProviderDispatchFailure<E>>,
    ) -> (result: Result<LaneUpdate<Root>, ProviderDispatchFailure<E>>) where
        M: ChannelMap<Local, Root>,

        ensures
            match (local, result) {
                (Ok(from), Ok(to)) => update_mapped(&self.map, from@, to@),
                (Err(from), Err(to)) => to == from,
                _ => false,
            },
    {
        match local {
            Ok(update) => Ok(map_provider_update(update, &self.map)),
            Err(failure) => Err(failure),
        }
    }
}

/// Makes a dispatcher of a component, on the lanes of the one around it. The maker is
/// told the same as ever.
pub fn mapped_dispatcher<'a, Local: TurnChannels, Props, I, M, E, H>(
    make: &H,
    map: M,
    context: ProviderDispatcherCx<'a, Props>,
) -> (result: Result<MappedProviderDispatcher<Local, I, M>, ProviderDispatchFailure<E>>) where
    H: Maker<ProviderDispatcherCx<'a, Props>, Result<I, ProviderDispatchFailure<E>>>,

    requires
        forall|local: ProviderDispatcherCx<'a, Props>|
            local@ == context@ ==> #[trigger] make.can_make(local),
    ensures
        exists|local: ProviderDispatcherCx<'a, Props>, made: Result<I, ProviderDispatchFailure<E>>|
            local@ == context@ && #[trigger] make.may_make(local, made) && match (made, result) {
                (Ok(inner), Ok(mapped)) => mapped.inner == inner && mapped.map == map,
                (Err(made), Err(failure)) => failure == made,
                _ => false,
            },
{
    let local = ProviderDispatcherCx::new(
        context.props,
        context.attempt,
        context.capability_id,
        context.specs,
    );
    match make.make(local) {
        Ok(inner) => Ok(MappedProviderDispatcher::new(inner, map)),
        Err(failure) => Err(failure),
    }
}

/// Makes a dispatcher of a component whose properties are a part of those of the one
/// around it. Of everything else the maker is told the same as ever.
pub fn projected_dispatcher<'a, Parent, Props: 'a, I, P, E, H>(
    make: &H,
    project: &P,
    context: ProviderDispatcherCx<'a, Parent>,
) -> (result: Result<I, ProviderDispatchFailure<E>>) where
    H: Maker<ProviderDispatcherCx<'a, Props>, Result<I, ProviderDispatchFailure<E>>>,
    P: Fn(&'a Parent) -> &'a Props,

    requires
        project.requires((&context@.props,)),
        forall|local: ProviderDispatcherCx<'a, Props>| #[trigger] make.can_make(local),
    ensures
        exists|local: ProviderDispatcherCx<'a, Props>|
            project.ensures((&context@.props,), &local@.props) && local@ == (DispatcherCxModel {
                props: local@.props,
                attempt: context@.attempt,
                capability_id: context@.capability_id,
                specs: context@.specs,
            }) && #[trigger] make.may_make(local, result),
{
    let local = ProviderDispatcherCx::new(
        project(context.props),
        context.attempt,
        context.capability_id,
        context.specs,
    );
    make.make(local)
}

} // verus!
