//! Streaming bindings: reducers over the elements of a stream, and what their updates
//! are mapped to.

use core::marker::PhantomData;
use std::sync::Arc;
use vstd::prelude::*;
use crate::component::channel_map::{emission_mapped, map_channel_emission, ChannelMap, Lane};
use crate::component::channels::{IntoStreamUpdate, StreamUpdate, TurnChannels};
use crate::component::channels::{TurnEmission, UpdateModel};

verus! {

/// A reducer: it takes an element of the stream into the state of a binding.
pub trait StreamReducer<S, X, E, D> {
    fn reduce(&self, state: &mut S, element: &X) -> StreamUpdate<E, D>;
}

/// What a binding does with its state at the end of the stream.
pub trait StreamFinish<S, E, D>: Sized {
    fn finish(self, state: S) -> StreamUpdate<E, D>;
}

/// No reducer: the state stays as it is, and nothing is emitted.
pub struct NoReducer<E, D> {
    pub(crate) types: PhantomData<(E, D)>,
}

impl<E, D> NoReducer<E, D> {
    pub fn new() -> Self {
        Self { types: PhantomData }
    }
}

impl<S, X, E, D> StreamReducer<S, X, E, D> for NoReducer<E, D> {
    fn reduce(&self, state: &mut S, element: &X) -> (update: StreamUpdate<E, D>)
        ensures
            *final(state) == *old(state),
            update@ == UpdateModel::<E, D>::empty(),
    {
        StreamUpdate::<E, D>::new()
    }
}

impl<S, E, D> StreamFinish<S, E, D> for NoReducer<E, D> {
    fn finish(self, state: S) -> (update: StreamUpdate<E, D>)
        ensures
            update@ == UpdateModel::<E, D>::empty(),
    {
        StreamUpdate::<E, D>::new()
    }
}

/// A reducer that is a function of the author's.
#[verifier::reject_recursive_types(S)]
#[verifier::reject_recursive_types(X)]
#[verifier::reject_recursive_types(R)]
pub struct FnReducer<S, X, R, F: Fn(&mut S, &X) -> R> {
    pub(crate) function: F,
    pub(crate) types: PhantomData<(S, X, R)>,
}

impl<S, X, R, F: Fn(&mut S, &X) -> R> FnReducer<S, X, R, F> {
    #[verifier::type_invariant]
    pub(crate) open(crate) spec fn inv(self) -> bool {
        forall|state: &mut S, element: &X| #[trigger] self.function.requires((state, element))
    }

    /// The function itself.
    pub open(crate) spec fn function(self) -> F {
        self.function
    }

    pub fn new(function: F) -> (reducer: Self)
        requires
            forall|state: &mut S, element: &X| #[trigger] function.requires((state, element)),
        ensures
            reducer.function() == function,
    {
        Self { function, types: PhantomData }
    }
}

impl<S, X, E, D, R: IntoStreamUpdate<E, D>, F: Fn(&mut S, &X) -> R> StreamReducer<
    S,
    X,
    E,
    D,
> for FnReducer<S, X, R, F> {
    fn reduce(&self, state: &mut S, element: &X) -> (update: StreamUpdate<E, D>)
        ensures
            exists|inner: &mut S, result: R|
                *inner == *old(state) && *final(inner) == *final(state) && #[trigger]
                    self.function().ensures((inner, element), result) && update@
                    == IntoStreamUpdate::<E, D>::stream_update(result),
    {
        proof {
            use_type_invariant(self);
        }
        let function = &self.function;
        assert(*function == self.function());
        let result = function(state, element);
        let ghost kept = result;
        let update: StreamUpdate<E, D> = result.into_stream_update();
        assert(update@ == IntoStreamUpdate::<E, D>::stream_update(kept));
        update
    }
}

/// An end of the stream that is a function of the author's.
#[verifier::reject_recursive_types(S)]
#[verifier::reject_recursive_types(R)]
pub struct FnFinish<S, R, F: FnOnce(S) -> R> {
    pub(crate) function: F,
    pub(crate) types: PhantomData<(S, R)>,
}

impl<S, R, F: FnOnce(S) -> R> FnFinish<S, R, F> {
    #[verifier::type_invariant]
    pub(crate) open(crate) spec fn inv(self) -> bool {
        forall|state: S| #[trigger] self.function.requires((state,))
    }

    /// The function itself.
    pub open(crate) spec fn function(self) -> F {
        self.function
    }

    pub fn new(function: F) -> (reducer: Self)
        requires
            forall|state: S| #[trigger] function.requires((state,)),
        ensures
            reducer.function() == function,
    {
        Self { function, types: PhantomData }
    }
}

impl<S, E, D, R: IntoStreamUpdate<E, D>, F: FnOnce(S) -> R> StreamFinish<S, E, D> for FnFinish<
    S,
    R,
    F,
> {
    fn finish(self, state: S) -> (update: StreamUpdate<E, D>)
        ensures
            exists|result: R| #[trigger]
                self.function().ensures((state,), result) && update@ == IntoStreamUpdate::<
                    E,
                    D,
                >::stream_update(result),
    {
        proof {
            use_type_invariant(&self);
        }
        let result = (self.function)(state);
        let ghost kept = result;
        let update: StreamUpdate<E, D> = result.into_stream_update();
        assert(self.function().ensures((state,), kept));
        assert(update@ == IntoStreamUpdate::<E, D>::stream_update(kept));
        update
    }
}

/// What handles the elements of one tag. It takes elements until it is finished, once.
pub trait StreamingHandler<E, D, X> {
    /// Whether the handler still takes elements.
    spec fn is_open(&self) -> bool;

    fn on_open(&mut self, element: &X) -> (update: StreamUpdate<E, D>)
        requires
            old(self).is_open(),
        ensures
            final(self).is_open(),
    ;

    fn on_stream(&mut self, element: &X) -> (update: StreamUpdate<E, D>)
        requires
            old(self).is_open(),
        ensures
            final(self).is_open(),
    ;

    fn on_complete(&mut self, element: &X) -> (update: StreamUpdate<E, D>)
        requires
            old(self).is_open(),
        ensures
            final(self).is_open(),
    ;

    fn finish(&mut self) -> (update: StreamUpdate<E, D>)
        requires
            old(self).is_open(),
        ensures
            !final(self).is_open(),
    ;
}

/// A handler with a state and a reducer for each phase of an element.
pub struct TypedStreamingHandler<S, O, T, K, F> {
    pub(crate) state: Option<S>,
    pub(crate) on_open: O,
    pub(crate) on_stream: T,
    pub(crate) on_complete: K,
    pub(crate) finish: Option<F>,
}

/// Model of [`TypedStreamingHandler`].
pub struct HandlerModel<S, O, T, K, F> {
    pub state: Option<S>,
    pub on_open: O,
    pub on_stream: T,
    pub on_complete: K,
    pub finish: Option<F>,
}

impl<S, O, T, K, F> View for TypedStreamingHandler<S, O, T, K, F> {
    type V = HandlerModel<S, O, T, K, F>;

    open(crate) spec fn view(&self) -> HandlerModel<S, O, T, K, F> {
        HandlerModel {
            state: self.state,
            on_open: self.on_open,
            on_stream: self.on_stream,
            on_complete: self.on_complete,
            finish: self.finish,
        }
    }
}

impl<S, O, T, K, F> TypedStreamingHandler<S, O, T, K, F> {
    pub fn new(state: S, on_open: O, on_stream: T, on_complete: K, finish: F) -> (handler: Self)
        ensures
            handler@ == (HandlerModel {
                state: Some(state),
                on_open,
                on_stream,
                on_complete,
                finish: Some(finish),
            }),
    {
        Self { state: Some(state), on_open, on_stream, on_complete, finish: Some(finish) }
    }
}

fn reduce_state<S, X, E, D, R: StreamReducer<S, X, E, D>>(
    state: &mut Option<S>,
    reducer: &R,
    element: &X,
) -> (update: StreamUpdate<E, D>)
    requires
        *old(state) is Some,
    ensures
        exists|inner: &mut S|
            *inner == (*old(state))->Some_0 && *final(state) == Some(*final(inner)) && #[trigger]
                call_ensures(R::reduce, (reducer, inner, element), update),
{
    match state {
        Some(inner) => reducer.reduce(inner, element),
        None => vstd::pervasive::unreached(),
    }
}

impl<
    S,
    X,
    E,
    D,
    O: StreamReducer<S, X, E, D>,
    T: StreamReducer<S, X, E, D>,
    K: StreamReducer<S, X, E, D>,
    F: StreamFinish<S, E, D>,
> StreamingHandler<E, D, X> for TypedStreamingHandler<S, O, T, K, F> {
    open(crate) spec fn is_open(&self) -> bool {
        self.state is Some && self.finish is Some
    }

    fn on_open(&mut self, element: &X) -> (update: StreamUpdate<E, D>)
        ensures
            final(self)@ == (HandlerModel { state: final(self)@.state, ..old(self)@ }),
            exists|inner: &mut S|
                *inner == old(self)@.state->Some_0 && final(self)@.state == Some(*final(inner))
                    && #[trigger] call_ensures(
                    O::reduce,
                    (&old(self)@.on_open, inner, element),
                    update,
                ),
    {
        reduce_state(&mut self.state, &self.on_open, element)
    }

    fn on_stream(&mut self, element: &X) -> (update: StreamUpdate<E, D>)
        ensures
            final(self)@ == (HandlerModel { state: final(self)@.state, ..old(self)@ }),
            exists|inner: &mut S|
                *inner == old(self)@.state->Some_0 && final(self)@.state == Some(*final(inner))
                    && #[trigger] call_ensures(
                    T::reduce,
                    (&old(self)@.on_stream, inner, element),
                    update,
                ),
    {
        reduce_state(&mut self.state, &self.on_stream, element)
    }

    fn on_complete(&mut self, element: &X) -> (update: StreamUpdate<E, D>)
        ensures
            final(self)@ == (HandlerModel { state: final(self)@.state, ..old(self)@ }),
            exists|inner: &mut S|
                *inner == old(self)@.state->Some_0 && final(self)@.state == Some(*final(inner))
                    && #[trigger] call_ensures(
                    K::reduce,
                    (&old(self)@.on_complete, inner, element),
                    update,
                ),
    {
        reduce_state(&mut self.state, &self.on_complete, element)
    }

    fn finish(&mut self) -> (update: StreamUpdate<E, D>)
        ensures
            final(self)@ == (HandlerModel { state: None, finish: None, ..old(self)@ }),
            call_ensures(
                F::finish,
                (old(self)@.finish->Some_0, old(self)@.state->Some_0),
                update,
            ),
    {
        match (self.state.take(), self.finish.take()) {
            (Some(state), Some(finish)) => finish.finish(state),
            _ => vstd::pervasive::unreached(),
        }
    }
}

/// A map from the values of one type to those of another.
pub trait EffectMap<A, B> {
    fn apply(&self, value: A) -> B;
}

impl<A, B, F: Fn(A) -> B> EffectMap<A, B> for Lane<A, B, F> {
    fn apply(&self, value: A) -> (mapped: B)
        ensures
            self.function().ensures((value,), mapped),
    {
        self.call(value)
    }
}

/// A map onto the output lane.
#[verifier::reject_recursive_types(C)]
pub struct OutputEffect<A, C: TurnChannels, F: Fn(A) -> C::Output> {
    pub(crate) lane: Lane<A, C::Output, F>,
}

impl<A, C: TurnChannels, F: Fn(A) -> C::Output> OutputEffect<A, C, F> {
    /// The function itself.
    pub open(crate) spec fn function(self) -> F {
        self.lane.function()
    }

    pub fn new(function: F) -> (map: Self)
        requires
            forall|value: A| #[trigger] function.requires((value,)),
        ensures
            map.function() == function,
    {
        Self { lane: Lane::new(function) }
    }
}

impl<A, C: TurnChannels, F: Fn(A) -> C::Output> EffectMap<A, TurnEmission<C>> for OutputEffect<A, C, F> {
    fn apply(&self, value: A) -> (mapped: TurnEmission<C>)
        ensures
            mapped is Output,
            self.function().ensures((value,), mapped->Output_0),
    {
        TurnEmission::Output(self.lane.call(value))
    }
}

/// A map onto the live lane.
#[verifier::reject_recursive_types(C)]
pub struct LiveEffect<A, C: TurnChannels, F: Fn(A) -> C::Live> {
    pub(crate) lane: Lane<A, C::Live, F>,
}

impl<A, C: TurnChannels, F: Fn(A) -> C::Live> LiveEffect<A, C, F> {
    /// The function itself.
    pub open(crate) spec fn function(self) -> F {
        self.lane.function()
    }

    pub fn new(function: F) -> (map: Self)
        requires
            forall|value: A| #[trigger] function.requires((value,)),
        ensures
            map.function() == function,
    {
        Self { lane: Lane::new(function) }
    }
}

impl<A, C: TurnChannels, F: Fn(A) -> C::Live> EffectMap<A, TurnEmission<C>> for LiveEffect<A, C, F> {
    fn apply(&self, value: A) -> (mapped: TurnEmission<C>)
        ensures
            mapped is Live,
            self.function().ensures((value,), mapped->Live_0),
    {
        TurnEmission::Live(self.lane.call(value))
    }
}

/// A map onto the commit lane.
#[verifier::reject_recursive_types(C)]
pub struct CommitEffect<A, C: TurnChannels, F: Fn(A) -> C::Commit> {
    pub(crate) lane: Lane<A, C::Commit, F>,
}

impl<A, C: TurnChannels, F: Fn(A) -> C::Commit> CommitEffect<A, C, F> {
    /// The function itself.
    pub open(crate) spec fn function(self) -> F {
        self.lane.function()
    }

    pub fn new(function: F) -> (map: Self)
        requires
            forall|value: A| #[trigger] function.requires((value,)),
        ensures
            map.function() == function,
    {
        Self { lane: Lane::new(function) }
    }
}

impl<A, C: TurnChannels, F: Fn(A) -> C::Commit> EffectMap<A, TurnEmission<C>> for CommitEffect<A, C, F> {
    fn apply(&self, value: A) -> (mapped: TurnEmission<C>)
        ensures
            mapped is Commit,
            self.function().ensures((value,), mapped->Commit_0),
    {
        TurnEmission::Commit(self.lane.call(value))
    }
}

/// A map of emissions to the lanes of the surrounding component.
pub struct ChannelEffect<Local, Root, M> {
    pub map: Arc<M>,
    pub channels: PhantomData<(Local, Root)>,
}

impl<
    Local: TurnChannels,
    Root: TurnChannels,
    M: ChannelMap<Local, Root>,
> EffectMap<TurnEmission<Local>, TurnEmission<Root>> for ChannelEffect<Local, Root, M> {
    fn apply(&self, value: TurnEmission<Local>) -> (mapped: TurnEmission<Root>)
        ensures
            emission_mapped(&*self.map, value, mapped),
    {
        map_channel_emission(&*self.map, value)
    }
}

/// A map of diagnostics to the lanes of the surrounding component.
pub struct ChannelDiagnostic<Local, Root, M> {
    pub map: Arc<M>,
    pub channels: PhantomData<(Local, Root)>,
}

impl<Local: TurnChannels, Root: TurnChannels, M: ChannelMap<Local, Root>> EffectMap<
    Local::Diagnostic,
    Root::Diagnostic,
> for ChannelDiagnostic<Local, Root, M> {
    fn apply(&self, value: Local::Diagnostic) -> (mapped: Root::Diagnostic)
        ensures
            call_ensures(M::diagnostic, (&*self.map, value), mapped),
    {
        self.map.diagnostic(value)
    }
}

/// Whether each value of `to` is what `map` gives for the value of `from` in the same
/// place.
pub open spec fn effects_mapped<A, B, M: EffectMap<A, B>>(
    map: &M,
    from: Seq<A>,
    to: Seq<B>,
) -> bool {
    &&& to.len() == from.len()
    &&& forall|i: int|
        0 <= i < from.len() ==> call_ensures(M::apply, (map, from[i]), #[trigger] to[i])
}

fn map_update_effects<A, B, D, M: EffectMap<A, B>>(map: &M, update: StreamUpdate<A, D>) -> (mapped:
    StreamUpdate<B, D>)
    ensures
        mapped@.diagnostics == update@.diagnostics,
        effects_mapped(map, update@.emissions, mapped@.emissions),
{
    let apply = |value: A| -> (mapped: B)
        ensures
            call_ensures(M::apply, (map, value), mapped),
        { map.apply(value) };
    update.map_emissions(apply)
}

fn map_update_diagnostics<A, B, E, M: EffectMap<A, B>>(
    map: &M,
    update: StreamUpdate<E, A>,
) -> (mapped: StreamUpdate<E, B>)
    ensures
        mapped@.emissions == update@.emissions,
        effects_mapped(map, update@.diagnostics, mapped@.diagnostics),
{
    let apply = |value: A| -> (mapped: B)
        ensures
            call_ensures(M::apply, (map, value), mapped),
        { map.apply(value) };
    update.map_diagnostics(apply)
}

/// A handler whose effects are mapped.
pub struct MappedEffectHandler<A, H, M> {
    pub inner: H,
    pub map: Arc<M>,
    pub mapped: PhantomData<A>,
}

impl<A, B, D, X, H: StreamingHandler<A, D, X>, M: EffectMap<A, B>> StreamingHandler<B, D, X> for MappedEffectHandler<A, H, M> {
    open spec fn is_open(&self) -> bool {
        self.inner.is_open()
    }

    fn on_open(&mut self, element: &X) -> (update: StreamUpdate<B, D>)
        ensures
            final(self).map == old(self).map,
            exists|inner: &mut H, local: StreamUpdate<A, D>|
                *inner == old(self).inner && *final(inner) == final(self).inner && #[trigger]
                    call_ensures(H::on_open, (inner, element), local) && update@.diagnostics == local@.diagnostics
                    && effects_mapped(&*old(self).map, local@.emissions, update@.emissions),
    {
        let local = self.inner.on_open(element);
        map_update_effects(&*self.map, local)
    }

    fn on_stream(&mut self, element: &X) -> (update: StreamUpdate<B, D>)
        ensures
            final(self).map == old(self).map,
            exists|inner: &mut H, local: StreamUpdate<A, D>|
                *inner == old(self).inner && *final(inner) == final(self).inner && #[trigger]
                    call_ensures(H::on_stream, (inner, element), local) && update@.diagnostics == local@.diagnostics
                    && effects_mapped(&*old(self).map, local@.emissions, update@.emissions),
    {
        let local = self.inner.on_stream(element);
        map_update_effects(&*self.map, local)
    }

    fn on_complete(&mut self, element: &X) -> (update: StreamUpdate<B, D>)
        ensures
            final(self).map == old(self).map,
            exists|inner: &mut H, local: StreamUpdate<A, D>|
                *inner == old(self).inner && *final(inner) == final(self).inner && #[trigger]
                    call_ensures(H::on_complete, (inner, element), local) && update@.diagnostics == local@.diagnostics
                    && effects_mapped(&*old(self).map, local@.emissions, update@.emissions),
    {
        let local = self.inner.on_complete(element);
        map_update_effects(&*self.map, local)
    }

    fn finish(&mut self) -> (update: StreamUpdate<B, D>)
        ensures
            final(self).map == old(self).map,
            exists|inner: &mut H, local: StreamUpdate<A, D>|
                *inner == old(self).inner && *final(inner) == final(self).inner && #[trigger]
                    call_ensures(H::finish, (inner,), local) && update@.diagnostics == local@.diagnostics
                    && effects_mapped(&*old(self).map, local@.emissions, update@.emissions),
    {
        let local = self.inner.finish();
        map_update_effects(&*self.map, local)
    }
}

/// A handler whose diagnostics are mapped.
pub struct MappedDiagnosticHandler<A, H, M> {
    pub inner: H,
    pub map: Arc<M>,
    pub mapped: PhantomData<A>,
}

impl<A, B, E, X, H: StreamingHandler<E, A, X>, M: EffectMap<A, B>> StreamingHandler<E, B, X> for MappedDiagnosticHandler<A, H, M> {
    open spec fn is_open(&self) -> bool {
        self.inner.is_open()
    }

    fn on_open(&mut self, element: &X) -> (update: StreamUpdate<E, B>)
        ensures
            final(self).map == old(self).map,
            exists|inner: &mut H, local: StreamUpdate<E, A>|
                *inner == old(self).inner && *final(inner) == final(self).inner && #[trigger]
                    call_ensures(H::on_open, (inner, element), local) && update@.emissions == local@.emissions
                    && effects_mapped(&*old(self).map, local@.diagnostics, update@.diagnostics),
    {
        let local = self.inner.on_open(element);
        map_update_diagnostics(&*self.map, local)
    }

    fn on_stream(&mut self, element: &X) -> (update: StreamUpdate<E, B>)
        ensures
            final(self).map == old(self).map,
            exists|inner: &mut H, local: StreamUpdate<E, A>|
                *inner == old(self).inner && *final(inner) == final(self).inner && #[trigger]
                    call_ensures(H::on_stream, (inner, element), local) && update@.emissions == local@.emissions
                    && effects_mapped(&*old(self).map, local@.diagnostics, update@.diagnostics),
    {
        let local = self.inner.on_stream(element);
        map_update_diagnostics(&*self.map, local)
    }

    fn on_complete(&mut self, element: &X) -> (update: StreamUpdate<E, B>)
        ensures
            final(self).map == old(self).map,
            exists|inner: &mut H, local: StreamUpdate<E, A>|
                *inner == old(self).inner && *final(inner) == final(self).inner && #[trigger]
                    call_ensures(H::on_complete, (inner, element), local) && update@.emissions == local@.emissions
                    && effects_mapped(&*old(self).map, local@.diagnostics, update@.diagnostics),
    {
        let local = self.inner.on_complete(element);
        map_update_diagnostics(&*self.map, local)
    }

    fn finish(&mut self) -> (update: StreamUpdate<E, B>)
        ensures
            final(self).map == old(self).map,
            exists|inner: &mut H, local: StreamUpdate<E, A>|
                *inner == old(self).inner && *final(inner) == final(self).inner && #[trigger]
                    call_ensures(H::finish, (inner,), local) && update@.emissions == local@.emissions
                    && effects_mapped(&*old(self).map, local@.diagnostics, update@.diagnostics),
    {
        let local = self.inner.finish();
        map_update_diagnostics(&*self.map, local)
    }
}

/// Model of [`StreamingBinding`].
pub struct StreamingBindingModel<H> {
    pub tag: Seq<char>,
    pub handler: H,
}

/// A handler and the tag that it listens to.
pub struct StreamingBinding<H> {
    pub(crate) tag: String,
    pub(crate) handler: H,
}

impl<H> View for StreamingBinding<H> {
    type V = StreamingBindingModel<H>;

    open(crate) spec fn view(&self) -> StreamingBindingModel<H> {
        StreamingBindingModel { tag: self.tag@, handler: self.handler }
    }
}

impl<H> StreamingBinding<H> {
    pub fn new(tag: &str, handler: H) -> (binding: Self)
        ensures
            binding@ == (StreamingBindingModel { tag: tag@, handler }),
    {
        Self { tag: tag.to_owned(), handler }
    }

    pub fn tag(&self) -> (tag: &str)
        ensures
            tag@ == self@.tag,
    {
        self.tag.as_str()
    }

    /// The binding with its effects mapped.
    pub fn map_effect<A, M>(self, map: Arc<M>) -> (binding: StreamingBinding<
        MappedEffectHandler<A, H, M>,
    >)
        ensures
            binding@.tag == self@.tag,
            binding@.handler.inner == self@.handler,
            binding@.handler.map == map,
    {
        StreamingBinding {
            tag: self.tag,
            handler: MappedEffectHandler { inner: self.handler, map, mapped: PhantomData },
        }
    }

    /// The binding with its diagnostics mapped.
    pub fn map_diagnostic<A, M>(self, map: Arc<M>) -> (binding: StreamingBinding<
        MappedDiagnosticHandler<A, H, M>,
    >)
        ensures
            binding@.tag == self@.tag,
            binding@.handler.inner == self@.handler,
            binding@.handler.map == map,
    {
        StreamingBinding {
            tag: self.tag,
            handler: MappedDiagnosticHandler { inner: self.handler, map, mapped: PhantomData },
        }
    }
}

} // verus!
