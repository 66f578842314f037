//! Mounted streaming bindings: made anew for each attempt from one XML contract.

use core::marker::PhantomData;
use std::sync::Arc;
use vstd::prelude::*;
use crate::component::authoring::binding;
use crate::component::binding::{BindingAbortAck, BindingAbortReason, BindingFailure};
use crate::component::binding::BindingInstance;
use crate::component::channels::{IntoStreamUpdate, LaneUpdate, StreamUpdate, TurnChannels};
use crate::component::channels::{TurnEmission, UpdateModel};
use crate::component::contract::{structural_key, RuntimeContract, RuntimeContractModel};
use crate::component::declaration::{share, DeclarationModel, FactoryDeclaration, FactoryModel};
use crate::component::declaration::RuntimeDeclaration;
use crate::component::durable::{DurableComponent, LeafModel};
use crate::component::identity::{is_key, ComponentError, ComponentErrorModel, ComponentKey};
use crate::component::mountable::Component;
use crate::component::streaming::{contract_tag, streaming_contract_tag, StreamingXml};
use crate::component::tools::{xml_route, RuntimeRoute};
use crate::component::tree::{lemma_scope_view, tree_models, ComponentNode, TreeModel};
use crate::pom::document::Document;
use crate::pom::model::{xml_edge, XmlModel};
use crate::pom::xml::XmlNode;

verus! {

/// A reducer of a mounted binding. It may fail.
pub trait MountedReducer<S, X, C: TurnChannels, E> {
    fn reduce(&self, state: &mut S, element: &X) -> Result<LaneUpdate<C>, BindingFailure<E>>;
}

/// What a mounted binding does at the end of the stream. It may fail.
pub trait MountedFinish<S, C: TurnChannels, E> {
    fn finish(&self, state: &mut S) -> Result<LaneUpdate<C>, BindingFailure<E>>;
}

/// What a mounted binding does when it is aborted.
pub trait MountedAbort<S> {
    fn abort(&self, state: &mut S, reason: BindingAbortReason) -> BindingAbortAck;
}

/// What makes the state of a mounted binding. It may fail.
pub trait MountedInitializer<Cx, S, E> {
    /// Whether a state can be asked for.
    spec fn accepts(&self, context: Cx) -> bool;

    fn initialize(&self, context: &Cx) -> (result: Result<S, BindingFailure<E>>)
        requires
            self.accepts(*context),
    ;
}

/// States that a function makes out of nothing.
pub struct StateWith<G, E> {
    pub function: G,
    pub error: PhantomData<E>,
}

impl<Cx, S, E, G: Fn() -> S> MountedInitializer<Cx, S, E> for StateWith<G, E> {
    open spec fn accepts(&self, context: Cx) -> bool {
        self.function.requires(())
    }

    fn initialize(&self, context: &Cx) -> (result: Result<S, BindingFailure<E>>)
        ensures
            result is Ok,
            self.function.ensures((), result->Ok_0),
    {
        let function = &self.function;
        Ok(function())
    }
}

/// States that a function makes out of the context of the attempt, or refuses.
pub struct TryStateWith<G> {
    pub function: G,
}

impl<Cx, S, E, G: Fn(&Cx) -> Result<S, E>> MountedInitializer<Cx, S, E> for TryStateWith<G> {
    open spec fn accepts(&self, context: Cx) -> bool {
        self.function.requires((&context,))
    }

    fn initialize(&self, context: &Cx) -> (result: Result<S, BindingFailure<E>>)
        ensures
            match result {
                Ok(state) => self.function.ensures((context,), Ok(state)),
                Err(failure) => self.function.ensures((context,), Err(failure.error())),
            },
    {
        let function = &self.function;
        match function(context) {
            Ok(state) => Ok(state),
            Err(error) => Err(BindingFailure::new(error)),
        }
    }
}

/// Nothing is done, and nothing is emitted.
pub struct NothingMounted<C, E> {
    pub(crate) types: PhantomData<(C, E)>,
}

impl<C, E> NothingMounted<C, E> {
    pub fn new() -> Self {
        Self { types: PhantomData }
    }
}

impl<S, X, C: TurnChannels, E> MountedReducer<S, X, C, E> for NothingMounted<C, E> {
    fn reduce(&self, state: &mut S, element: &X) -> (result: Result<
        LaneUpdate<C>,
        BindingFailure<E>,
    >)
        ensures
            *final(state) == *old(state),
            result is Ok,
            result->Ok_0@ == UpdateModel::<TurnEmission<C>, C::Diagnostic>::empty(),
    {
        Ok(StreamUpdate::new())
    }
}

impl<S, C: TurnChannels, E> MountedFinish<S, C, E> for NothingMounted<C, E> {
    fn finish(&self, state: &mut S) -> (result: Result<LaneUpdate<C>, BindingFailure<E>>)
        ensures
            *final(state) == *old(state),
            result is Ok,
            result->Ok_0@ == UpdateModel::<TurnEmission<C>, C::Diagnostic>::empty(),
    {
        Ok(StreamUpdate::new())
    }
}

impl<S, C, E> MountedAbort<S> for NothingMounted<C, E> {
    fn abort(&self, state: &mut S, reason: BindingAbortReason) -> (acknowledgement: BindingAbortAck)
        ensures
            *final(state) == *old(state),
            acknowledgement == BindingAbortAck::NoCleanupNeeded,
    {
        BindingAbortAck::NoCleanupNeeded
    }
}

/// A reducer that does not fail.
#[verifier::reject_recursive_types(S)]
#[verifier::reject_recursive_types(X)]
#[verifier::reject_recursive_types(R)]
#[verifier::reject_recursive_types(E)]
pub struct FnMounted<S, X, R, E, F: Fn(&mut S, &X) -> R> {
    pub(crate) function: F,
    pub(crate) types: PhantomData<(S, X, R, E)>,
}

impl<S, X, R, E, F: Fn(&mut S, &X) -> R> FnMounted<S, X, R, E, F> {
    #[verifier::type_invariant]
    pub(crate) open(crate) spec fn inv(self) -> bool {
        forall|state: &mut S, element: &X| #[trigger] self.function.requires((state, element))
    }

    /// The function itself.
    pub open(crate) spec fn function(self) -> F {
        self.function
    }

    pub fn new(function: F) -> (reducer: Self)
        requires
            forall|state: &mut S, element: &X| #[trigger] function.requires((state, element)),
        ensures
            reducer.function() == function,
    {
        Self { function, types: PhantomData }
    }
}

impl<
    S,
    X,
    C: TurnChannels,
    E,
    R: IntoStreamUpdate<TurnEmission<C>, C::Diagnostic>,
    F: Fn(&mut S, &X) -> R,
> MountedReducer<S, X, C, E> for FnMounted<S, X, R, E, F> {
    fn reduce(&self, state: &mut S, element: &X) -> (result: Result<
        LaneUpdate<C>,
        BindingFailure<E>,
    >)
        ensures
            result is Ok,
            exists|inner: &mut S, given: R|
                *inner == *old(state) && *final(inner) == *final(state) && #[trigger]
                    self.function().ensures((inner, element), given) && result->Ok_0@
                    == IntoStreamUpdate::<TurnEmission<C>, C::Diagnostic>::stream_update(given),
    {
        proof {
            use_type_invariant(self);
        }
        let function = &self.function;
        assert(*function == self.function());
        let given = function(state, element);
        let ghost kept = given;
        let update: LaneUpdate<C> = given.into_stream_update();
        assert(update@ == IntoStreamUpdate::<TurnEmission<C>, C::Diagnostic>::stream_update(kept));
        Ok(update)
    }
}

/// A reducer that may fail.
#[verifier::reject_recursive_types(S)]
#[verifier::reject_recursive_types(X)]
#[verifier::reject_recursive_types(R)]
#[verifier::reject_recursive_types(E)]
pub struct TryMounted<S, X, R, E, F: Fn(&mut S, &X) -> Result<R, E>> {
    pub(crate) function: F,
    pub(crate) types: PhantomData<(S, X, R, E)>,
}

impl<S, X, R, E, F: Fn(&mut S, &X) -> Result<R, E>> TryMounted<S, X, R, E, F> {
    #[verifier::type_invariant]
    pub(crate) open(crate) spec fn inv(self) -> bool {
        forall|state: &mut S, element: &X| #[trigger] self.function.requires((state, element))
    }

    /// The function itself.
    pub open(crate) spec fn function(self) -> F {
        self.function
    }

    pub fn new(function: F) -> (reducer: Self)
        requires
            forall|state: &mut S, element: &X| #[trigger] function.requires((state, element)),
        ensures
            reducer.function() == function,
    {
        Self { function, types: PhantomData }
    }
}

impl<
    S,
    X,
    C: TurnChannels,
    E,
    R: IntoStreamUpdate<TurnEmission<C>, C::Diagnostic>,
    F: Fn(&mut S, &X) -> Result<R, E>,
> MountedReducer<S, X, C, E> for TryMounted<S, X, R, E, F> {
    fn reduce(&self, state: &mut S, element: &X) -> (result: Result<
        LaneUpdate<C>,
        BindingFailure<E>,
    >)
        ensures
            exists|inner: &mut S, given: Result<R, E>|
                *inner == *old(state) && *final(inner) == *final(state) && #[trigger]
                    self.function().ensures((inner, element), given) && match (given, result) {
                    (Ok(given), Ok(update)) => update@ == IntoStreamUpdate::<
                        TurnEmission<C>,
                        C::Diagnostic,
                    >::stream_update(given),
                    (Err(given), Err(failure)) => failure.error() == given,
                    _ => false,
                },
    {
        proof {
            use_type_invariant(self);
        }
        let function = &self.function;
        assert(*function == self.function());
        let given = function(state, element);
        match given {
            Ok(given) => {
                let ghost kept = given;
                let update: LaneUpdate<C> = given.into_stream_update();
                assert(update@ == IntoStreamUpdate::<TurnEmission<C>, C::Diagnostic>::stream_update(
                    kept,
                ));
                Ok(update)
            },
            Err(error) => Err(BindingFailure::new(error)),
        }
    }
}

/// An end of the stream that does not fail.
#[verifier::reject_recursive_types(S)]
#[verifier::reject_recursive_types(R)]
#[verifier::reject_recursive_types(E)]
pub struct FnMountedFinish<S, R, E, F: Fn(&mut S) -> R> {
    pub(crate) function: F,
    pub(crate) types: PhantomData<(S, R, E)>,
}

impl<S, R, E, F: Fn(&mut S) -> R> FnMountedFinish<S, R, E, F> {
    #[verifier::type_invariant]
    pub(crate) open(crate) spec fn inv(self) -> bool {
        forall|state: &mut S| #[trigger] self.function.requires((state,))
    }

    /// The function itself.
    pub open(crate) spec fn function(self) -> F {
        self.function
    }

    pub fn new(function: F) -> (reducer: Self)
        requires
            forall|state: &mut S| #[trigger] function.requires((state,)),
        ensures
            reducer.function() == function,
    {
        Self { function, types: PhantomData }
    }
}

impl<
    S,
    C: TurnChannels,
    E,
    R: IntoStreamUpdate<TurnEmission<C>, C::Diagnostic>,
    F: Fn(&mut S) -> R,
> MountedFinish<S, C, E> for FnMountedFinish<S, R, E, F> {
    fn finish(&self, state: &mut S) -> (result: Result<LaneUpdate<C>, BindingFailure<E>>)
        ensures
            result is Ok,
            exists|inner: &mut S, given: R|
                *inner == *old(state) && *final(inner) == *final(state) && #[trigger]
                    self.function().ensures((inner,), given) && result->Ok_0@
                    == IntoStreamUpdate::<TurnEmission<C>, C::Diagnostic>::stream_update(given),
    {
        proof {
            use_type_invariant(self);
        }
        let function = &self.function;
        assert(*function == self.function());
        let given = function(state);
        let ghost kept = given;
        let update: LaneUpdate<C> = given.into_stream_update();
        assert(update@ == IntoStreamUpdate::<TurnEmission<C>, C::Diagnostic>::stream_update(kept));
        Ok(update)
    }
}

/// An end of the stream that may fail.
#[verifier::reject_recursive_types(S)]
#[verifier::reject_recursive_types(R)]
#[verifier::reject_recursive_types(E)]
pub struct TryMountedFinish<S, R, E, F: Fn(&mut S) -> Result<R, E>> {
    pub(crate) function: F,
    pub(crate) types: PhantomData<(S, R, E)>,
}

impl<S, R, E, F: Fn(&mut S) -> Result<R, E>> TryMountedFinish<S, R, E, F> {
    #[verifier::type_invariant]
    pub(crate) open(crate) spec fn inv(self) -> bool {
        forall|state: &mut S| #[trigger] self.function.requires((state,))
    }

    /// The function itself.
    pub open(crate) spec fn function(self) -> F {
        self.function
    }

    pub fn new(function: F) -> (reducer: Self)
        requires
            forall|state: &mut S| #[trigger] function.requires((state,)),
        ensures
            reducer.function() == function,
    {
        Self { function, types: PhantomData }
    }
}

impl<
    S,
    C: TurnChannels,
    E,
    R: IntoStreamUpdate<TurnEmission<C>, C::Diagnostic>,
    F: Fn(&mut S) -> Result<R, E>,
> MountedFinish<S, C, E> for TryMountedFinish<S, R, E, F> {
    fn finish(&self, state: &mut S) -> (result: Result<LaneUpdate<C>, BindingFailure<E>>)
        ensures
            exists|inner: &mut S, given: Result<R, E>|
                *inner == *old(state) && *final(inner) == *final(state) && #[trigger]
                    self.function().ensures((inner,), given) && match (given, result) {
                    (Ok(given), Ok(update)) => update@ == IntoStreamUpdate::<
                        TurnEmission<C>,
                        C::Diagnostic,
                    >::stream_update(given),
                    (Err(given), Err(failure)) => failure.error() == given,
                    _ => false,
                },
    {
        proof {
            use_type_invariant(self);
        }
        let function = &self.function;
        assert(*function == self.function());
        let given = function(state);
        match given {
            Ok(given) => {
                let ghost kept = given;
                let update: LaneUpdate<C> = given.into_stream_update();
                assert(update@ == IntoStreamUpdate::<TurnEmission<C>, C::Diagnostic>::stream_update(
                    kept,
                ));
                Ok(update)
            },
            Err(error) => Err(BindingFailure::new(error)),
        }
    }
}

/// What the author does on abort.
#[verifier::reject_recursive_types(S)]
pub struct FnMountedAbort<S, F: Fn(&mut S, BindingAbortReason) -> BindingAbortAck> {
    pub(crate) function: F,
    pub(crate) types: PhantomData<(S,)>,
}

impl<S, F: Fn(&mut S, BindingAbortReason) -> BindingAbortAck> FnMountedAbort<S, F> {
    #[verifier::type_invariant]
    pub(crate) open(crate) spec fn inv(self) -> bool {
        forall|state: &mut S, reason: BindingAbortReason| #[trigger] self.function.requires((state, reason))
    }

    /// The function itself.
    pub open(crate) spec fn function(self) -> F {
        self.function
    }

    pub fn new(function: F) -> (reducer: Self)
        requires
            forall|state: &mut S, reason: BindingAbortReason| #[trigger] function.requires((state, reason)),
        ensures
            reducer.function() == function,
    {
        Self { function, types: PhantomData }
    }
}

impl<S, F: Fn(&mut S, BindingAbortReason) -> BindingAbortAck> MountedAbort<S> for FnMountedAbort<
    S,
    F,
> {
    fn abort(&self, state: &mut S, reason: BindingAbortReason) -> (acknowledgement: BindingAbortAck)
        ensures
            exists|inner: &mut S|
                *inner == *old(state) && *final(inner) == *final(state) && #[trigger]
                    self.function().ensures((inner, reason), acknowledgement),
    {
        proof {
            use_type_invariant(self);
        }
        let function = &self.function;
        assert(*function == self.function());
        function(state, reason)
    }
}

/// Model of [`MountedStreamingBinding`].
pub struct MountedModel<S, O, T, K, F, A> {
    pub tag: Seq<char>,
    pub state: S,
    pub on_open: Arc<O>,
    pub on_stream: Arc<T>,
    pub on_complete: Arc<K>,
    pub on_finish: Arc<F>,
    pub on_abort: Arc<A>,
}

/// A binding of one attempt: a state of its own, and the shared reducers.
pub struct MountedStreamingBinding<S, O, T, K, F, A> {
    pub(crate) tag: String,
    pub(crate) state: S,
    pub(crate) on_open: Arc<O>,
    pub(crate) on_stream: Arc<T>,
    pub(crate) on_complete: Arc<K>,
    pub(crate) on_finish: Arc<F>,
    pub(crate) on_abort: Arc<A>,
}

impl<S, O, T, K, F, A> View for MountedStreamingBinding<S, O, T, K, F, A> {
    type V = MountedModel<S, O, T, K, F, A>;

    open(crate) spec fn view(&self) -> MountedModel<S, O, T, K, F, A> {
        MountedModel {
            tag: self.tag@,
            state: self.state,
            on_open: self.on_open,
            on_stream: self.on_stream,
            on_complete: self.on_complete,
            on_finish: self.on_finish,
            on_abort: self.on_abort,
        }
    }
}

impl<S, O, T, K, F, A> MountedStreamingBinding<S, O, T, K, F, A> {
    pub fn tag(&self) -> (tag: &str)
        ensures
            tag@ == self@.tag,
    {
        self.tag.as_str()
    }
}

impl<
    S,
    X,
    C: TurnChannels,
    E,
    O: MountedReducer<S, X, C, E>,
    T: MountedReducer<S, X, C, E>,
    K: MountedReducer<S, X, C, E>,
    F: MountedFinish<S, C, E>,
    A: MountedAbort<S>,
> BindingInstance<C, X, E> for MountedStreamingBinding<S, O, T, K, F, A> {
    fn on_open(&mut self, element: &X) -> (result: Result<LaneUpdate<C>, BindingFailure<E>>)
        ensures
            final(self)@ == (MountedModel { state: final(self)@.state, ..old(self)@ }),
            exists|inner: &mut S|
                *inner == old(self)@.state && *final(inner) == final(self)@.state && #[trigger]
                    call_ensures(O::reduce, (&*old(self)@.on_open, inner, element), result),
    {
        self.on_open.reduce(&mut self.state, element)
    }

    fn on_stream(&mut self, element: &X) -> (result: Result<LaneUpdate<C>, BindingFailure<E>>)
        ensures
            final(self)@ == (MountedModel { state: final(self)@.state, ..old(self)@ }),
            exists|inner: &mut S|
                *inner == old(self)@.state && *final(inner) == final(self)@.state && #[trigger]
                    call_ensures(T::reduce, (&*old(self)@.on_stream, inner, element), result),
    {
        self.on_stream.reduce(&mut self.state, element)
    }

    fn on_complete(&mut self, element: &X) -> (result: Result<LaneUpdate<C>, BindingFailure<E>>)
        ensures
            final(self)@ == (MountedModel { state: final(self)@.state, ..old(self)@ }),
            exists|inner: &mut S|
                *inner == old(self)@.state && *final(inner) == final(self)@.state && #[trigger]
                    call_ensures(K::reduce, (&*old(self)@.on_complete, inner, element), result),
    {
        self.on_complete.reduce(&mut self.state, element)
    }

    fn on_finish(&mut self) -> (result: Result<LaneUpdate<C>, BindingFailure<E>>)
        ensures
            final(self)@ == (MountedModel { state: final(self)@.state, ..old(self)@ }),
            exists|inner: &mut S|
                *inner == old(self)@.state && *final(inner) == final(self)@.state && #[trigger]
                    call_ensures(F::finish, (&*old(self)@.on_finish, inner), result),
    {
        self.on_finish.finish(&mut self.state)
    }

    fn abort(&mut self, reason: BindingAbortReason) -> (acknowledgement: BindingAbortAck)
        ensures
            final(self)@ == (MountedModel { state: final(self)@.state, ..old(self)@ }),
            exists|inner: &mut S|
                *inner == old(self)@.state && *final(inner) == final(self)@.state && #[trigger]
                    call_ensures(
                    A::abort,
                    (&*old(self)@.on_abort, inner, reason),
                    acknowledgement,
                ),
    {
        self.on_abort.abort(&mut self.state, reason)
    }
}

/// Model of [`StreamingXmlFactoryReducer`].
pub struct FactoryReducerModel<N, O, T, K, F, A> {
    pub contract: XmlModel,
    pub initialize: N,
    pub on_open: Arc<O>,
    pub on_stream: Arc<T>,
    pub on_complete: Arc<K>,
    pub on_finish: Arc<F>,
    pub on_abort: Arc<A>,
}

/// An XML contract from which bindings are made: how a state is made for an attempt,
/// and the reducers that all attempts share.
pub struct StreamingXmlFactoryReducer<N, O, T, K, F, A> {
    pub(crate) contract: XmlNode,
    pub(crate) initialize: N,
    pub(crate) on_open: Arc<O>,
    pub(crate) on_stream: Arc<T>,
    pub(crate) on_complete: Arc<K>,
    pub(crate) on_finish: Arc<F>,
    pub(crate) on_abort: Arc<A>,
}

impl<N, O, T, K, F, A> View for StreamingXmlFactoryReducer<N, O, T, K, F, A> {
    type V = FactoryReducerModel<N, O, T, K, F, A>;

    open(crate) spec fn view(&self) -> FactoryReducerModel<N, O, T, K, F, A> {
        FactoryReducerModel {
            contract: self.contract@,
            initialize: self.initialize,
            on_open: self.on_open,
            on_stream: self.on_stream,
            on_complete: self.on_complete,
            on_finish: self.on_finish,
            on_abort: self.on_abort,
        }
    }
}

/// The reducers of a contract that has none so far.
pub type WithoutReducers<N, C, E> = StreamingXmlFactoryReducer<
    N,
    NothingMounted<C, E>,
    NothingMounted<C, E>,
    NothingMounted<C, E>,
    NothingMounted<C, E>,
    NothingMounted<C, E>,
>;

impl<N, C, E> WithoutReducers<N, C, E> {
    /// A contract whose states are made by a function of the author's.
    pub fn new(contract: XmlNode, initialize: N) -> (reducer: Self)
        ensures
            reducer@.contract == contract@,
            reducer@.initialize == initialize,
    {
        StreamingXmlFactoryReducer {
            contract,
            initialize,
            on_open: Arc::new(NothingMounted::new()),
            on_stream: Arc::new(NothingMounted::new()),
            on_complete: Arc::new(NothingMounted::new()),
            on_finish: Arc::new(NothingMounted::new()),
            on_abort: Arc::new(NothingMounted::new()),
        }
    }
}

impl<N, O, T, K, F, A> StreamingXmlFactoryReducer<N, O, T, K, F, A> {
    /// Runs a reducer when an element opens.
    pub fn on_open<S, X, R, E, G: Fn(&mut S, &X) -> R>(self, reducer: G) -> (result: StreamingXmlFactoryReducer<
        N,
        FnMounted<S, X, R, E, G>,
        T,
        K,
        F,
        A,
    >)
        requires
            forall|state: &mut S, element: &X| #[trigger] reducer.requires((state, element)),
        ensures
            result@.contract == self@.contract,
            result@.initialize == self@.initialize,
            result@.on_open.function() == reducer,
            result@.on_stream == self@.on_stream,
            result@.on_complete == self@.on_complete,
            result@.on_finish == self@.on_finish,
            result@.on_abort == self@.on_abort,
    {
        StreamingXmlFactoryReducer {
            contract: self.contract,
            initialize: self.initialize,
            on_open: Arc::new(FnMounted::new(reducer)),
            on_stream: self.on_stream,
            on_complete: self.on_complete,
            on_finish: self.on_finish,
            on_abort: self.on_abort,
        }
    }

    /// Runs a reducer that may fail when an element opens.
    pub fn try_on_open<S, X, R, E, G: Fn(&mut S, &X) -> Result<R, E>>(self, reducer: G) -> (result: StreamingXmlFactoryReducer<
        N,
        TryMounted<S, X, R, E, G>,
        T,
        K,
        F,
        A,
    >)
        requires
            forall|state: &mut S, element: &X| #[trigger] reducer.requires((state, element)),
        ensures
            result@.contract == self@.contract,
            result@.initialize == self@.initialize,
            result@.on_open.function() == reducer,
            result@.on_stream == self@.on_stream,
            result@.on_complete == self@.on_complete,
            result@.on_finish == self@.on_finish,
            result@.on_abort == self@.on_abort,
    {
        StreamingXmlFactoryReducer {
            contract: self.contract,
            initialize: self.initialize,
            on_open: Arc::new(TryMounted::new(reducer)),
            on_stream: self.on_stream,
            on_complete: self.on_complete,
            on_finish: self.on_finish,
            on_abort: self.on_abort,
        }
    }

    /// Runs a reducer while an element streams in.
    pub fn on_stream<S, X, R, E, G: Fn(&mut S, &X) -> R>(self, reducer: G) -> (result: StreamingXmlFactoryReducer<
        N,
        O,
        FnMounted<S, X, R, E, G>,
        K,
        F,
        A,
    >)
        requires
            forall|state: &mut S, element: &X| #[trigger] reducer.requires((state, element)),
        ensures
            result@.contract == self@.contract,
            result@.initialize == self@.initialize,
            result@.on_open == self@.on_open,
            result@.on_stream.function() == reducer,
            result@.on_complete == self@.on_complete,
            result@.on_finish == self@.on_finish,
            result@.on_abort == self@.on_abort,
    {
        StreamingXmlFactoryReducer {
            contract: self.contract,
            initialize: self.initialize,
            on_open: self.on_open,
            on_stream: Arc::new(FnMounted::new(reducer)),
            on_complete: self.on_complete,
            on_finish: self.on_finish,
            on_abort: self.on_abort,
        }
    }

    /// Runs a reducer that may fail while an element streams in.
    pub fn try_on_stream<S, X, R, E, G: Fn(&mut S, &X) -> Result<R, E>>(self, reducer: G) -> (result: StreamingXmlFactoryReducer<
        N,
        O,
        TryMounted<S, X, R, E, G>,
        K,
        F,
        A,
    >)
        requires
            forall|state: &mut S, element: &X| #[trigger] reducer.requires((state, element)),
        ensures
            result@.contract == self@.contract,
            result@.initialize == self@.initialize,
            result@.on_open == self@.on_open,
            result@.on_stream.function() == reducer,
            result@.on_complete == self@.on_complete,
            result@.on_finish == self@.on_finish,
            result@.on_abort == self@.on_abort,
    {
        StreamingXmlFactoryReducer {
            contract: self.contract,
            initialize: self.initialize,
            on_open: self.on_open,
            on_stream: Arc::new(TryMounted::new(reducer)),
            on_complete: self.on_complete,
            on_finish: self.on_finish,
            on_abort: self.on_abort,
        }
    }

    /// Runs a reducer when an element is complete.
    pub fn on_complete<S, X, R, E, G: Fn(&mut S, &X) -> R>(self, reducer: G) -> (result: StreamingXmlFactoryReducer<
        N,
        O,
        T,
        FnMounted<S, X, R, E, G>,
        F,
        A,
    >)
        requires
            forall|state: &mut S, element: &X| #[trigger] reducer.requires((state, element)),
        ensures
            result@.contract == self@.contract,
            result@.initialize == self@.initialize,
            result@.on_open == self@.on_open,
            result@.on_stream == self@.on_stream,
            result@.on_complete.function() == reducer,
            result@.on_finish == self@.on_finish,
            result@.on_abort == self@.on_abort,
    {
        StreamingXmlFactoryReducer {
            contract: self.contract,
            initialize: self.initialize,
            on_open: self.on_open,
            on_stream: self.on_stream,
            on_complete: Arc::new(FnMounted::new(reducer)),
            on_finish: self.on_finish,
            on_abort: self.on_abort,
        }
    }

    /// Runs a reducer that may fail when an element is complete.
    pub fn try_on_complete<S, X, R, E, G: Fn(&mut S, &X) -> Result<R, E>>(self, reducer: G) -> (result: StreamingXmlFactoryReducer<
        N,
        O,
        T,
        TryMounted<S, X, R, E, G>,
        F,
        A,
    >)
        requires
            forall|state: &mut S, element: &X| #[trigger] reducer.requires((state, element)),
        ensures
            result@.contract == self@.contract,
            result@.initialize == self@.initialize,
            result@.on_open == self@.on_open,
            result@.on_stream == self@.on_stream,
            result@.on_complete.function() == reducer,
            result@.on_finish == self@.on_finish,
            result@.on_abort == self@.on_abort,
    {
        StreamingXmlFactoryReducer {
            contract: self.contract,
            initialize: self.initialize,
            on_open: self.on_open,
            on_stream: self.on_stream,
            on_complete: Arc::new(TryMounted::new(reducer)),
            on_finish: self.on_finish,
            on_abort: self.on_abort,
        }
    }

    /// Runs a reducer at the end of the stream.
    pub fn on_finish<S, R, E, G: Fn(&mut S) -> R>(self, reducer: G) -> (result: StreamingXmlFactoryReducer<
        N,
        O,
        T,
        K,
        FnMountedFinish<S, R, E, G>,
        A,
    >)
        requires
            forall|state: &mut S| #[trigger] reducer.requires((state,)),
        ensures
            result@.contract == self@.contract,
            result@.initialize == self@.initialize,
            result@.on_open == self@.on_open,
            result@.on_stream == self@.on_stream,
            result@.on_complete == self@.on_complete,
            result@.on_finish.function() == reducer,
            result@.on_abort == self@.on_abort,
    {
        StreamingXmlFactoryReducer {
            contract: self.contract,
            initialize: self.initialize,
            on_open: self.on_open,
            on_stream: self.on_stream,
            on_complete: self.on_complete,
            on_finish: Arc::new(FnMountedFinish::new(reducer)),
            on_abort: self.on_abort,
        }
    }

    /// Runs a reducer at the end of the stream.
    pub fn finish<S, R, E, G: Fn(&mut S) -> R>(self, reducer: G) -> (result: StreamingXmlFactoryReducer<
        N,
        O,
        T,
        K,
        FnMountedFinish<S, R, E, G>,
        A,
    >)
        requires
            forall|state: &mut S| #[trigger] reducer.requires((state,)),
        ensures
            result@.contract == self@.contract,
            result@.initialize == self@.initialize,
            result@.on_open == self@.on_open,
            result@.on_stream == self@.on_stream,
            result@.on_complete == self@.on_complete,
            result@.on_finish.function() == reducer,
            result@.on_abort == self@.on_abort,
    {
        self.on_finish(reducer)
    }

    /// Runs a reducer that may fail at the end of the stream.
    pub fn try_on_finish<S, R, E, G: Fn(&mut S) -> Result<R, E>>(self, reducer: G) -> (result: StreamingXmlFactoryReducer<
        N,
        O,
        T,
        K,
        TryMountedFinish<S, R, E, G>,
        A,
    >)
        requires
            forall|state: &mut S| #[trigger] reducer.requires((state,)),
        ensures
            result@.contract == self@.contract,
            result@.initialize == self@.initialize,
            result@.on_open == self@.on_open,
            result@.on_stream == self@.on_stream,
            result@.on_complete == self@.on_complete,
            result@.on_finish.function() == reducer,
            result@.on_abort == self@.on_abort,
    {
        StreamingXmlFactoryReducer {
            contract: self.contract,
            initialize: self.initialize,
            on_open: self.on_open,
            on_stream: self.on_stream,
            on_complete: self.on_complete,
            on_finish: Arc::new(TryMountedFinish::new(reducer)),
            on_abort: self.on_abort,
        }
    }

    /// Runs the author's cleanup on abort.
    pub fn on_abort<S, G: Fn(&mut S, BindingAbortReason) -> BindingAbortAck>(self, reducer: G) -> (result: StreamingXmlFactoryReducer<
        N,
        O,
        T,
        K,
        F,
        FnMountedAbort<S, G>,
    >)
        requires
            forall|state: &mut S, reason: BindingAbortReason| #[trigger] reducer.requires((state, reason)),
        ensures
            result@.contract == self@.contract,
            result@.initialize == self@.initialize,
            result@.on_open == self@.on_open,
            result@.on_stream == self@.on_stream,
            result@.on_complete == self@.on_complete,
            result@.on_finish == self@.on_finish,
            result@.on_abort.function() == reducer,
    {
        StreamingXmlFactoryReducer {
            contract: self.contract,
            initialize: self.initialize,
            on_open: self.on_open,
            on_stream: self.on_stream,
            on_complete: self.on_complete,
            on_finish: self.on_finish,
            on_abort: Arc::new(FnMountedAbort::new(reducer)),
        }
    }

    /// The tag of the contract, and the route that its bindings listen on.
    pub fn route(&self) -> (result: Result<RuntimeRoute, ComponentError>)
        ensures
            match contract_tag(self@.contract) {
                Err(error) => result is Err && result->Err_0@ == error,
                Ok(tag) => result is Ok && result->Ok_0@ == xml_route(tag),
            },
    {
        proof {
            use_type_invariant(&self.contract);
        }
        match streaming_contract_tag(&self.contract) {
            Ok(tag) => RuntimeRoute::xml(tag.as_str()),
            Err(error) => Err(error),
        }
    }

    fn into_factory_parts(self) -> (result: Result<
        (String, FactoryDeclaration<Self>),
        ComponentError,
    >)
        ensures
            match contract_tag(self@.contract) {
                Err(error) => result is Err && result->Err_0@ == error,
                Ok(tag) => {
                    &&& result is Ok
                    &&& result->Ok_0.0@ == tag
                    &&& is_key(tag)
                    &&& result->Ok_0.1@ == (FactoryModel {
                        route: xml_route(tag),
                        contract: None,
                        instantiate: self,
                    })
                },
            },
    {
        proof {
            use_type_invariant(&self.contract);
        }
        let tag: String = match streaming_contract_tag(&self.contract) {
            Ok(tag) => tag,
            Err(error) => return Err(error),
        };
        let route = match RuntimeRoute::xml(tag.as_str()) {
            Ok(route) => route,
            Err(error) => return Err(error),
        };
        Ok((tag, FactoryDeclaration::new(route, Arc::new(self))))
    }

    /// The contract as a component: its text, and the binding that listens to it. The
    /// reducers themselves are the handle that attempts are started with.
    pub fn into_component<D>(self) -> (component: Component<Self, D>)
        ensures
            component@ == seq![
                match contract_tag(self@.contract) {
                    Err(error) => TreeModel::Failed(error),
                    Ok(tag) => TreeModel::Scope {
                        name: "agentview::component::StreamingXml"@,
                        key: Some(tag),
                        children: seq![
                            TreeModel::Pom(seq![xml_edge(self@.contract)]),
                            TreeModel::Binding {
                                key: "stream"@,
                                binding: DeclarationModel::<Self, D>::BindingFactory(
                                    FactoryModel {
                                        route: xml_route(tag),
                                        contract: None,
                                        instantiate: self,
                                    },
                                ),
                            },
                        ],
                    },
                },
            ],
    {
        let contract = self.contract.clone();
        let (tag, declaration) = match self.into_factory_parts() {
            Ok(parts) => parts,
            Err(error) => return Component::from_error(error),
        };
        let mut children: Vec<ComponentNode<RuntimeDeclaration<Self, D>>> = Vec::new();
        children.push(ComponentNode::Pom(Document::from_xml(contract)));
        children.push(binding("stream", RuntimeDeclaration::BindingFactory(declaration)));
        let name: String = "agentview::component::StreamingXml".to_owned();
        let key = Some(ComponentKey { value: tag });
        proof {
            reveal_strlit("stream");
            lemma_scope_view(name, key, children);
            let models = tree_models(children@);
            assert(models =~= seq![models[0], models[1]]);
        }
        Component::from_node(ComponentNode::Scope { name, key, children })
    }

    /// The contract as a durable component, placed by the id of its runtime contract.
    pub fn into_durable_component<D>(self, runtime_contract: RuntimeContract) -> (component:
        DurableComponent<Self, D>)
        ensures
            component@ == match contract_tag(self@.contract) {
                Err(error) => Err(error),
                Ok(tag) => Ok(
                    durable_stream::<N, O, T, K, F, A, D>(
                        structural_key(runtime_contract@.id),
                        self,
                        tag,
                        runtime_contract@,
                    ),
                ),
            },
    {
        let contract = self.contract.clone();
        match self.into_factory_parts() {
            Ok((_, declaration)) => DurableComponent::binding(
                runtime_contract,
                Document::from_xml(contract),
                declaration,
            ),
            Err(error) => DurableComponent::from_error(error),
        }
    }

    /// The contract as a durable component under a key of the author's.
    pub fn into_durable_component_with_key<D>(
        self,
        key: &str,
        runtime_contract: RuntimeContract,
    ) -> (component: DurableComponent<Self, D>)
        ensures
            component@ == if !is_key(key@) {
                Err(ComponentErrorModel::InvalidKey { value: key@ })
            } else {
                match contract_tag(self@.contract) {
                    Err(error) => Err(error),
                    Ok(tag) => Ok(
                        durable_stream::<N, O, T, K, F, A, D>(key@, self, tag, runtime_contract@),
                    ),
                }
            },
    {
        self.into_durable_component(runtime_contract).key(key)
    }

    /// Makes the binding of an attempt: a state of its own, which the author's code may
    /// refuse, and the shared reducers.
    pub fn instantiate<Cx, S, E>(&self, tag: &str, context: &Cx) -> (result: Result<
        MountedStreamingBinding<S, O, T, K, F, A>,
        BindingFailure<E>,
    >) where N: MountedInitializer<Cx, S, E>
        requires
            self@.initialize.accepts(*context),
        ensures
            exists|made: Result<S, BindingFailure<E>>| #[trigger]
                call_ensures(N::initialize, (&self@.initialize, context), made) && match (
                    made,
                    result,
                ) {
                    (Ok(state), Ok(binding)) => binding@ == (MountedModel {
                        tag: tag@,
                        state,
                        on_open: self@.on_open,
                        on_stream: self@.on_stream,
                        on_complete: self@.on_complete,
                        on_finish: self@.on_finish,
                        on_abort: self@.on_abort,
                    }),
                    (Err(made), Err(failure)) => failure == made,
                    _ => false,
                },
    {
        let made = self.initialize.initialize(context);
        let ghost kept = made;
        assert(call_ensures(N::initialize, (&self@.initialize, context), kept));
        match made {
            Ok(state) => Ok(
                MountedStreamingBinding {
                    tag: tag.to_owned(),
                    state,
                    on_open: share(&self.on_open),
                    on_stream: share(&self.on_stream),
                    on_complete: share(&self.on_complete),
                    on_finish: share(&self.on_finish),
                    on_abort: share(&self.on_abort),
                },
            ),
            Err(failure) => Err(failure),
        }
    }
}

/// The durable leaf of a streaming contract.
pub open spec fn durable_stream<N, O, T, K, F, A, D>(
    key: Seq<char>,
    reducer: StreamingXmlFactoryReducer<N, O, T, K, F, A>,
    tag: Seq<char>,
    contract: RuntimeContractModel,
) -> LeafModel<StreamingXmlFactoryReducer<N, O, T, K, F, A>, D> {
    LeafModel {
        name: "agentview::component::DurableBinding"@,
        key,
        prompt: Some(seq![xml_edge(reducer@.contract)]),
        declaration: DeclarationModel::BindingFactory(
            FactoryModel { route: xml_route(tag), contract: Some(contract), instantiate: reducer },
        ),
    }
}

impl StreamingXml {
    /// A contract whose states are made anew for each attempt.
    pub fn state_with<C, E, G>(self, initialize: G) -> (reducer: WithoutReducers<
        StateWith<G, E>,
        C,
        E,
    >)
        ensures
            reducer@.contract == self@,
            reducer@.initialize.function == initialize,
    {
        WithoutReducers::new(self.contract, StateWith { function: initialize, error: PhantomData })
    }

    /// A contract whose states are made anew for each attempt out of its context.
    pub fn try_state_with<C, E, G>(self, initialize: G) -> (reducer: WithoutReducers<
        TryStateWith<G>,
        C,
        E,
    >)
        ensures
            reducer@.contract == self@,
            reducer@.initialize.function == initialize,
    {
        WithoutReducers::new(self.contract, TryStateWith { function: initialize })
    }
}

} // verus!
