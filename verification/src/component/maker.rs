//! Makers of bindings and dispatchers, and how they are carried over to a surrounding
//! component.

use core::marker::PhantomData;
use std::sync::Arc;
use vstd::prelude::*;
use crate::component::binding::{mapped_binding, mapped_dispatcher, projected_binding};
use crate::component::binding::{projected_dispatcher, BindingFailure, BindingCxModel};
use crate::component::binding::{DispatcherCxModel, MappedBindingInstance};
use crate::component::binding::{MappedProviderDispatcher, ProviderDispatchFailure};
use crate::component::binding::{ProviderDispatcherCx, TurnBindingCx};
use crate::component::channels::TurnChannels;
use crate::component::declaration::share;

verus! {

/// What makes something for an attempt, of what it is told about it.
pub trait Maker<Cx, R> {
    /// Whether it may be told this.
    spec fn can_make(&self, context: Cx) -> bool;

    /// Whether it may answer like this.
    spec fn may_make(&self, context: Cx, made: R) -> bool;

    fn make(&self, context: Cx) -> (made: R)
        requires
            self.can_make(context),
        ensures
            self.may_make(context, made),
    ;
}

impl<Cx, R, H: Fn(Cx) -> R> Maker<Cx, R> for H {
    open spec fn can_make(&self, context: Cx) -> bool {
        self.requires((context,))
    }

    open spec fn may_make(&self, context: Cx, made: R) -> bool {
        self.ensures((context,), made)
    }

    fn make(&self, context: Cx) -> (made: R) {
        self(context)
    }
}

/// A maker whose products are put on the lanes of the surrounding component.
pub struct MappedMaker<Local, H, M> {
    pub inner: Arc<H>,
    pub map: Arc<M>,
    pub local: PhantomData<Local>,
}

/// Whether a maker is another one with a channel map.
pub open spec fn is_mapped<Local, H, M>(
    map: &Arc<M>,
    from: H,
    to: MappedMaker<Local, H, M>,
) -> bool {
    *to.inner == from && to.map == *map
}

/// What a channel map makes of a maker.
pub open spec fn through_map<Local, H, M>(map: Arc<M>) -> spec_fn(
    H,
    MappedMaker<Local, H, M>,
) -> bool {
    |from: H, to: MappedMaker<Local, H, M>| is_mapped(&map, from, to)
}

impl<Local, H, M> MappedMaker<Local, H, M> {
    pub fn new(inner: Arc<H>, map: Arc<M>) -> (maker: Self)
        ensures
            is_mapped(&map, *inner, maker),
    {
        Self { inner, map, local: PhantomData }
    }
}

impl<
    'a,
    Local: TurnChannels,
    Props: 'a,
    I,
    E,
    M,
    H: Maker<TurnBindingCx<'a, Props>, Result<I, BindingFailure<E>>>,
> Maker<
    TurnBindingCx<'a, Props>,
    Result<MappedBindingInstance<Local, I, Arc<M>>, BindingFailure<E>>,
> for MappedMaker<Local, H, M> {
    open spec fn can_make(&self, context: TurnBindingCx<'a, Props>) -> bool {
        forall|local: TurnBindingCx<'a, Props>|
            local@ == context@ ==> #[trigger] self.inner.can_make(local)
    }

    open spec fn may_make(
        &self,
        context: TurnBindingCx<'a, Props>,
        made: Result<MappedBindingInstance<Local, I, Arc<M>>, BindingFailure<E>>,
    ) -> bool {
        exists|local: TurnBindingCx<'a, Props>, inner: Result<I, BindingFailure<E>>|
            local@ == context@ && #[trigger] self.inner.may_make(local, inner) && match (
                inner,
                made,
            ) {
                (Ok(inner), Ok(mapped)) => mapped.inner == inner && mapped.map == self.map,
                (Err(inner), Err(failure)) => failure == inner,
                _ => false,
            }
    }

    fn make(&self, context: TurnBindingCx<'a, Props>) -> (made: Result<
        MappedBindingInstance<Local, I, Arc<M>>,
        BindingFailure<E>,
    >) {
        mapped_binding(&*self.inner, share(&self.map), context)
    }
}

impl<
    'a,
    Local: TurnChannels,
    Props: 'a,
    I,
    E,
    M,
    H: Maker<ProviderDispatcherCx<'a, Props>, Result<I, ProviderDispatchFailure<E>>>,
> Maker<
    ProviderDispatcherCx<'a, Props>,
    Result<MappedProviderDispatcher<Local, I, Arc<M>>, ProviderDispatchFailure<E>>,
> for MappedMaker<Local, H, M> {
    open spec fn can_make(&self, context: ProviderDispatcherCx<'a, Props>) -> bool {
        forall|local: ProviderDispatcherCx<'a, Props>|
            local@ == context@ ==> #[trigger] self.inner.can_make(local)
    }

    open spec fn may_make(
        &self,
        context: ProviderDispatcherCx<'a, Props>,
        made: Result<MappedProviderDispatcher<Local, I, Arc<M>>, ProviderDispatchFailure<E>>,
    ) -> bool {
        exists|local: ProviderDispatcherCx<'a, Props>, inner: Result<I, ProviderDispatchFailure<E>>|
            local@ == context@ && #[trigger] self.inner.may_make(local, inner) && match (
                inner,
                made,
            ) {
                (Ok(inner), Ok(mapped)) => mapped.inner == inner && mapped.map == self.map,
                (Err(inner), Err(failure)) => failure == inner,
                _ => false,
            }
    }

    fn make(&self, context: ProviderDispatcherCx<'a, Props>) -> (made: Result<
        MappedProviderDispatcher<Local, I, Arc<M>>,
        ProviderDispatchFailure<E>,
    >) {
        mapped_dispatcher(&*self.inner, share(&self.map), context)
    }
}

/// A maker that reads its properties out of those of the surrounding component.
pub struct ProjectedMaker<Props, H, P> {
    pub inner: Arc<H>,
    pub project: Arc<P>,
    pub props: PhantomData<Props>,
}

/// Whether a maker is another one with a projection.
pub open spec fn is_projected<Props, H, P>(
    project: &Arc<P>,
    from: H,
    to: ProjectedMaker<Props, H, P>,
) -> bool {
    *to.inner == from && to.project == *project
}

/// What a projection makes of a maker.
pub open spec fn through_projection<Props, H, P>(project: Arc<P>) -> spec_fn(
    H,
    ProjectedMaker<Props, H, P>,
) -> bool {
    |from: H, to: ProjectedMaker<Props, H, P>| is_projected(&project, from, to)
}

impl<Props, H, P> ProjectedMaker<Props, H, P> {
    pub fn new(inner: Arc<H>, project: Arc<P>) -> (maker: Self)
        ensures
            is_projected(&project, *inner, maker),
    {
        Self { inner, project, props: PhantomData }
    }
}

impl<
    'a,
    Parent: 'a,
    Props: 'a,
    I,
    E,
    P: Fn(&'a Parent) -> &'a Props,
    H: Maker<TurnBindingCx<'a, Props>, Result<I, BindingFailure<E>>>,
> Maker<TurnBindingCx<'a, Parent>, Result<I, BindingFailure<E>>> for ProjectedMaker<Props, H, P> {
    open spec fn can_make(&self, context: TurnBindingCx<'a, Parent>) -> bool {
        &&& self.project.requires((&context@.props,))
        &&& forall|local: TurnBindingCx<'a, Props>| #[trigger] self.inner.can_make(local)
    }

    open spec fn may_make(
        &self,
        context: TurnBindingCx<'a, Parent>,
        made: Result<I, BindingFailure<E>>,
    ) -> bool {
        exists|local: TurnBindingCx<'a, Props>|
            self.project.ensures((&context@.props,), &local@.props) && local@ == (BindingCxModel {
                props: local@.props,
                attempt: context@.attempt,
                binding_id: context@.binding_id,
                route: context@.route,
            }) && #[trigger] self.inner.may_make(local, made)
    }

    fn make(&self, context: TurnBindingCx<'a, Parent>) -> (made: Result<I, BindingFailure<E>>) {
        projected_binding(&*self.inner, &*self.project, context)
    }
}

impl<
    'a,
    Parent: 'a,
    Props: 'a,
    I,
    E,
    P: Fn(&'a Parent) -> &'a Props,
    H: Maker<ProviderDispatcherCx<'a, Props>, Result<I, ProviderDispatchFailure<E>>>,
> Maker<
    ProviderDispatcherCx<'a, Parent>,
    Result<I, ProviderDispatchFailure<E>>,
> for ProjectedMaker<Props, H, P> {
    open spec fn can_make(&self, context: ProviderDispatcherCx<'a, Parent>) -> bool {
        &&& self.project.requires((&context@.props,))
        &&& forall|local: ProviderDispatcherCx<'a, Props>| #[trigger] self.inner.can_make(local)
    }

    open spec fn may_make(
        &self,
        context: ProviderDispatcherCx<'a, Parent>,
        made: Result<I, ProviderDispatchFailure<E>>,
    ) -> bool {
        exists|local: ProviderDispatcherCx<'a, Props>|
            self.project.ensures((&context@.props,), &local@.props) && local@ == (
            DispatcherCxModel {
                props: local@.props,
                attempt: context@.attempt,
                capability_id: context@.capability_id,
                specs: context@.specs,
            }) && #[trigger] self.inner.may_make(local, made)
    }

    fn make(&self, context: ProviderDispatcherCx<'a, Parent>) -> (made: Result<
        I,
        ProviderDispatchFailure<E>,
    >) {
        projected_dispatcher(&*self.inner, &*self.project, context)
    }
}

} // verus!
