//! The start of a streaming attempt: its bindings are made, all of them or none.

use vstd::prelude::*;
use crate::component::attempt::{binding_models, MountedAttemptBinding, MountedBindingModel};
use crate::component::attempt::{MountedStreamingAttempt, StreamingModel};
use crate::component::binding::{BindingAbortAck, BindingAbortReason, BindingCxModel};
use crate::component::binding::{BindingFailure, BindingFault, BindingInstance, BindingPhase};
use crate::component::binding::{OriginModel, TurnBindingCx};
use crate::component::channels::TurnChannels;
use crate::component::identity::AttemptModel;
use crate::component::identity::ProviderAttemptIdentity;
use crate::component::maker::Maker;
use crate::component::mount::{factory_models, BindingFactoryPlan, MountedFactoryModel};

verus! {

/// The factories that listen to XML tags, in order.
pub open spec fn xml_factories<H>(factories: Seq<MountedFactoryModel<H>>) -> Seq<
    MountedFactoryModel<H>,
>
    decreases factories.len(),
{
    if factories.len() == 0 {
        Seq::empty()
    } else {
        let before = xml_factories(factories.drop_last());
        if factories.last().declaration.route.namespace == "xml"@ {
            before.push(factories.last())
        } else {
            before
        }
    }
}

proof fn lemma_xml_prefix<H>(factories: Seq<MountedFactoryModel<H>>, at: int)
    requires
        0 <= at < factories.len(),
        factories[at].declaration.route.namespace == "xml"@,
    ensures
        xml_factories(factories.take(at)).len() < xml_factories(factories).len(),
        xml_factories(factories)[xml_factories(factories.take(at)).len() as int] == factories[at],
        forall|i: int|
            0 <= i < xml_factories(factories.take(at)).len() ==> xml_factories(factories)[i]
                == #[trigger] xml_factories(factories.take(at))[i],
    decreases factories.len(),
{
    let before = factories.drop_last();
    if at < before.len() {
        assert(before.take(at) =~= factories.take(at));
        lemma_xml_prefix(before, at);
    } else {
        assert(factories.take(at) =~= before);
    }
}

/// What a factory is told about an attempt.
pub open spec fn binding_cx<H, Props>(
    factory: MountedFactoryModel<H>,
    props: Props,
    attempt: AttemptModel,
) -> BindingCxModel<Props> {
    BindingCxModel {
        props,
        attempt,
        binding_id: factory.id,
        route: factory.declaration.route,
    }
}

/// Whether a factory may answer an attempt with a result.
pub open spec fn made_by<'a, Props: 'a, I, E, H: Maker<TurnBindingCx<'a, Props>, Result<I, BindingFailure<E>>>>(
    factory: MountedFactoryModel<H>,
    props: Props,
    attempt: AttemptModel,
    made: Result<I, BindingFailure<E>>,
) -> bool {
    exists|context: TurnBindingCx<'a, Props>|
        context@ == binding_cx(factory, props, attempt)
            && #[trigger] factory.declaration.instantiate.may_make(context, made)
}

/// A binding that was made for an attempt.
pub struct StartedBinding<I> {
    pub mounted: MountedAttemptBinding,
    pub instance: I,
}

/// An attempt that could not start: why, and what had been made before.
pub struct AttemptStartFailure<I, E> {
    pub fault: BindingFault<E>,
    pub created: Vec<StartedBinding<I>>,
}

/// Whether bindings were made by the first of several factories.
pub open spec fn started_from<'a, Props: 'a, I, E, H: Maker<TurnBindingCx<'a, Props>, Result<I, BindingFailure<E>>>>(
    factories: Seq<MountedFactoryModel<H>>,
    props: Props,
    attempt: AttemptModel,
    started: Seq<StartedBinding<I>>,
) -> bool {
    &&& started.len() <= factories.len()
    &&& forall|i: int|
        0 <= i < started.len() ==> {
            &&& (#[trigger] started[i]).mounted@ == (MountedBindingModel {
                id: factories[i].id,
                route: factories[i].declaration.route,
            })
            &&& made_by::<Props, I, E, H>(
                factories[i],
                props,
                attempt,
                Ok::<I, BindingFailure<E>>(started[i].instance),
            )
        }
}

/// Makes the bindings of an attempt, in order. The first failure ends it.
pub fn instantiate_bindings<'a, Props: 'a, I, E, H: Maker<TurnBindingCx<'a, Props>, Result<I, BindingFailure<E>>>>(
    plan: &'a BindingFactoryPlan<H>,
    props: &'a Props,
    identity: &'a ProviderAttemptIdentity,
) -> (result: Result<Vec<StartedBinding<I>>, AttemptStartFailure<I, E>>)
    requires
        forall|i: int, context: TurnBindingCx<'a, Props>|
            0 <= i < plan@.len() ==> #[trigger] plan@[i].declaration.instantiate.can_make(context),
    ensures
        match result {
            Ok(started) => {
                &&& started@.len() == xml_factories(plan@).len()
                &&& started_from::<Props, I, E, H>(
                    xml_factories(plan@),
                    *props,
                    identity@,
                    started@,
                )
            },
            Err(failure) => {
                let failed = xml_factories(plan@)[failure.created@.len() as int];
                &&& failure.created@.len() < xml_factories(plan@).len()
                &&& started_from::<Props, I, E, H>(
                    xml_factories(plan@),
                    *props,
                    identity@,
                    failure.created@,
                )
                &&& failure.fault@.origin == (OriginModel {
                    attempt: identity@,
                    binding_id: failed.id,
                    route: failed.declaration.route,
                })
                &&& failure.fault@.phase == BindingPhase::Initialize
                &&& exists|source: BindingFailure<E>|
                    source.error() == failure.fault@.error && #[trigger] made_by::<
                        Props,
                        I,
                        E,
                        H,
                    >(failed, *props, identity@, Err::<I, BindingFailure<E>>(source))
            },
        },
{
    let ghost models = plan@;
    let xml: String = "xml".to_owned();
    let mut started: Vec<StartedBinding<I>> = Vec::new();
    let factories = plan.factories();
    let count: usize = factories.len();
    assert(models.take(0) =~= Seq::empty());
    for i in 0..count
        invariant
            count == factories@.len(),
            models == plan@,
            models == factory_models(factories@),
            xml@ == "xml"@,
            forall|i: int, context: TurnBindingCx<'a, Props>|
                0 <= i < plan@.len() ==> #[trigger] plan@[i].declaration.instantiate.can_make(context),
            started@.len() == xml_factories(models.take(i as int)).len(),
            started_from::<Props, I, E, H>(
                xml_factories(models.take(i as int)),
                *props,
                identity@,
                started@,
            ),
    {
        let ghost before = models.take(i as int);
        let ghost after = models.take(i as int + 1);
        proof {
            assert(models[i as int] == factories@[i as int]@);
            assert(after.drop_last() =~= before);
            assert(after.last() == models[i as int]);
        }
        let factory = &factories[i];
        if factory.declaration.route.namespace == xml {
            let ghost so_far = started@;
            let made = factory.instantiate(props, identity);
            match made {
                Ok(instance) => {
                    let binding = StartedBinding {
                        mounted: MountedAttemptBinding::new(
                            factory.id.clone(),
                            factory.declaration.route.clone(),
                        ),
                        instance,
                    };
                    let ghost added = binding;
                    started.push(binding);
                    proof {
                        assert(made_by::<Props, I, E, H>(
                            models[i as int],
                            *props,
                            identity@,
                            Ok::<I, BindingFailure<E>>(added.instance),
                        ));
                        let listed = xml_factories(after);
                        assert(listed =~= xml_factories(before).push(models[i as int]));
                        assert forall|j: int| 0 <= j < started@.len() implies (
                        #[trigger] started@[j]).mounted@ == (MountedBindingModel {
                            id: listed[j].id,
                            route: listed[j].declaration.route,
                        }) && made_by::<Props, I, E, H>(
                            listed[j],
                            *props,
                            identity@,
                            Ok::<I, BindingFailure<E>>(started@[j].instance),
                        ) by {
                            if j < so_far.len() {
                                assert(started@[j] == so_far[j]);
                                assert(listed[j] == xml_factories(before)[j]);
                            }
                        }
                    }
                },
                Err(fault) => {
                    proof {
                        lemma_xml_prefix(models, i as int);
                        let all = xml_factories(models);
                        let at = started@.len() as int;
                        assert(all[at] == models[i as int]);
                        assert forall|j: int| 0 <= j < started@.len() implies (
                        #[trigger] started@[j]).mounted@ == (MountedBindingModel {
                            id: all[j].id,
                            route: all[j].declaration.route,
                        }) && made_by::<Props, I, E, H>(
                            all[j],
                            *props,
                            identity@,
                            Ok::<I, BindingFailure<E>>(started@[j].instance),
                        ) by {
                            assert(all[j] == xml_factories(before)[j]);
                        }
                        let (context, answer) = choose|
                            context: TurnBindingCx<'a, Props>,
                            answer: Result<I, BindingFailure<E>>,
                        |
                            context@ == binding_cx(models[i as int], *props, identity@)
                                && #[trigger] models[i as int].declaration.instantiate.may_make(context, answer) && answer is Err && fault@.error == answer->Err_0.error();
                        assert(made_by::<Props, I, E, H>(
                            all[at],
                            *props,
                            identity@,
                            Err::<I, BindingFailure<E>>(answer->Err_0),
                        ));
                    }
                    return Err(AttemptStartFailure { fault, created: started });
                },
            }
        }
    }
    assert(models.take(models.len() as int) =~= models);
    Ok(started)
}

/// Aborts bindings that were made, in order, and says what each answered.
pub fn abort_started<C: TurnChannels, X, E, I: BindingInstance<C, X, E>>(
    created: Vec<StartedBinding<I>>,
    reason: BindingAbortReason,
) -> (acknowledgements: Vec<BindingAbortAck>)
    ensures
        acknowledgements@.len() == created@.len(),
        forall|i: int|
            0 <= i < created@.len() ==> may_acknowledge::<C, X, E, I>(
                created@[i].instance,
                reason,
                #[trigger] acknowledgements@[i],
            ),
{
    let ghost all = created@;
    let mut acknowledgements: Vec<BindingAbortAck> = Vec::new();
    for binding in iter: created
        invariant
            iter.seq() == all,
            all == created@,
            acknowledgements@.len() == iter.index(),
            forall|i: int|
                0 <= i < acknowledgements@.len() ==> may_acknowledge::<C, X, E, I>(
                    all[i].instance,
                    reason,
                    #[trigger] acknowledgements@[i],
                ),
    {
        let mut instance = binding.instance;
        let acknowledgement = instance.abort(reason);
        assert(may_acknowledge::<C, X, E, I>(
            all[iter.index() as int].instance,
            reason,
            acknowledgement,
        ));
        acknowledgements.push(acknowledgement);
    }
    acknowledgements
}

/// Whether a binding may answer an abort like this.
pub open spec fn may_acknowledge<C: TurnChannels, X, E, I: BindingInstance<C, X, E>>(
    instance: I,
    reason: BindingAbortReason,
    acknowledgement: BindingAbortAck,
) -> bool {
    exists|open: &mut I|
        *open == instance && #[trigger] call_ensures(I::abort, (open, reason), acknowledgement)
}

/// Whether a fault and the answers of aborted bindings are those of factories of which
/// one could not make its binding: the fault is what that factory reported, and the
/// bindings of all factories before it were aborted.
pub open spec fn start_refused<
    'a,
    Props: 'a,
    C: TurnChannels,
    X,
    I: BindingInstance<C, X, E>,
    E,
    H: Maker<TurnBindingCx<'a, Props>, Result<I, BindingFailure<E>>>,
>(
    factories: Seq<MountedFactoryModel<H>>,
    props: Props,
    attempt: AttemptModel,
    fault: BindingFault<E>,
    acknowledgements: Seq<BindingAbortAck>,
) -> bool {
    let failed = factories[acknowledgements.len() as int];
    &&& acknowledgements.len() < factories.len()
    &&& fault@.phase == BindingPhase::Initialize
    &&& fault@.origin == (OriginModel {
        attempt,
        binding_id: failed.id,
        route: failed.declaration.route,
    })
    &&& exists|source: BindingFailure<E>|
        source.error() == fault@.error && #[trigger] made_by::<Props, I, E, H>(
            failed,
            props,
            attempt,
            Err::<I, BindingFailure<E>>(source),
        )
    &&& exists|created: Seq<StartedBinding<I>>|
        created.len() == acknowledgements.len() && #[trigger] started_from::<Props, I, E, H>(
            factories,
            props,
            attempt,
            created,
        ) && all_acknowledged::<C, X, E, I>(created, acknowledgements)
}

/// Whether bindings may answer like this when their attempt does not start.
pub open spec fn all_acknowledged<C: TurnChannels, X, E, I: BindingInstance<C, X, E>>(
    created: Seq<StartedBinding<I>>,
    acknowledgements: Seq<BindingAbortAck>,
) -> bool {
    &&& acknowledgements.len() == created.len()
    &&& forall|i: int|
        0 <= i < created.len() ==> may_acknowledge::<C, X, E, I>(
            created[i].instance,
            BindingAbortReason::InitializationFailure,
            #[trigger] acknowledgements[i],
        )
}

/// Starts the bindings of an attempt: all of them, or none. Where one cannot be made,
/// those made before it are aborted, and the fault is reported with their answers.
pub fn start_bindings<'a, Props: 'a, C: TurnChannels, X, I: BindingInstance<C, X, E>, E, H: Maker<TurnBindingCx<'a, Props>, Result<I, BindingFailure<E>>>>(
    plan: &'a BindingFactoryPlan<H>,
    props: &'a Props,
    identity: &'a ProviderAttemptIdentity,
) -> (result: Result<Vec<StartedBinding<I>>, (BindingFault<E>, Vec<BindingAbortAck>)>)
    requires
        forall|i: int, context: TurnBindingCx<'a, Props>|
            0 <= i < plan@.len() ==> #[trigger] plan@[i].declaration.instantiate.can_make(context),
    ensures
        match result {
            Ok(started) => {
                &&& started@.len() == xml_factories(plan@).len()
                &&& started_from::<Props, I, E, H>(
                    xml_factories(plan@),
                    *props,
                    identity@,
                    started@,
                )
            },
            Err((fault, acknowledgements)) => start_refused::<Props, C, X, I, E, H>(
                xml_factories(plan@),
                *props,
                identity@,
                fault,
                acknowledgements@,
            ),
        },
{
    match instantiate_bindings(plan, props, identity) {
        Ok(started) => Ok(started),
        Err(failure) => {
            let AttemptStartFailure { fault, created } = failure;
            let ghost made = created@;
            let acknowledgements = abort_started::<C, X, E, I>(
                created,
                BindingAbortReason::InitializationFailure,
            );
            assert(started_from::<Props, I, E, H>(
                xml_factories(plan@),
                *props,
                identity@,
                made,
            ));
            assert(all_acknowledged::<C, X, E, I>(made, acknowledgements@));
            Err((fault, acknowledgements))
        },
    }
}

/// An attempt that has started, with its bindings and what runs its provider tools.
pub struct StartedAttempt<C: TurnChannels, I, P> {
    pub attempt: MountedStreamingAttempt<C>,
    pub instances: Vec<I>,
    pub providers: P,
}

/// The model of an attempt that starts with some bindings.
pub open spec fn mounted_from<I>(started: Seq<StartedBinding<I>>) -> Seq<MountedBindingModel> {
    started.map_values(|binding: StartedBinding<I>| binding.mounted@)
}

/// The instances of bindings that were made, in order.
pub open spec fn instances_of<I>(started: Seq<StartedBinding<I>>) -> Seq<I> {
    started.map_values(|binding: StartedBinding<I>| binding.instance)
}

/// Takes the answer of the provider tools once all bindings were made. With their
/// runtime the attempt starts. Without it all bindings are aborted, and the fault is
/// reported with their answers.
pub fn providers_answered<C: TurnChannels, X, E, I: BindingInstance<C, X, E>, P, F>(
    identity: ProviderAttemptIdentity,
    started: Vec<StartedBinding<I>>,
    answer: Result<P, F>,
) -> (result: Result<StartedAttempt<C, I, P>, (F, Vec<BindingAbortAck>)>)
    ensures
        match (answer, result) {
            (Ok(providers), Ok(begun)) => {
                &&& begun.attempt@ == StreamingModel::<C>::fresh(
                    identity@,
                    mounted_from(started@),
                )
                &&& begun.instances@ == instances_of(started@)
                &&& begun.providers == providers
            },
            (Err(fault), Err((reported, acknowledgements))) => {
                &&& reported == fault
                &&& all_acknowledged::<C, X, E, I>(started@, acknowledgements@)
            },
            _ => false,
        },
{
    let providers = match answer {
        Ok(providers) => providers,
        Err(fault) => {
            let acknowledgements = abort_started::<C, X, E, I>(
                started,
                BindingAbortReason::InitializationFailure,
            );
            return Err((fault, acknowledgements));
        },
    };
    let ghost all = started@;
    let mut bindings: Vec<MountedAttemptBinding> = Vec::new();
    let mut instances: Vec<I> = Vec::new();
    for binding in iter: started
        invariant
            iter.seq() == all,
            bindings@.len() == iter.index(),
            instances@.len() == iter.index(),
            forall|i: int|
                0 <= i < iter.index() ==> (#[trigger] bindings@[i])@ == all[i].mounted@,
            forall|i: int| 0 <= i < iter.index() ==> #[trigger] instances@[i] == all[i].instance,
    {
        bindings.push(binding.mounted);
        instances.push(binding.instance);
    }
    assert(binding_models(bindings@) =~= mounted_from(all));
    assert(instances@ =~= instances_of(all));
    Ok(
        StartedAttempt {
            attempt: MountedStreamingAttempt::new(identity, bindings),
            instances,
            providers,
        },
    )
}

/// Why an attempt could not start: `E` is what bindings report, `F` what provider tools
/// report.
#[derive(Debug)]
pub enum StreamingAttemptStartError<E, F> {
    Binding(BindingFault<E>),
    Provider(F),
}

impl<E, F> StreamingAttemptStartError<E, F> {
    pub fn binding_fault(&self) -> (fault: Option<&BindingFault<E>>)
        ensures
            match *self {
                StreamingAttemptStartError::Binding(own) => fault == Some(&own),
                StreamingAttemptStartError::Provider(_) => fault is None,
            },
    {
        match self {
            StreamingAttemptStartError::Binding(fault) => Some(fault),
            StreamingAttemptStartError::Provider(_) => None,
        }
    }

    pub fn provider_fault(&self) -> (fault: Option<&F>)
        ensures
            match *self {
                StreamingAttemptStartError::Binding(_) => fault is None,
                StreamingAttemptStartError::Provider(own) => fault == Some(&own),
            },
    {
        match self {
            StreamingAttemptStartError::Binding(_) => None,
            StreamingAttemptStartError::Provider(fault) => Some(fault),
        }
    }
}

/// Whether an attempt started with the bindings that factories made, and in their order.
pub open spec fn begun_from<
    'a,
    Props: 'a,
    C: TurnChannels,
    I,
    P,
    E,
    H: Maker<TurnBindingCx<'a, Props>, Result<I, BindingFailure<E>>>,
>(
    factories: Seq<MountedFactoryModel<H>>,
    props: Props,
    attempt: AttemptModel,
    begun: StartedAttempt<C, I, P>,
) -> bool {
    exists|started: Seq<StartedBinding<I>>|
        started.len() == factories.len() && #[trigger] started_from::<Props, I, E, H>(
            factories,
            props,
            attempt,
            started,
        ) && begun.attempt@ == StreamingModel::<C>::fresh(attempt, mounted_from(started))
            && begun.instances@ == instances_of(started)
}

/// Whether all bindings were made and then aborted, with these answers.
pub open spec fn begun_in_vain<
    'a,
    Props: 'a,
    C: TurnChannels,
    X,
    I: BindingInstance<C, X, E>,
    E,
    H: Maker<TurnBindingCx<'a, Props>, Result<I, BindingFailure<E>>>,
>(
    factories: Seq<MountedFactoryModel<H>>,
    props: Props,
    attempt: AttemptModel,
    acknowledgements: Seq<BindingAbortAck>,
) -> bool {
    exists|started: Seq<StartedBinding<I>>|
        started.len() == factories.len() && #[trigger] started_from::<Props, I, E, H>(
            factories,
            props,
            attempt,
            started,
        ) && all_acknowledged::<C, X, E, I>(started, acknowledgements)
}

/// Starts an attempt: its bindings first, and then what runs its provider tools. It
/// starts as a whole or not at all, and then every binding that was made is aborted.
pub fn start_attempt<
    'a,
    Props: 'a,
    C: TurnChannels,
    X,
    I: BindingInstance<C, X, E>,
    E,
    H: Maker<TurnBindingCx<'a, Props>, Result<I, BindingFailure<E>>>,
    P,
    F,
    M: FnOnce(&'a ProviderAttemptIdentity) -> Result<P, F>,
>(
    plan: &'a BindingFactoryPlan<H>,
    props: &'a Props,
    identity: &'a ProviderAttemptIdentity,
    make_providers: M,
) -> (result: Result<
    StartedAttempt<C, I, P>,
    (StreamingAttemptStartError<E, F>, Vec<BindingAbortAck>),
>)
    requires
        forall|i: int, context: TurnBindingCx<'a, Props>|
            0 <= i < plan@.len() ==> #[trigger] plan@[i].declaration.instantiate.can_make(context),
        make_providers.requires((identity,)),
    ensures
        match result {
            Ok(begun) => {
                &&& begun_from::<Props, C, I, P, E, H>(
                    xml_factories(plan@),
                    *props,
                    identity@,
                    begun,
                )
                &&& make_providers.ensures((identity,), Ok::<P, F>(begun.providers))
            },
            Err((StreamingAttemptStartError::Binding(fault), acknowledgements)) => {
                start_refused::<Props, C, X, I, E, H>(
                    xml_factories(plan@),
                    *props,
                    identity@,
                    fault,
                    acknowledgements@,
                )
            },
            Err((StreamingAttemptStartError::Provider(fault), acknowledgements)) => {
                &&& make_providers.ensures((identity,), Err::<P, F>(fault))
                &&& begun_in_vain::<Props, C, X, I, E, H>(
                    xml_factories(plan@),
                    *props,
                    identity@,
                    acknowledgements@,
                )
            },
        },
{
    let started = match start_bindings::<Props, C, X, I, E, H>(plan, props, identity) {
        Ok(started) => started,
        Err((fault, acknowledgements)) => {
            return Err((StreamingAttemptStartError::Binding(fault), acknowledgements));
        },
    };
    let ghost made = started@;
    let answer = make_providers(identity);
    assert(started_from::<Props, I, E, H>(xml_factories(plan@), *props, identity@, made));
    match providers_answered::<C, X, E, I, P, F>(identity.clone(), started, answer) {
        Ok(begun) => Ok(begun),
        Err((fault, acknowledgements)) => Err(
            (StreamingAttemptStartError::Provider(fault), acknowledgements),
        ),
    }
}

} // verus!
