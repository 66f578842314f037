//! Publishing an attempt that only called provider tools.

use vstd::prelude::*;
use crate::component::channels::{LaneUpdate, TurnChannels, TurnEmission, UpdateModel};
use crate::component::finishing::PublicationStagingFailure;
use crate::component::identity::{AttemptModel, ProviderAttemptIdentity};
use crate::component::publication::{PlanDataModel, PublicationAttempt, PublicationModel};
use crate::component::publication::{PublicationPhase, PublicationReceipt};
use crate::component::publication::{PublicationStagingPlan, ReceiptModel, StagedPublication};
use crate::component::tools::{result_models, ProviderToolResult, ToolResultModel};

verus! {

/// Model of [`FinishedProviderAttempt`].
pub struct FinishedProviderModel<C: TurnChannels> {
    pub identity: AttemptModel,
    pub results: Seq<ToolResultModel>,
    pub update: UpdateModel<TurnEmission<C>, C::Diagnostic>,
}

/// A finished attempt that only called provider tools.
#[must_use]
pub struct FinishedProviderAttempt<C: TurnChannels> {
    pub(crate) identity: ProviderAttemptIdentity,
    pub(crate) results: Vec<ProviderToolResult>,
    pub(crate) update: LaneUpdate<C>,
}

impl<C: TurnChannels> View for FinishedProviderAttempt<C> {
    type V = FinishedProviderModel<C>;

    open(crate) spec fn view(&self) -> FinishedProviderModel<C> {
        FinishedProviderModel {
            identity: self.identity@,
            results: result_models(self.results@),
            update: self.update@,
        }
    }
}

impl<C: TurnChannels> FinishedProviderAttempt<C> {
    pub fn new(
        identity: ProviderAttemptIdentity,
        results: Vec<ProviderToolResult>,
        update: LaneUpdate<C>,
    ) -> (finished: Self)
        ensures
            finished@ == (FinishedProviderModel::<C> {
                identity: identity@,
                results: result_models(results@),
                update: update@,
            }),
    {
        Self { identity, results, update }
    }

    pub fn identity(&self) -> (identity: &ProviderAttemptIdentity)
        ensures
            identity@ == self@.identity,
    {
        &self.identity
    }

    /// What outlives a durable publication.
    pub fn into_durable_parts(self) -> (parts: (Vec<ProviderToolResult>, LaneUpdate<C>))
        ensures
            result_models(parts.0@) == self@.results,
            parts.1@ == self@.update,
    {
        (self.results, self.update)
    }
}

/// A failed staging. It keeps the finished attempt and the plan.
#[must_use]
pub struct ProviderPublicationStagingFailure<
    C: TurnChannels,
    Mutation,
    Version,
    CommitError,
    FingerprintError,
> {
    pub(crate) finished: FinishedProviderAttempt<C>,
    pub(crate) plan: PublicationStagingPlan<Mutation, Version>,
    pub(crate) source: PublicationStagingFailure<CommitError, FingerprintError>,
}

impl<
    C: TurnChannels,
    Mutation,
    Version,
    CommitError,
    FingerprintError,
> ProviderPublicationStagingFailure<C, Mutation, Version, CommitError, FingerprintError> {
    /// The kept attempt.
    pub open(crate) spec fn kept(self) -> FinishedProviderModel<C> {
        self.finished@
    }

    /// The kept plan.
    pub open(crate) spec fn kept_plan(self) -> PlanDataModel<Mutation, Version> {
        self.plan@
    }

    /// What went wrong.
    pub open(crate) spec fn reason(self) -> PublicationStagingFailure<
        CommitError,
        FingerprintError,
    > {
        self.source
    }

    pub fn new(
        finished: FinishedProviderAttempt<C>,
        plan: PublicationStagingPlan<Mutation, Version>,
        source: PublicationStagingFailure<CommitError, FingerprintError>,
    ) -> (failure: Self)
        ensures
            failure.kept() == finished@,
            failure.kept_plan() == plan@,
            failure.reason() == source,
    {
        Self { finished, plan, source }
    }

    pub fn identity(&self) -> (identity: &ProviderAttemptIdentity)
        ensures
            identity@ == self.kept().identity,
    {
        self.finished.identity()
    }

    pub fn source_error(&self) -> (source: &PublicationStagingFailure<
        CommitError,
        FingerprintError,
    >)
        ensures
            *source == self.reason(),
    {
        &self.source
    }

    pub fn plan(&self) -> (plan: &PublicationStagingPlan<Mutation, Version>)
        ensures
            plan@ == self.kept_plan(),
    {
        &self.plan
    }

    pub fn into_parts(self) -> (parts: (
        FinishedProviderAttempt<C>,
        PublicationStagingPlan<Mutation, Version>,
        PublicationStagingFailure<CommitError, FingerprintError>,
    ))
        ensures
            parts.0@ == self.kept(),
            parts.1@ == self.kept_plan(),
            parts.2 == self.reason(),
    {
        (self.finished, self.plan, self.source)
    }
}

/// Model of [`StagedProviderPublication`].
pub struct StagedProviderModel<C: TurnChannels, Mutation, Payload, Version> {
    pub finished: FinishedProviderModel<C>,
    pub publication: PublicationModel<Mutation, Payload, Version>,
}

/// A finished attempt and its publication.
#[must_use]
pub struct StagedProviderPublication<C: TurnChannels, Mutation, Payload, Version> {
    pub(crate) finished: FinishedProviderAttempt<C>,
    pub(crate) publication: PublicationAttempt<Mutation, Payload, Version>,
}

impl<C: TurnChannels, Mutation, Payload, Version> View for StagedProviderPublication<
    C,
    Mutation,
    Payload,
    Version,
> {
    type V = StagedProviderModel<C, Mutation, Payload, Version>;

    open(crate) spec fn view(&self) -> StagedProviderModel<C, Mutation, Payload, Version> {
        StagedProviderModel { finished: self.finished@, publication: self.publication@ }
    }
}

impl<C: TurnChannels, Mutation, Payload, Version> StagedProviderPublication<
    C,
    Mutation,
    Payload,
    Version,
> {
    pub fn new(
        finished: FinishedProviderAttempt<C>,
        candidate: StagedPublication<Mutation, Payload, Version>,
    ) -> (staged: Self)
        ensures
            staged@ == (StagedProviderModel::<C, Mutation, Payload, Version> {
                finished: finished@,
                publication: PublicationModel::Ready(candidate@),
            }),
    {
        Self { finished, publication: PublicationAttempt::new(candidate) }
    }

    pub fn identity(&self) -> (identity: &ProviderAttemptIdentity)
        ensures
            identity@ == self@.finished.identity,
    {
        self.finished.identity()
    }

    pub fn phase(&self) -> (phase: PublicationPhase)
        ensures
            phase == self@.publication.phase(),
    {
        self.publication.phase()
    }

    pub fn candidate(&self) -> (candidate: Option<&StagedPublication<Mutation, Payload, Version>>)
        ensures
            match candidate {
                Some(candidate) => self@.publication == PublicationModel::Ready(candidate@)
                    || self@.publication == PublicationModel::Resolving(candidate@),
                None => self@.publication is Published,
            },
    {
        self.publication.candidate()
    }

    pub fn receipt(&self) -> (receipt: Option<&PublicationReceipt<Version>>)
        ensures
            match receipt {
                Some(receipt) => self@.publication == PublicationModel::<
                    Mutation,
                    Payload,
                    Version,
                >::Published(receipt@),
                None => !(self@.publication is Published),
            },
    {
        self.publication.receipt()
    }

    /// The publication, for asking the store and taking its answers.
    pub fn publication_mut(&mut self) -> (publication: &mut PublicationAttempt<
        Mutation,
        Payload,
        Version,
    >)
        ensures
            publication@ == old(self)@.publication,
            final(self)@ == (StagedProviderModel::<C, Mutation, Payload, Version> {
                publication: final(publication)@,
                ..old(self)@
            }),
    {
        &mut self.publication
    }

    /// Hands the attempt and the plan back, but only where nothing of them is stored.
    pub fn into_finished_and_plan_if_ready(self) -> (result: Result<
        (FinishedProviderAttempt<C>, PublicationStagingPlan<Mutation, Version>),
        Self,
    >)
        ensures
            match result {
                Ok((finished, plan)) => {
                    &&& self@.publication is Ready
                    &&& finished@ == self@.finished
                    &&& plan@ == self@.publication->Ready_0.plan()
                },
                Err(staged) => !(self@.publication is Ready) && staged@ == self@,
            },
    {
        match self.publication.into_ready_candidate() {
            Ok(candidate) => Ok((self.finished, candidate.into_staging_plan())),
            Err(publication) => Err(Self { finished: self.finished, publication }),
        }
    }

    /// Hands the attempt back, but only where nothing of it is stored.
    pub fn into_finished_if_ready(self) -> (result: Result<FinishedProviderAttempt<C>, Self>)
        ensures
            match result {
                Ok(finished) => self@.publication is Ready && finished@ == self@.finished,
                Err(staged) => !(self@.publication is Ready) && staged@ == self@,
            },
    {
        match self.into_finished_and_plan_if_ready() {
            Ok((finished, _)) => Ok(finished),
            Err(staged) => Err(staged),
        }
    }

    /// What is left once the store has confirmed the publication.
    pub fn into_published(self) -> (result: Result<
        DurablyPublishedProviderAttempt<C, Version>,
        Self,
    >)
        ensures
            match result {
                Ok(published) => {
                    &&& self@.publication is Published
                    &&& published@ == (DurablyPublishedProviderModel::<C, Version> {
                        receipt: self@.publication->Published_0,
                        results: self@.finished.results,
                        update: self@.finished.update,
                    })
                },
                Err(staged) => !(self@.publication is Published) && staged@ == self@,
            },
    {
        match self.publication.into_receipt() {
            Ok(receipt) => {
                let (results, update) = self.finished.into_durable_parts();
                Ok(DurablyPublishedProviderAttempt { receipt, results, update })
            },
            Err(publication) => Err(Self { finished: self.finished, publication }),
        }
    }
}

/// Model of [`DurablyPublishedProviderAttempt`].
pub struct DurablyPublishedProviderModel<C: TurnChannels, Version> {
    pub receipt: ReceiptModel<Version>,
    pub results: Seq<ToolResultModel>,
    pub update: UpdateModel<TurnEmission<C>, C::Diagnostic>,
}

/// An attempt that the store has published.
#[must_use]
pub struct DurablyPublishedProviderAttempt<C: TurnChannels, Version> {
    pub(crate) receipt: PublicationReceipt<Version>,
    pub(crate) results: Vec<ProviderToolResult>,
    pub(crate) update: LaneUpdate<C>,
}

impl<C: TurnChannels, Version> View for DurablyPublishedProviderAttempt<C, Version> {
    type V = DurablyPublishedProviderModel<C, Version>;

    open(crate) spec fn view(&self) -> DurablyPublishedProviderModel<C, Version> {
        DurablyPublishedProviderModel {
            receipt: self.receipt@,
            results: result_models(self.results@),
            update: self.update@,
        }
    }
}

impl<C: TurnChannels, Version> DurablyPublishedProviderAttempt<C, Version> {
    pub fn receipt(&self) -> (receipt: &PublicationReceipt<Version>)
        ensures
            receipt@ == self@.receipt,
    {
        &self.receipt
    }

    pub fn results(&self) -> (results: &Vec<ProviderToolResult>)
        ensures
            result_models(results@) == self@.results,
    {
        &self.results
    }

    pub fn update(&self) -> (update: &LaneUpdate<C>)
        ensures
            update@ == self@.update,
    {
        &self.update
    }

    pub fn take_update(&mut self) -> (update: LaneUpdate<C>)
        ensures
            update@ == old(self)@.update,
            final(self)@ == (DurablyPublishedProviderModel::<C, Version> {
                update: UpdateModel::empty(),
                ..old(self)@
            }),
    {
        self.update.take()
    }
}

} // verus!
