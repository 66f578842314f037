//! The end of a streaming attempt: finishing, publishing, aborting.

use vstd::prelude::*;
use crate::component::attempt::{binding_models, reports_parser_failure, tag_is_mounted};
use crate::component::attempt::{MountedStreamingAttempt, ParserFailure, StreamingAttemptError};
use crate::component::attempt::StreamingModel;
use crate::component::binding::{BindingAbortAck, BindingAbortReason, BindingErrorSource};
use crate::component::binding::{BindingFailure, BindingFault, BindingPhase, FaultModel};
use crate::component::binding::ProviderDispatcherAbortAck;
use crate::component::channels::{LaneUpdate, TurnChannels, TurnEmission, UpdateModel};
use crate::component::durable_keys::{PublicationCandidateFingerprint, PublicationRequestId};
use crate::component::identity::{AttemptModel, BindingId, BindingIdModel};
use crate::component::identity::ProviderAttemptIdentity;
use crate::component::live::{uninterpreted, LiveAbortContext, LiveAbortModel, LiveAbortOutcome};
use crate::component::live::LiveEffectFault;
use crate::component::live::LiveInterpretation;
use crate::component::publication::{commit_accepted, is_numbered, item_staged, staged_at};
use crate::component::publication::{stage_commit_outbox, CommitStager};
use crate::component::publication::{CommitStagingFailure, OutboxModel};
use crate::component::publication::{PlanDataModel, PreparedSessionMutation};
use crate::component::publication::{PublicationAttempt, PublicationModel, PublicationPhase};
use crate::component::publication::{PublicationReceipt, PublicationStagingPlan, ReceiptModel};
use crate::component::publication::{StagedCommit, StagedOutbox, StagedPublication};
use crate::component::tools::{duplicate_results, result_models, ProviderToolResult};
use crate::component::tools::{RouteModel, RuntimeRoute, ToolResultModel};

verus! {

/// What is to be done next to finish an attempt.
#[derive(Debug, Clone, Copy, PartialEq, Eq, Structural)]
pub enum FinishStep {
    /// The parser is told that the stream has ended.
    FinalizeParser,
    /// The binding at an index is finished.
    FinishBinding(usize),
    /// The provider tools are finished.
    FinishProviders,
}

/// Model of [`FinishingStream`].
pub struct FinishingModel<C: TurnChannels> {
    pub attempt: StreamingModel<C>,
    pub parser_finalized: bool,
    pub next_binding: nat,
}

impl<C: TurnChannels> FinishingModel<C> {
    /// What is to be done next: first the parser, then the bindings in order, then the
    /// provider tools.
    pub open spec fn step(self) -> FinishStep {
        if !self.parser_finalized {
            FinishStep::FinalizeParser
        } else if self.next_binding < self.attempt.bindings.len() {
            FinishStep::FinishBinding(self.next_binding as usize)
        } else {
            FinishStep::FinishProviders
        }
    }
}

/// An attempt whose stream has ended.
#[must_use]
pub struct FinishingStream<C: TurnChannels> {
    pub(crate) attempt: MountedStreamingAttempt<C>,
    pub(crate) parser_finalized: bool,
    pub(crate) next_binding: usize,
}

impl<C: TurnChannels> View for FinishingStream<C> {
    type V = FinishingModel<C>;

    open(crate) spec fn view(&self) -> FinishingModel<C> {
        FinishingModel {
            attempt: self.attempt@,
            parser_finalized: self.parser_finalized,
            next_binding: self.next_binding as nat,
        }
    }
}

/// An attempt that could not be finished, and why. It still has to be aborted.
#[must_use]
pub struct StreamingFinishFailure<C: TurnChannels, E, L, P> {
    pub(crate) attempt: MountedStreamingAttempt<C>,
    pub(crate) error: StreamingAttemptError<E, L, P>,
}

impl<C: TurnChannels, E, L, P> StreamingFinishFailure<C, E, L, P> {
    /// The attempt as it was left.
    pub open(crate) spec fn left(self) -> StreamingModel<C> {
        self.attempt@
    }

    /// Why it could not be finished.
    pub open(crate) spec fn reason(self) -> StreamingAttemptError<E, L, P> {
        self.error
    }

    pub fn identity(&self) -> (identity: &ProviderAttemptIdentity)
        ensures
            identity@ == self.left().identity,
    {
        self.attempt.identity()
    }

    pub fn error(&self) -> (error: &StreamingAttemptError<E, L, P>)
        ensures
            *error == self.reason(),
    {
        &self.error
    }

    pub fn into_parts(self) -> (parts: (
        MountedStreamingAttempt<C>,
        StreamingAttemptError<E, L, P>,
    ))
        ensures
            parts.0@ == self.left(),
            parts.1 == self.reason(),
    {
        (self.attempt, self.error)
    }
}

impl<C: TurnChannels> MountedStreamingAttempt<C> {
    /// Begins to finish the attempt. A failed one cannot be finished.
    pub fn finish_stream<E, L, P>(self) -> (result: Result<
        FinishingStream<C>,
        StreamingFinishFailure<C, E, L, P>,
    >)
        ensures
            match result {
                Ok(finishing) => {
                    &&& !self@.text.terminal
                    &&& finishing@ == (FinishingModel::<C> {
                        attempt: self@,
                        parser_finalized: false,
                        next_binding: 0,
                    })
                },
                Err(failure) => {
                    &&& self@.text.terminal
                    &&& failure.left() == self@
                    &&& failure.reason() is Terminal
                },
            },
    {
        if self.terminal {
            return Err(
                StreamingFinishFailure { attempt: self, error: StreamingAttemptError::Terminal },
            );
        }
        Ok(FinishingStream { attempt: self, parser_finalized: false, next_binding: 0 })
    }
}

impl<C: TurnChannels> FinishingStream<C> {
    pub fn step(&self) -> (step: FinishStep)
        ensures
            step == self@.step(),
    {
        if !self.parser_finalized {
            FinishStep::FinalizeParser
        } else if self.next_binding < self.attempt.bindings.len() {
            FinishStep::FinishBinding(self.next_binding)
        } else {
            FinishStep::FinishProviders
        }
    }

    /// Takes the parser's answer.
    pub fn parser_finalized<E, L, P>(self, outcome: Result<(), ParserFailure<E, L>>) -> (result:
        Result<Self, StreamingFinishFailure<C, E, L, P>>)
        requires
            self@.step() == FinishStep::FinalizeParser,
            outcome is Err ==> tag_is_mounted(outcome->Err_0, self@.attempt.bindings),
        ensures
            match result {
                Ok(finishing) => {
                    &&& outcome is Ok
                    &&& finishing@ == (FinishingModel::<C> { parser_finalized: true, ..self@ })
                },
                Err(failure) => {
                    &&& outcome is Err
                    &&& failure.left() == self@.attempt.failed()
                    &&& reports_parser_failure(
                        self@.attempt.identity,
                        self@.attempt.bindings,
                        outcome->Err_0,
                        failure.reason(),
                    )
                },
            },
    {
        let mut attempt = self.attempt;
        match outcome {
            Ok(_) => Ok(
                FinishingStream {
                    attempt,
                    parser_finalized: true,
                    next_binding: self.next_binding,
                },
            ),
            Err(failure) => {
                let error = attempt.parser_failed(failure);
                Err(StreamingFinishFailure { attempt, error })
            },
        }
    }

    /// Takes what a binding answers to being finished. Its update is interpreted next.
    pub fn binding_finished<E, L, P>(
        self,
        outcome: Result<LaneUpdate<C>, BindingFailure<E>>,
    ) -> (result: Result<(Self, LiveInterpretation<C>), StreamingFinishFailure<C, E, L, P>>)
        requires
            self@.step() is FinishBinding,
        ensures
            match result {
                Ok((finishing, interpretation)) => {
                    &&& outcome is Ok
                    &&& finishing@ == self@
                    &&& interpretation@ == uninterpreted::<C>(
                        outcome->Ok_0@,
                        self@.attempt.origin(self@.next_binding as int),
                        BindingPhase::Finish,
                    )
                },
                Err(failure) => {
                    &&& outcome is Err
                    &&& failure.left() == self@.attempt.failed()
                    &&& failure.reason() is Binding
                    &&& failure.reason()->Binding_0@ == (FaultModel {
                        origin: self@.attempt.origin(self@.next_binding as int),
                        phase: BindingPhase::Finish,
                        error: BindingErrorSource::Author(outcome->Err_0.error()),
                    })
                },
            },
    {
        let index: usize = self.next_binding;
        match outcome {
            Ok(update) => {
                let interpretation = self.attempt.interpret(index, BindingPhase::Finish, update);
                Ok((self, interpretation))
            },
            Err(source) => {
                let mut attempt = self.attempt;
                attempt.terminal = true;
                let fault = BindingFault::new(
                    &attempt.identity,
                    &attempt.bindings[index].id,
                    &attempt.bindings[index].route,
                    BindingPhase::Finish,
                    BindingFailure::new(BindingErrorSource::Author(source.source)),
                );
                Err(
                    StreamingFinishFailure {
                        attempt,
                        error: StreamingAttemptError::Binding(fault),
                    },
                )
            },
        }
    }

    /// The attempt, for interpreting the update of a binding.
    pub fn attempt_mut(&mut self) -> (attempt: &mut MountedStreamingAttempt<C>)
        ensures
            attempt@ == old(self)@.attempt,
            final(self)@ == (FinishingModel::<C> { attempt: final(attempt)@, ..old(self)@ }),
    {
        &mut self.attempt
    }

    /// Ends the attempt with the failure of a live effect.
    pub fn effect_failed<E, L, P>(self, fault: LiveEffectFault<L>) -> (failure:
        StreamingFinishFailure<C, E, L, P>)
        ensures
            failure.left() == self@.attempt.failed(),
            failure.reason() == StreamingAttemptError::<E, L, P>::Live(fault),
    {
        let mut attempt = self.attempt;
        attempt.terminal = true;
        StreamingFinishFailure { attempt, error: StreamingAttemptError::Live(fault) }
    }

    /// Keeps what the update of a binding leaves for the host, and goes on to the next
    /// binding.
    pub fn binding_interpreted(self, interpretation: LiveInterpretation<C>) -> (finishing: Self)
        requires
            self@.step() is FinishBinding,
            interpretation@.remaining.len() == 0,
        ensures
            finishing@ == (FinishingModel::<C> {
                attempt: StreamingModel {
                    update: self@.attempt.update.followed_by(
                        UpdateModel {
                            emissions: interpretation@.retained,
                            diagnostics: interpretation@.diagnostics,
                        },
                    ),
                    ..self@.attempt
                },
                next_binding: self@.next_binding + 1,
                ..self@
            }),
    {
        let count: usize = self.attempt.binding_count();
        assert(self.next_binding < count);
        let mut attempt = self.attempt;
        attempt.record(interpretation.finish());
        FinishingStream {
            attempt,
            parser_finalized: self.parser_finalized,
            next_binding: self.next_binding + 1,
        }
    }

    /// Takes what the provider tools answer to being finished. That is the last step.
    pub fn providers_finished<E, L, P>(self, outcome: Result<LaneUpdate<C>, P>) -> (result: Result<
        FinishedStreamingAttempt<C>,
        StreamingFinishFailure<C, E, L, P>,
    >)
        requires
            self@.step() == FinishStep::FinishProviders,
        ensures
            match result {
                Ok(finished) => {
                    &&& outcome is Ok
                    &&& finished@ == (FinishedModel::<C> {
                        attempt: StreamingModel { update: UpdateModel::empty(), ..self@.attempt },
                        update: self@.attempt.update.followed_by(outcome->Ok_0@),
                    })
                },
                Err(failure) => {
                    &&& outcome is Err
                    &&& failure.left() == self@.attempt.failed()
                    &&& failure.reason() == StreamingAttemptError::<E, L, P>::Provider(
                        outcome->Err_0,
                    )
                },
            },
    {
        let mut attempt = self.attempt;
        match outcome {
            Ok(update) => {
                attempt.record(update);
                let update = attempt.take_update();
                Ok(FinishedStreamingAttempt { attempt, update })
            },
            Err(error) => {
                attempt.terminal = true;
                Err(
                    StreamingFinishFailure {
                        attempt,
                        error: StreamingAttemptError::Provider(error),
                    },
                )
            },
        }
    }
}

/// Model of [`FinishedStreamingAttempt`].
pub struct FinishedModel<C: TurnChannels> {
    pub attempt: StreamingModel<C>,
    pub update: UpdateModel<TurnEmission<C>, C::Diagnostic>,
}

/// An attempt that ended well. It still has to be published or aborted.
#[must_use]
pub struct FinishedStreamingAttempt<C: TurnChannels> {
    pub(crate) attempt: MountedStreamingAttempt<C>,
    pub(crate) update: LaneUpdate<C>,
}

impl<C: TurnChannels> View for FinishedStreamingAttempt<C> {
    type V = FinishedModel<C>;

    open(crate) spec fn view(&self) -> FinishedModel<C> {
        FinishedModel { attempt: self.attempt@, update: self.update@ }
    }
}

/// What a fingerprint is taken of: the fully staged publication.
pub struct PublicationFingerprintContext<'a, Mutation, Payload, Version> {
    pub(crate) request_id: &'a PublicationRequestId,
    pub(crate) expected_revision: &'a Version,
    pub(crate) mutation: &'a PreparedSessionMutation<Mutation>,
    pub(crate) raw_output: &'a str,
    pub(crate) provider_results: &'a Vec<ProviderToolResult>,
    pub(crate) outbox: &'a StagedOutbox<Payload>,
}

/// Model of [`PublicationFingerprintContext`].
pub struct FingerprintContextModel<Mutation, Payload, Version> {
    pub plan: PlanDataModel<Mutation, Version>,
    pub raw_output: Seq<char>,
    pub provider_results: Seq<ToolResultModel>,
    pub outbox: OutboxModel<Payload>,
}

impl<'a, Mutation, Payload, Version> View for PublicationFingerprintContext<
    'a,
    Mutation,
    Payload,
    Version,
> {
    type V = FingerprintContextModel<Mutation, Payload, Version>;

    open(crate) spec fn view(&self) -> FingerprintContextModel<Mutation, Payload, Version> {
        FingerprintContextModel {
            plan: PlanDataModel {
                request_id: self.request_id@,
                expected_revision: *self.expected_revision,
                mutation: self.mutation.change(),
            },
            raw_output: self.raw_output@,
            provider_results: result_models(self.provider_results@),
            outbox: self.outbox@,
        }
    }
}

impl<'a, Mutation, Payload, Version> PublicationFingerprintContext<
    'a,
    Mutation,
    Payload,
    Version,
> {
    pub fn request_id(&self) -> (id: &'a PublicationRequestId)
        ensures
            id@ == self@.plan.request_id,
    {
        self.request_id
    }

    pub fn expected_revision(&self) -> (revision: &'a Version)
        ensures
            *revision == self@.plan.expected_revision,
    {
        self.expected_revision
    }

    pub fn mutation(&self) -> (mutation: &'a PreparedSessionMutation<Mutation>)
        ensures
            mutation.change() == self@.plan.mutation,
    {
        self.mutation
    }

    pub fn raw_output(&self) -> (text: &'a str)
        ensures
            text@ == self@.raw_output,
    {
        self.raw_output
    }

    pub fn provider_results(&self) -> (results: &'a Vec<ProviderToolResult>)
        ensures
            result_models(results@) == self@.provider_results,
    {
        self.provider_results
    }

    pub fn outbox(&self) -> (outbox: &'a StagedOutbox<Payload>)
        ensures
            outbox@ == self@.outbox,
    {
        self.outbox
    }
}

/// How a host tells publication candidates apart.
pub trait PublicationFingerprintFactory<Mutation, Payload, Version> {
    type Error;

    fn fingerprint(
        &self,
        context: PublicationFingerprintContext<'_, Mutation, Payload, Version>,
    ) -> Result<PublicationCandidateFingerprint, Self::Error>;
}

/// Why a publication could not be staged.
#[derive(Debug)]
pub enum PublicationStagingFailure<CommitError, FingerprintError> {
    Commit(CommitStagingFailure<CommitError>),
    Fingerprint(FingerprintError),
}

/// A publication that could not be staged. The attempt and the plan are kept, so that
/// it can be tried again.
#[must_use]
pub struct StreamingPublicationStagingFailure<
    C: TurnChannels,
    Mutation,
    Version,
    CommitError,
    FingerprintError,
> {
    pub(crate) finished: FinishedStreamingAttempt<C>,
    pub(crate) plan: PublicationStagingPlan<Mutation, Version>,
    pub(crate) source: PublicationStagingFailure<CommitError, FingerprintError>,
}

impl<
    C: TurnChannels,
    Mutation,
    Version,
    CommitError,
    FingerprintError,
> StreamingPublicationStagingFailure<C, Mutation, Version, CommitError, FingerprintError> {
    /// The kept attempt.
    pub open(crate) spec fn kept(self) -> FinishedModel<C> {
        self.finished@
    }

    /// The kept plan.
    pub open(crate) spec fn kept_plan(self) -> PlanDataModel<Mutation, Version> {
        self.plan@
    }

    /// What went wrong.
    pub open(crate) spec fn reason(self) -> PublicationStagingFailure<
        CommitError,
        FingerprintError,
    > {
        self.source
    }

    pub fn identity(&self) -> (identity: &ProviderAttemptIdentity)
        ensures
            identity@ == self.kept().attempt.identity,
    {
        self.finished.identity()
    }

    pub fn source_error(&self) -> (source: &PublicationStagingFailure<
        CommitError,
        FingerprintError,
    >)
        ensures
            *source == self.reason(),
    {
        &self.source
    }

    pub fn plan(&self) -> (plan: &PublicationStagingPlan<Mutation, Version>)
        ensures
            plan@ == self.kept_plan(),
    {
        &self.plan
    }

    pub fn into_parts(self) -> (parts: (
        FinishedStreamingAttempt<C>,
        PublicationStagingPlan<Mutation, Version>,
        PublicationStagingFailure<CommitError, FingerprintError>,
    ))
        ensures
            parts.0@ == self.kept(),
            parts.1@ == self.kept_plan(),
            parts.2 == self.reason(),
    {
        (self.finished, self.plan, self.source)
    }
}

/// Whether the factory gave this result for a staged publication.
pub open spec fn fingerprinted<
    Mutation,
    Payload,
    Version,
    F: PublicationFingerprintFactory<Mutation, Payload, Version>,
>(
    factory: &F,
    context: FingerprintContextModel<Mutation, Payload, Version>,
    result: Result<PublicationCandidateFingerprint, F::Error>,
) -> bool {
    exists|asked: PublicationFingerprintContext<'_, Mutation, Payload, Version>|
        asked@ == context && #[trigger] call_ensures(F::fingerprint, (factory, asked), result)
}

/// Whether an outbox holds what the stager gave for commits.
pub open spec fn outbox_staged<C: TurnChannels, S: CommitStager<C>>(
    stager: &S,
    request_id: Seq<char>,
    commits: Seq<C::Commit>,
    outbox: OutboxModel<S::Payload>,
) -> bool {
    &&& outbox.request_id == request_id
    &&& outbox.items.len() == commits.len()
    &&& is_numbered(outbox)
    &&& forall|i: int|
        0 <= i < commits.len() ==> item_staged::<C, S>(
            stager,
            request_id,
            i,
            commits[i],
            #[trigger] outbox.items[i],
        )
}

impl<C: TurnChannels> FinishedStreamingAttempt<C> {
    pub fn identity(&self) -> (identity: &ProviderAttemptIdentity)
        ensures
            identity@ == self@.attempt.identity,
    {
        self.attempt.identity()
    }

    pub fn raw_output(&self) -> (text: &str)
        ensures
            text@ == self@.attempt.text.raw_output,
    {
        self.attempt.raw_output()
    }

    pub fn provider_results(&self) -> (results: &Vec<ProviderToolResult>)
        ensures
            result_models(results@) == self@.attempt.provider_results,
    {
        self.attempt.provider_results()
    }

    pub fn update(&self) -> (update: &LaneUpdate<C>)
        ensures
            update@ == self@.update,
    {
        &self.update
    }

    pub fn take_update(&mut self) -> (update: LaneUpdate<C>)
        ensures
            update@ == old(self)@.update,
            final(self)@ == (FinishedModel::<C> { update: UpdateModel::empty(), ..old(self)@ }),
    {
        self.update.take()
    }

    /// Stages the publication of the attempt: its commits in order, then the
    /// fingerprint of it all. Where either fails, attempt and plan come back unchanged.
    pub fn stage_durable_publication<S, F, Mutation, Version>(
        self,
        request_id: PublicationRequestId,
        expected_revision: Version,
        mutation: PreparedSessionMutation<Mutation>,
        stager: &S,
        fingerprint_factory: &F,
    ) -> (result: Result<
        StagedStreamingPublication<C, Mutation, S::Payload, Version>,
        StreamingPublicationStagingFailure<C, Mutation, Version, S::Error, F::Error>,
    >) where
        S: CommitStager<C>,
        F: PublicationFingerprintFactory<Mutation, S::Payload, Version>,

        ensures
            match result {
                Ok(staged) => {
                    let candidate = staged@.publication->Ready_0;
                    &&& staged@.finished == self@
                    &&& staged@.publication is Ready
                    &&& candidate.plan() == (PlanDataModel {
                        request_id: request_id@,
                        expected_revision,
                        mutation: mutation.change(),
                    })
                    &&& candidate.attempt == self@.attempt.identity
                    &&& candidate.raw_output == self@.attempt.text.raw_output
                    &&& candidate.provider_results == self@.attempt.provider_results
                    &&& outbox_staged::<C, S>(
                        stager,
                        request_id@,
                        self@.attempt.commits,
                        candidate.outbox,
                    )
                    &&& exists|fingerprint: PublicationCandidateFingerprint|
                        fingerprint@ == candidate.fingerprint && #[trigger] fingerprinted::<
                            Mutation,
                            S::Payload,
                            Version,
                            F,
                        >(
                            fingerprint_factory,
                            FingerprintContextModel {
                                plan: candidate.plan(),
                                raw_output: candidate.raw_output,
                                provider_results: candidate.provider_results,
                                outbox: candidate.outbox,
                            },
                            Ok::<PublicationCandidateFingerprint, F::Error>(fingerprint),
                        )
                },
                Err(failure) => {
                    &&& failure.kept() == self@
                    &&& failure.kept_plan() == (PlanDataModel {
                        request_id: request_id@,
                        expected_revision,
                        mutation: mutation.change(),
                    })
                    &&& match failure.reason() {
                        PublicationStagingFailure::Commit(commit) => {
                            let at = commit.item().index as int;
                            &&& commit.item().request_id == request_id@
                            &&& at < self@.attempt.commits.len()
                            &&& forall|i: int|
                                0 <= i < at ==> commit_accepted::<C, S>(
                                    stager,
                                    request_id@,
                                    i,
                                    #[trigger] self@.attempt.commits[i],
                                )
                            &&& staged_at::<C, S>(
                                stager,
                                request_id@,
                                at,
                                self@.attempt.commits[at],
                                Err::<StagedCommit<S::Payload>, S::Error>(commit.error()),
                            )
                        },
                        PublicationStagingFailure::Fingerprint(error) => exists|
                            outbox: OutboxModel<S::Payload>,
                        | #[trigger]
                            outbox_staged::<C, S>(
                                stager,
                                request_id@,
                                self@.attempt.commits,
                                outbox,
                            ) && fingerprinted::<Mutation, S::Payload, Version, F>(
                                fingerprint_factory,
                                FingerprintContextModel {
                                    plan: failure.kept_plan(),
                                    raw_output: self@.attempt.text.raw_output,
                                    provider_results: self@.attempt.provider_results,
                                    outbox,
                                },
                                Err::<PublicationCandidateFingerprint, F::Error>(error),
                            ),
                    }
                },
            },
    {
        let plan = PublicationStagingPlan::new(request_id, expected_revision, mutation);
        let staged = stage_commit_outbox::<C, S>(
            plan.request_id.clone(),
            &self.attempt.pending_commits,
            stager,
        );
        let outbox = match staged {
            Ok(outbox) => outbox,
            Err(source) => {
                return Err(
                    StreamingPublicationStagingFailure {
                        finished: self,
                        plan,
                        source: PublicationStagingFailure::Commit(source),
                    },
                );
            },
        };
        assert(outbox_staged::<C, S>(stager, plan@.request_id, self@.attempt.commits, outbox@));
        let context = PublicationFingerprintContext {
            request_id: &plan.request_id,
            expected_revision: &plan.expected_revision,
            mutation: &plan.mutation,
            raw_output: self.attempt.raw_output(),
            provider_results: self.attempt.provider_results(),
            outbox: &outbox,
        };
        let ghost asked = context@;
        let fingerprint = fingerprint_factory.fingerprint(context);
        assert(fingerprinted::<Mutation, S::Payload, Version, F>(
            fingerprint_factory,
            asked,
            fingerprint,
        ));
        let fingerprint = match fingerprint {
            Ok(fingerprint) => fingerprint,
            Err(source) => {
                return Err(
                    StreamingPublicationStagingFailure {
                        finished: self,
                        plan,
                        source: PublicationStagingFailure::Fingerprint(source),
                    },
                );
            },
        };
        let ghost taken = fingerprint;
        let (request_id, expected_revision, mutation) = plan.into_parts();
        let candidate = StagedPublication::new(
            request_id,
            fingerprint,
            expected_revision,
            mutation,
            self.attempt.identity.clone(),
            self.attempt.raw_output(),
            duplicate_results(&self.attempt.provider_results),
            outbox,
        );
        match candidate {
            Ok(candidate) => {
                assert(taken@ == candidate@.fingerprint);
                assert(fingerprinted::<Mutation, S::Payload, Version, F>(
                    fingerprint_factory,
                    asked,
                    Ok::<PublicationCandidateFingerprint, F::Error>(taken),
                ));
                Ok(StagedStreamingPublication::new(self, candidate))
            },
            Err(_) => vstd::pervasive::unreached(),
        }
    }

    /// The attempt once the host has published it by itself. Its commits are the
    /// host's to deliver.
    pub fn after_publish(self) -> (published: PublishedStreamingAttempt<C>)
        ensures
            published@ == (PublishedModel::<C> {
                identity: self@.attempt.identity,
                raw_output: self@.attempt.text.raw_output,
                provider_results: self@.attempt.provider_results,
                update: self@.update,
                commits: self@.attempt.commits,
            }),
    {
        PublishedStreamingAttempt {
            receipt: PublishedTurnReceipt { identity: self.attempt.identity },
            raw_output: self.attempt.raw_output,
            provider_results: self.attempt.provider_results,
            update: self.update,
            commits: self.attempt.pending_commits,
        }
    }

    /// The attempt once the host's own publication has come to an end: its commits are
    /// released if that succeeded, and else the attempt is kept with the failure.
    pub fn publication_ended<E>(self, outcome: Result<(), E>) -> (result: Result<
        PublishedStreamingAttempt<C>,
        StreamingPublishFailure<C, E>,
    >)
        ensures
            match (outcome, result) {
                (Ok(_), Ok(published)) => published@ == (PublishedModel::<C> {
                    identity: self@.attempt.identity,
                    raw_output: self@.attempt.text.raw_output,
                    provider_results: self@.attempt.provider_results,
                    update: self@.update,
                    commits: self@.attempt.commits,
                }),
                (Err(source), Err(failure)) => failure@ == (PublishFailureModel {
                    finished: self@,
                    source,
                }),
                _ => false,
            },
    {
        match outcome {
            Ok(_) => Ok(self.after_publish()),
            Err(source) => Err(StreamingPublishFailure { attempt: self, source }),
        }
    }

    /// What is left of the attempt once its commits are in the store's outbox.
    pub fn into_durable_parts(self) -> (parts: (String, Vec<ProviderToolResult>, LaneUpdate<C>))
        ensures
            parts.0@ == self@.attempt.text.raw_output,
            result_models(parts.1@) == self@.attempt.provider_results,
            parts.2@ == self@.update,
    {
        (self.attempt.raw_output, self.attempt.provider_results, self.update)
    }
}

/// Model of [`StreamingPublishFailure`].
pub struct PublishFailureModel<C: TurnChannels, E> {
    pub finished: FinishedModel<C>,
    pub source: E,
}

/// A failed publication. It keeps the finished attempt, which still has to be aborted.
#[must_use]
pub struct StreamingPublishFailure<C: TurnChannels, E> {
    pub(crate) attempt: FinishedStreamingAttempt<C>,
    pub(crate) source: E,
}

impl<C: TurnChannels, E> View for StreamingPublishFailure<C, E> {
    type V = PublishFailureModel<C, E>;

    open(crate) spec fn view(&self) -> PublishFailureModel<C, E> {
        PublishFailureModel { finished: self.attempt@, source: self.source }
    }
}

impl<C: TurnChannels, E> StreamingPublishFailure<C, E> {
    pub fn identity(&self) -> (identity: &ProviderAttemptIdentity)
        ensures
            identity@ == self@.finished.attempt.identity,
    {
        self.attempt.identity()
    }

    pub fn provider_results(&self) -> (results: &Vec<ProviderToolResult>)
        ensures
            result_models(results@) == self@.finished.attempt.provider_results,
    {
        self.attempt.provider_results()
    }

    pub fn source_error(&self) -> (error: &E)
        ensures
            *error == self@.source,
    {
        &self.source
    }

    /// The attempt, to be aborted.
    pub fn into_attempt(self) -> (attempt: FinishedStreamingAttempt<C>)
        ensures
            attempt@ == self@.finished,
    {
        self.attempt
    }
}

/// Which attempt was published.
#[derive(Debug)]
pub struct PublishedTurnReceipt {
    pub(crate) identity: ProviderAttemptIdentity,
}

impl View for PublishedTurnReceipt {
    type V = AttemptModel;

    open(crate) spec fn view(&self) -> AttemptModel {
        self.identity@
    }
}

impl PublishedTurnReceipt {
    pub fn new(identity: ProviderAttemptIdentity) -> (receipt: Self)
        ensures
            receipt@ == identity@,
    {
        Self { identity }
    }

    pub fn identity(&self) -> (identity: &ProviderAttemptIdentity)
        ensures
            identity@ == self@,
    {
        &self.identity
    }
}

/// Model of [`PublishedStreamingAttempt`].
pub struct PublishedModel<C: TurnChannels> {
    pub identity: AttemptModel,
    pub raw_output: Seq<char>,
    pub provider_results: Seq<ToolResultModel>,
    pub update: UpdateModel<TurnEmission<C>, C::Diagnostic>,
    pub commits: Seq<C::Commit>,
}

/// A published attempt whose commits still have to be delivered.
#[must_use]
pub struct PublishedStreamingAttempt<C: TurnChannels> {
    pub(crate) receipt: PublishedTurnReceipt,
    pub(crate) raw_output: String,
    pub(crate) provider_results: Vec<ProviderToolResult>,
    pub(crate) update: LaneUpdate<C>,
    pub(crate) commits: Vec<C::Commit>,
}

impl<C: TurnChannels> View for PublishedStreamingAttempt<C> {
    type V = PublishedModel<C>;

    open(crate) spec fn view(&self) -> PublishedModel<C> {
        PublishedModel {
            identity: self.receipt@,
            raw_output: self.raw_output@,
            provider_results: result_models(self.provider_results@),
            update: self.update@,
            commits: self.commits@,
        }
    }
}

impl<C: TurnChannels> PublishedStreamingAttempt<C> {
    pub fn receipt(&self) -> (receipt: &PublishedTurnReceipt)
        ensures
            receipt@ == self@.identity,
    {
        &self.receipt
    }

    pub fn raw_output(&self) -> (text: &str)
        ensures
            text@ == self@.raw_output,
    {
        self.raw_output.as_str()
    }

    pub fn provider_results(&self) -> (results: &Vec<ProviderToolResult>)
        ensures
            result_models(results@) == self@.provider_results,
    {
        &self.provider_results
    }

    pub fn update(&self) -> (update: &LaneUpdate<C>)
        ensures
            update@ == self@.update,
    {
        &self.update
    }

    pub fn take_update(&mut self) -> (update: LaneUpdate<C>)
        ensures
            update@ == old(self)@.update,
            final(self)@ == (PublishedModel::<C> { update: UpdateModel::empty(), ..old(self)@ }),
    {
        self.update.take()
    }

    pub fn pending_commits(&self) -> (commits: &Vec<C::Commit>)
        ensures
            commits@ == self@.commits,
    {
        &self.commits
    }

    /// Hands the commits out, once.
    pub fn take_pending_commits(&mut self) -> (commits: Vec<C::Commit>)
        ensures
            commits@ == old(self)@.commits,
            final(self)@ == (PublishedModel::<C> { commits: Seq::empty(), ..old(self)@ }),
    {
        let mut commits: Vec<C::Commit> = Vec::new();
        std::mem::swap(&mut commits, &mut self.commits);
        commits
    }
}

/// Model of [`StagedStreamingPublication`].
pub struct StagedStreamingModel<C: TurnChannels, Mutation, Payload, Version> {
    pub finished: FinishedModel<C>,
    pub publication: PublicationModel<Mutation, Payload, Version>,
}

/// A finished attempt on its way into the store.
#[must_use]
pub struct StagedStreamingPublication<C: TurnChannels, Mutation, Payload, Version> {
    pub(crate) finished: FinishedStreamingAttempt<C>,
    pub(crate) publication: PublicationAttempt<Mutation, Payload, Version>,
}

impl<C: TurnChannels, Mutation, Payload, Version> View for StagedStreamingPublication<
    C,
    Mutation,
    Payload,
    Version,
> {
    type V = StagedStreamingModel<C, Mutation, Payload, Version>;

    open(crate) spec fn view(&self) -> StagedStreamingModel<C, Mutation, Payload, Version> {
        StagedStreamingModel { finished: self.finished@, publication: self.publication@ }
    }
}

impl<C: TurnChannels, Mutation, Payload, Version> StagedStreamingPublication<
    C,
    Mutation,
    Payload,
    Version,
> {
    pub fn new(
        finished: FinishedStreamingAttempt<C>,
        candidate: StagedPublication<Mutation, Payload, Version>,
    ) -> (staged: Self)
        ensures
            staged@ == (StagedStreamingModel::<C, Mutation, Payload, Version> {
                finished: finished@,
                publication: PublicationModel::Ready(candidate@),
            }),
    {
        Self { finished, publication: PublicationAttempt::new(candidate) }
    }

    pub fn identity(&self) -> (identity: &ProviderAttemptIdentity)
        ensures
            identity@ == self@.finished.attempt.identity,
    {
        self.finished.identity()
    }

    pub fn phase(&self) -> (phase: PublicationPhase)
        ensures
            phase == self@.publication.phase(),
    {
        self.publication.phase()
    }

    pub fn candidate(&self) -> (candidate: Option<&StagedPublication<Mutation, Payload, Version>>)
        ensures
            match candidate {
                Some(candidate) => self@.publication == PublicationModel::Ready(candidate@)
                    || self@.publication == PublicationModel::Resolving(candidate@),
                None => self@.publication is Published,
            },
    {
        self.publication.candidate()
    }

    pub fn receipt(&self) -> (receipt: Option<&PublicationReceipt<Version>>)
        ensures
            match receipt {
                Some(receipt) => self@.publication == PublicationModel::<
                    Mutation,
                    Payload,
                    Version,
                >::Published(receipt@),
                None => !(self@.publication is Published),
            },
    {
        self.publication.receipt()
    }

    /// The publication, for asking the store and taking its answers.
    pub fn publication_mut(&mut self) -> (publication: &mut PublicationAttempt<
        Mutation,
        Payload,
        Version,
    >)
        ensures
            publication@ == old(self)@.publication,
            final(self)@ == (StagedStreamingModel::<C, Mutation, Payload, Version> {
                publication: final(publication)@,
                ..old(self)@
            }),
    {
        &mut self.publication
    }

    /// Hands the attempt and the plan back, but only where nothing of them is stored.
    pub fn into_finished_and_plan_if_ready(self) -> (result: Result<
        (FinishedStreamingAttempt<C>, PublicationStagingPlan<Mutation, Version>),
        Self,
    >)
        ensures
            match result {
                Ok((finished, plan)) => {
                    &&& self@.publication is Ready
                    &&& finished@ == self@.finished
                    &&& plan@ == self@.publication->Ready_0.plan()
                },
                Err(staged) => !(self@.publication is Ready) && staged@ == self@,
            },
    {
        match self.publication.into_ready_candidate() {
            Ok(candidate) => Ok((self.finished, candidate.into_staging_plan())),
            Err(publication) => Err(Self { finished: self.finished, publication }),
        }
    }

    /// Hands the attempt back, but only where nothing of it is stored.
    pub fn into_finished_if_ready(self) -> (result: Result<FinishedStreamingAttempt<C>, Self>)
        ensures
            match result {
                Ok(finished) => self@.publication is Ready && finished@ == self@.finished,
                Err(staged) => !(self@.publication is Ready) && staged@ == self@,
            },
    {
        match self.into_finished_and_plan_if_ready() {
            Ok((finished, _)) => Ok(finished),
            Err(staged) => Err(staged),
        }
    }

    /// What is left once the store has confirmed the publication. The commits are the
    /// store's to deliver.
    pub fn into_published(self) -> (result: Result<
        DurablyPublishedStreamingAttempt<C, Version>,
        Self,
    >)
        ensures
            match result {
                Ok(published) => {
                    &&& self@.publication is Published
                    &&& published@ == (DurablyPublishedModel::<C, Version> {
                        receipt: self@.publication->Published_0,
                        raw_output: self@.finished.attempt.text.raw_output,
                        provider_results: self@.finished.attempt.provider_results,
                        update: self@.finished.update,
                    })
                },
                Err(staged) => !(self@.publication is Published) && staged@ == self@,
            },
    {
        match self.publication.into_receipt() {
            Ok(receipt) => {
                let (raw_output, provider_results, update) = self.finished.into_durable_parts();
                Ok(
                    DurablyPublishedStreamingAttempt {
                        receipt,
                        raw_output,
                        provider_results,
                        update,
                    },
                )
            },
            Err(publication) => Err(Self { finished: self.finished, publication }),
        }
    }
}

/// Model of [`DurablyPublishedStreamingAttempt`].
pub struct DurablyPublishedModel<C: TurnChannels, Version> {
    pub receipt: ReceiptModel<Version>,
    pub raw_output: Seq<char>,
    pub provider_results: Seq<ToolResultModel>,
    pub update: UpdateModel<TurnEmission<C>, C::Diagnostic>,
}

/// An attempt that the store has published.
#[must_use]
pub struct DurablyPublishedStreamingAttempt<C: TurnChannels, Version> {
    pub(crate) receipt: PublicationReceipt<Version>,
    pub(crate) raw_output: String,
    pub(crate) provider_results: Vec<ProviderToolResult>,
    pub(crate) update: LaneUpdate<C>,
}

impl<C: TurnChannels, Version> View for DurablyPublishedStreamingAttempt<C, Version> {
    type V = DurablyPublishedModel<C, Version>;

    open(crate) spec fn view(&self) -> DurablyPublishedModel<C, Version> {
        DurablyPublishedModel {
            receipt: self.receipt@,
            raw_output: self.raw_output@,
            provider_results: result_models(self.provider_results@),
            update: self.update@,
        }
    }
}

impl<C: TurnChannels, Version> DurablyPublishedStreamingAttempt<C, Version> {
    pub fn receipt(&self) -> (receipt: &PublicationReceipt<Version>)
        ensures
            receipt@ == self@.receipt,
    {
        &self.receipt
    }

    pub fn raw_output(&self) -> (text: &str)
        ensures
            text@ == self@.raw_output,
    {
        self.raw_output.as_str()
    }

    pub fn provider_results(&self) -> (results: &Vec<ProviderToolResult>)
        ensures
            result_models(results@) == self@.provider_results,
    {
        &self.provider_results
    }

    pub fn update(&self) -> (update: &LaneUpdate<C>)
        ensures
            update@ == self@.update,
    {
        &self.update
    }

    pub fn take_update(&mut self) -> (update: LaneUpdate<C>)
        ensures
            update@ == old(self)@.update,
            final(self)@ == (DurablyPublishedModel::<C, Version> {
                update: UpdateModel::empty(),
                ..old(self)@
            }),
    {
        self.update.take()
    }
}

/// What became of the abort of a dispatcher.
#[derive(Debug)]
pub enum ProviderDispatcherAbortOutcome<E> {
    Acknowledged(ProviderDispatcherAbortAck),
    Failed(E),
}

/// The abort of one dispatcher.
#[derive(Debug)]
pub struct ProviderDispatcherAbort<E> {
    pub(crate) capability_id: BindingId,
    pub(crate) outcome: ProviderDispatcherAbortOutcome<E>,
}

impl<E> ProviderDispatcherAbort<E> {
    /// The capability of the dispatcher.
    pub open(crate) spec fn capability(self) -> BindingIdModel {
        self.capability_id@
    }

    /// What became of the abort.
    pub open(crate) spec fn result(self) -> ProviderDispatcherAbortOutcome<E> {
        self.outcome
    }

    pub fn new(capability_id: BindingId, outcome: ProviderDispatcherAbortOutcome<E>) -> (abort: Self)
        ensures
            abort.capability() == capability_id@,
            abort.result() == outcome,
    {
        Self { capability_id, outcome }
    }

    pub fn capability_id(&self) -> (id: &BindingId)
        ensures
            id@ == self.capability(),
    {
        &self.capability_id
    }

    pub fn outcome(&self) -> (outcome: &ProviderDispatcherAbortOutcome<E>)
        ensures
            *outcome == self.result(),
    {
        &self.outcome
    }
}

/// Model of [`StreamingBindingAbort`].
pub struct BindingAbortModel {
    pub id: BindingIdModel,
    pub route: RouteModel,
    pub acknowledgement: BindingAbortAck,
}

/// The abort of one binding.
#[derive(Debug)]
pub struct StreamingBindingAbort {
    pub(crate) id: BindingId,
    pub(crate) route: RuntimeRoute,
    pub(crate) acknowledgement: BindingAbortAck,
}

impl View for StreamingBindingAbort {
    type V = BindingAbortModel;

    open(crate) spec fn view(&self) -> BindingAbortModel {
        BindingAbortModel { id: self.id@, route: self.route@, acknowledgement: self.acknowledgement }
    }
}

impl StreamingBindingAbort {
    pub fn id(&self) -> (value: &BindingId)
        ensures
            value@ == self@.id,
    {
        &self.id
    }

    pub fn route(&self) -> (value: &RuntimeRoute)
        ensures
            value@ == self@.route,
    {
        &self.route
    }

    pub fn acknowledgement(&self) -> (value: BindingAbortAck)
        ensures
            value == self@.acknowledgement,
    {
        self.acknowledgement
    }
}

impl Clone for StreamingBindingAbort {
    fn clone(&self) -> (copy: Self)
        ensures
            copy@ == self@,
    {
        Self {
            id: self.id.clone(),
            route: self.route.clone(),
            acknowledgement: self.acknowledgement,
        }
    }
}

impl PartialEq for StreamingBindingAbort {
    fn eq(&self, other: &Self) -> (equal: bool) {
        self.id == other.id
            && self.route == other.route
            && self.acknowledgement == other.acknowledgement
    }
}

impl Eq for StreamingBindingAbort {

}

impl vstd::std_specs::cmp::PartialEqSpecImpl for StreamingBindingAbort {
    open spec fn obeys_eq_spec() -> bool {
        true
    }

    open spec fn eq_spec(&self, other: &Self) -> bool {
        self@ == other@
    }
}

/// The models of several aborts.
pub open spec fn abort_models(aborts: Seq<StreamingBindingAbort>) -> Seq<BindingAbortModel> {
    aborts.map_values(|abort: StreamingBindingAbort| abort@)
}

/// Model of [`StreamingAbortReport`].
pub struct AbortReportModel<L, D> {
    pub identity: AttemptModel,
    pub reason: BindingAbortReason,
    pub bindings: Seq<BindingAbortModel>,
    pub dispatchers: Seq<ProviderDispatcherAbort<D>>,
    pub live: LiveAbortOutcome<L>,
}

/// What became of everything that an attempt had started.
#[derive(Debug)]
pub struct StreamingAbortReport<L, D> {
    pub(crate) identity: ProviderAttemptIdentity,
    pub(crate) reason: BindingAbortReason,
    pub(crate) bindings: Vec<StreamingBindingAbort>,
    pub(crate) dispatchers: Vec<ProviderDispatcherAbort<D>>,
    pub(crate) live: LiveAbortOutcome<L>,
}

impl<L, D> View for StreamingAbortReport<L, D> {
    type V = AbortReportModel<L, D>;

    open(crate) spec fn view(&self) -> AbortReportModel<L, D> {
        AbortReportModel {
            identity: self.identity@,
            reason: self.reason,
            bindings: abort_models(self.bindings@),
            dispatchers: self.dispatchers@,
            live: self.live,
        }
    }
}

/// Whether the host has confirmed that everything was cleaned up.
pub open spec fn is_cleaned_up<L, D>(report: AbortReportModel<L, D>) -> bool {
    &&& report.live is Acknowledged
    &&& forall|i: int|
        0 <= i < report.dispatchers.len() ==> (#[trigger] report.dispatchers[i]).result()
            is Acknowledged
}

impl<L, D> StreamingAbortReport<L, D> {
    pub fn identity(&self) -> (identity: &ProviderAttemptIdentity)
        ensures
            identity@ == self@.identity,
    {
        &self.identity
    }

    pub fn reason(&self) -> (reason: BindingAbortReason)
        ensures
            reason == self@.reason,
    {
        self.reason
    }

    pub fn bindings(&self) -> (bindings: &Vec<StreamingBindingAbort>)
        ensures
            abort_models(bindings@) == self@.bindings,
    {
        &self.bindings
    }

    pub fn dispatchers(&self) -> (dispatchers: &Vec<ProviderDispatcherAbort<D>>)
        ensures
            dispatchers@ == self@.dispatchers,
    {
        &self.dispatchers
    }

    pub fn live(&self) -> (live: &LiveAbortOutcome<L>)
        ensures
            *live == self@.live,
    {
        &self.live
    }

    pub fn cleanup_acknowledged(&self) -> (cleaned: bool)
        ensures
            cleaned == is_cleaned_up(self@),
    {
        match &self.live {
            LiveAbortOutcome::Acknowledged(_) => {},
            LiveAbortOutcome::Failed(_) => return false,
        }
        let count: usize = self.dispatchers.len();
        for i in 0..count
            invariant
                count == self.dispatchers@.len(),
                self@.live is Acknowledged,
                forall|j: int|
                    0 <= j < i ==> (#[trigger] self.dispatchers@[j]).result() is Acknowledged,
        {
            match &self.dispatchers[i].outcome {
                ProviderDispatcherAbortOutcome::Acknowledged(_) => {},
                ProviderDispatcherAbortOutcome::Failed(_) => {
                    assert(!(self@.dispatchers[i as int].result() is Acknowledged));
                    return false;
                },
            }
        }
        true
    }
}

impl<C: TurnChannels> MountedStreamingAttempt<C> {
    /// What the host is told first when the attempt is aborted.
    pub fn begin_abort(&self, reason: BindingAbortReason) -> (context: LiveAbortContext)
        ensures
            context@ == (LiveAbortModel {
                identity: self@.identity,
                reason,
                applied_effects: self@.live.applied_effects,
            }),
    {
        self.live.begin_abort(&self.identity, reason)
    }

    /// The report of an abort: what became of the live effects, what each binding
    /// answered, in order, and what became of the dispatchers.
    pub fn abort<L, D>(
        self,
        reason: BindingAbortReason,
        live: LiveAbortOutcome<L>,
        acknowledgements: Vec<BindingAbortAck>,
        dispatchers: Vec<ProviderDispatcherAbort<D>>,
    ) -> (report: StreamingAbortReport<L, D>)
        requires
            acknowledgements@.len() == self@.bindings.len(),
        ensures
            report@.identity == self@.identity,
            report@.reason == reason,
            report@.live == live,
            report@.dispatchers == dispatchers@,
            report@.bindings.len() == self@.bindings.len(),
            forall|i: int|
                0 <= i < self@.bindings.len() ==> #[trigger] report@.bindings[i] == (
                BindingAbortModel {
                    id: self@.bindings[i].id,
                    route: self@.bindings[i].route,
                    acknowledgement: acknowledgements@[i],
                }),
    {
        let ghost models = self@.bindings;
        let ghost all = self.bindings@;
        let mut aborts: Vec<StreamingBindingAbort> = Vec::new();
        for binding in iter: self.bindings
            invariant
                iter.seq() == all,
                models == binding_models(all),
                models == self@.bindings,
                acknowledgements@.len() == all.len(),
                aborts@.len() == iter.index(),
                forall|i: int|
                    0 <= i < aborts@.len() ==> (#[trigger] aborts@[i])@ == (BindingAbortModel {
                        id: models[i].id,
                        route: models[i].route,
                        acknowledgement: acknowledgements@[i],
                    }),
        {
            assert(models[iter.index() as int] == binding@);
            let index: usize = aborts.len();
            aborts.push(
                StreamingBindingAbort {
                    id: binding.id,
                    route: binding.route,
                    acknowledgement: acknowledgements[index],
                },
            );
        }
        assert forall|i: int| 0 <= i < models.len() implies #[trigger] abort_models(aborts@)[i] == (
        BindingAbortModel {
            id: models[i].id,
            route: models[i].route,
            acknowledgement: acknowledgements@[i],
        }) by {
            assert(abort_models(aborts@)[i] == aborts@[i]@);
        }
        StreamingAbortReport {
            identity: self.identity,
            reason,
            bindings: aborts,
            dispatchers,
            live,
        }
    }
}

/// What the host sees of a turn that it publishes by itself.
#[derive(Debug, Clone, Copy)]
pub struct TurnPublication<'a> {
    pub(crate) identity: &'a ProviderAttemptIdentity,
    pub(crate) raw_output: &'a str,
    pub(crate) provider_results: &'a Vec<ProviderToolResult>,
}

/// Model of [`TurnPublication`].
pub struct TurnPublicationModel {
    pub identity: AttemptModel,
    pub raw_output: Seq<char>,
    pub provider_results: Seq<ToolResultModel>,
}

impl<'a> View for TurnPublication<'a> {
    type V = TurnPublicationModel;

    open(crate) spec fn view(&self) -> TurnPublicationModel {
        TurnPublicationModel {
            identity: self.identity@,
            raw_output: self.raw_output@,
            provider_results: result_models(self.provider_results@),
        }
    }
}

impl<'a> TurnPublication<'a> {
    /// A turn of provider tools alone has no text.
    pub fn provider(
        identity: &'a ProviderAttemptIdentity,
        provider_results: &'a Vec<ProviderToolResult>,
    ) -> (publication: Self)
        ensures
            publication@ == (TurnPublicationModel {
                identity: identity@,
                raw_output: Seq::empty(),
                provider_results: result_models(provider_results@),
            }),
    {
        proof {
            reveal_strlit("");
        }
        assert(""@ =~= Seq::<char>::empty());
        Self { identity, raw_output: "", provider_results }
    }

    pub fn combined(
        identity: &'a ProviderAttemptIdentity,
        raw_output: &'a str,
        provider_results: &'a Vec<ProviderToolResult>,
    ) -> (publication: Self)
        ensures
            publication@ == (TurnPublicationModel {
                identity: identity@,
                raw_output: raw_output@,
                provider_results: result_models(provider_results@),
            }),
    {
        Self { identity, raw_output, provider_results }
    }

    pub fn identity(&self) -> (identity: &'a ProviderAttemptIdentity)
        ensures
            identity@ == self@.identity,
    {
        self.identity
    }

    pub fn raw_output(&self) -> (text: &'a str)
        ensures
            text@ == self@.raw_output,
    {
        self.raw_output
    }

    pub fn provider_results(&self) -> (results: &'a Vec<ProviderToolResult>)
        ensures
            result_models(results@) == self@.provider_results,
    {
        self.provider_results
    }
}

} // verus!
