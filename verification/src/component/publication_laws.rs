//! What a publication settles, and when.

use vstd::prelude::*;
use crate::component::channels::{TurnChannels, UpdateModel};
use crate::component::finishing::{fingerprinted, is_cleaned_up, outbox_staged, AbortReportModel};
use crate::component::finishing::{FingerprintContextModel, FinishStep, FinishingModel};
use crate::component::finishing::{PublicationFingerprintContext, PublicationFingerprintFactory};
use crate::component::durable_keys::PublicationCandidateFingerprint;
use crate::component::publication::{after_receipt, after_resolve, after_write, is_numbered};
use crate::component::publication::{item_staged, receipt_mismatch, staged_at, CandidateModel};
use crate::component::publication::{CommitStager, CommitStagingContext, MismatchModel};
use crate::component::publication::{OutboxItemModel, OutboxModel, PublicationModel};
use crate::component::publication::{PublicationPhase, ReceiptModel, ResolveModel, StagedCommit};
use crate::component::publication::{commit_accepted, keeps_receipt, resolve_model, write_model};
use crate::component::publication::{PublicationReceipt, PublicationResolution};
use crate::component::publication::{PublicationResolveError, PublicationWriteError, WriteModel};

verus! {

/// The items of an outbox stand under the request of the outbox and under numbers of their
/// own, counted from zero.
pub proof fn law_outbox_items_have_ids_of_their_own<Payload>(
    outbox: OutboxModel<Payload>,
    i: int,
    j: int,
)
    requires
        is_numbered(outbox),
        outbox.items.len() <= u64::MAX,
        0 <= i < j < outbox.items.len(),
    ensures
        outbox.items[i].id.request_id == outbox.request_id,
        outbox.items[i].id.index == i,
        outbox.items[j].id.index == j,
        outbox.items[i].id != outbox.items[j].id,
{
}

/// An item is what the stager gave for its commit, asked under the item's own id.
pub proof fn law_items_are_what_the_stager_gave<C: TurnChannels, S: CommitStager<C>>(
    stager: &S,
    request_id: Seq<char>,
    index: int,
    commit: C::Commit,
    item: OutboxItemModel<S::Payload>,
)
    requires
        item_staged::<C, S>(stager, request_id, index, commit, item),
        0 <= index <= u64::MAX,
    ensures
        item.id.request_id == request_id,
        item.id.index == index,
        exists|context: CommitStagingContext<'_>, staged: StagedCommit<S::Payload>|
            context@.request_id == request_id && context@.index == index && #[trigger] call_ensures(
                S::stage,
                (stager, context, &commit),
                Ok::<StagedCommit<S::Payload>, S::Error>(staged),
            ) && item.commit == staged@,
{
    let staged = choose|staged: StagedCommit<S::Payload>| #[trigger]
        staged_at::<C, S>(
            stager,
            request_id,
            index,
            commit,
            Ok::<StagedCommit<S::Payload>, S::Error>(staged),
        ) && item.commit == staged@ && item.id.request_id == request_id && item.id.index == index;
    assert(staged_at::<C, S>(
        stager,
        request_id,
        index,
        commit,
        Ok::<StagedCommit<S::Payload>, S::Error>(staged),
    ));
}

/// An outbox holds one item for each commit, in order.
pub proof fn law_outboxes_hold_every_commit<C: TurnChannels, S: CommitStager<C>>(
    stager: &S,
    request_id: Seq<char>,
    commits: Seq<C::Commit>,
    outbox: OutboxModel<S::Payload>,
)
    requires
        outbox_staged::<C, S>(stager, request_id, commits, outbox),
    ensures
        outbox.request_id == request_id,
        outbox.items.len() == commits.len(),
        is_numbered(outbox),
        forall|i: int|
            0 <= i < commits.len() ==> item_staged::<C, S>(
                stager,
                request_id,
                i,
                commits[i],
                #[trigger] outbox.items[i],
            ),
{
}

/// A fingerprint is taken of the whole publication, as it is staged.
pub proof fn law_fingerprints_see_the_whole_publication<
    Mutation,
    Payload,
    Version,
    F: PublicationFingerprintFactory<Mutation, Payload, Version>,
>(
    factory: &F,
    context: FingerprintContextModel<Mutation, Payload, Version>,
    result: Result<PublicationCandidateFingerprint, F::Error>,
)
    requires
        fingerprinted::<Mutation, Payload, Version, F>(factory, context, result),
    ensures
        exists|asked: PublicationFingerprintContext<'_, Mutation, Payload, Version>|
            asked@ == context && #[trigger] call_ensures(
                F::fingerprint,
                (factory, asked),
                result,
            ),
{
}

/// A receipt is that of a candidate exactly where it names its request, its fingerprint and
/// the number of its items. Otherwise the first of these that differs is reported.
pub proof fn law_receipts_are_held_to_the_candidate<Mutation, Payload, Version>(
    candidate: CandidateModel<Mutation, Payload, Version>,
    receipt: ReceiptModel<Version>,
)
    ensures
        receipt_mismatch(candidate, receipt) is None <==> {
            &&& receipt.request_id == candidate.request_id
            &&& receipt.fingerprint == candidate.fingerprint
            &&& receipt.outbox_count == candidate.outbox.items.len()
        },
        receipt.request_id != candidate.request_id ==> receipt_mismatch(candidate, receipt) == Some(
            MismatchModel::RequestId {
                expected: candidate.request_id,
                actual: receipt.request_id,
            },
        ),
        receipt.request_id == candidate.request_id && receipt.fingerprint != candidate.fingerprint
            ==> receipt_mismatch(candidate, receipt) == Some(
            MismatchModel::Fingerprint {
                expected: candidate.fingerprint,
                actual: receipt.fingerprint,
            },
        ),
        receipt.request_id == candidate.request_id && receipt.fingerprint == candidate.fingerprint
            && receipt.outbox_count != candidate.outbox.items.len() ==> receipt_mismatch(
            candidate,
            receipt,
        ) == Some(
            MismatchModel::OutboxCount {
                expected: candidate.outbox.items.len() as u64,
                actual: receipt.outbox_count,
            },
        ),
{
}

/// What the store answers to a request to publish decides where the publication stands: its
/// own receipt publishes it, a conflict or a refusal leaves it ready, and everything else
/// leaves open what became of it.
pub proof fn law_answers_settle_publications<Mutation, Payload, Version, E>(
    candidate: CandidateModel<Mutation, Payload, Version>,
    receipt: ReceiptModel<Version>,
    error: E,
)
    ensures
        ({
            let fits = receipt.request_id == candidate.request_id && receipt.fingerprint
                == candidate.fingerprint && receipt.outbox_count == candidate.outbox.items.len();
            let settled = after_write(candidate, WriteModel::<Version, E>::Receipt(receipt));
            &&& fits ==> settled == PublicationModel::<Mutation, Payload, Version>::Published(
                receipt,
            )
            &&& !fits ==> settled == PublicationModel::Resolving(candidate)
            &&& after_receipt(candidate, receipt) == settled
            &&& after_resolve(candidate, ResolveModel::<Version, E>::Receipt(receipt)) == settled
        }),
        after_write(candidate, WriteModel::<Version, E>::Conflict(error))
            == PublicationModel::Ready(candidate),
        after_write(candidate, WriteModel::<Version, E>::Rejected(error))
            == PublicationModel::Ready(candidate),
        after_write(candidate, WriteModel::<Version, E>::Indeterminate(error))
            == PublicationModel::Resolving(candidate),
        after_resolve(candidate, ResolveModel::<Version, E>::NotCommitted)
            == PublicationModel::Ready(candidate),
        after_resolve(candidate, ResolveModel::<Version, E>::CandidateCollision(error))
            == PublicationModel::Ready(candidate),
        after_resolve(candidate, ResolveModel::<Version, E>::Unavailable(error))
            == PublicationModel::Resolving(candidate),
        PublicationModel::<Mutation, Payload, Version>::Ready(candidate).phase()
            == PublicationPhase::Ready,
        PublicationModel::<Mutation, Payload, Version>::Resolving(candidate).phase()
            == PublicationPhase::Resolving,
        PublicationModel::<Mutation, Payload, Version>::Published(receipt).phase()
            == PublicationPhase::Published,
{
}

/// What a store answers is taken for what it is.
pub proof fn law_answers_are_taken_as_given<Version, E>(
    written: Result<PublicationReceipt<Version>, PublicationWriteError<E>>,
    resolved: Result<PublicationResolution<Version>, PublicationResolveError<E>>,
)
    ensures
        written is Ok ==> write_model(written) == WriteModel::<Version, E>::Receipt(
            written->Ok_0@,
        ),
        written is Err ==> match written->Err_0 {
            PublicationWriteError::Conflict(source) => write_model(written) == WriteModel::<
                Version,
                E,
            >::Conflict(source),
            PublicationWriteError::Rejected(source) => write_model(written) == WriteModel::<
                Version,
                E,
            >::Rejected(source),
            PublicationWriteError::Indeterminate(source) => write_model(written) == WriteModel::<
                Version,
                E,
            >::Indeterminate(source),
        },
        resolved is Ok ==> match resolved->Ok_0 {
            PublicationResolution::Published(receipt) => resolve_model(resolved) == ResolveModel::<
                Version,
                E,
            >::Receipt(receipt@),
            PublicationResolution::NotCommitted => resolve_model(resolved) == ResolveModel::<
                Version,
                E,
            >::NotCommitted,
        },
        resolved is Err ==> match resolved->Err_0 {
            PublicationResolveError::Unavailable(source) => resolve_model(resolved)
                == ResolveModel::<Version, E>::Unavailable(source),
            PublicationResolveError::CandidateCollision(source) => resolve_model(resolved)
                == ResolveModel::<Version, E>::CandidateCollision(source),
        },
{
}

/// A publication keeps the receipt of its candidate, in everything that the receipt says.
pub proof fn law_receipts_are_kept_whole<Mutation, Payload, Version: Clone>(
    candidate: CandidateModel<Mutation, Payload, Version>,
    receipt: ReceiptModel<Version>,
    publication: PublicationModel<Mutation, Payload, Version>,
)
    requires
        keeps_receipt(candidate, receipt, publication),
    ensures
        ({
            let kept = publication->Published_0;
            &&& publication is Published
            &&& kept.request_id == receipt.request_id
            &&& kept.request_id == candidate.request_id
            &&& kept.fingerprint == receipt.fingerprint
            &&& kept.fingerprint == candidate.fingerprint
            &&& kept.publication_id == receipt.publication_id
            &&& kept.outbox_count == receipt.outbox_count
            &&& kept.outbox_count == candidate.outbox.items.len()
            &&& cloned(receipt.session_revision, kept.session_revision)
        }),
{
}

/// A commit is accepted exactly where the stager may give an item for it.
pub proof fn law_accepted_commits_have_an_item<C: TurnChannels, S: CommitStager<C>>(
    stager: &S,
    request_id: Seq<char>,
    index: int,
    commit: C::Commit,
)
    ensures
        commit_accepted::<C, S>(stager, request_id, index, commit) <==> exists|
            item: OutboxItemModel<S::Payload>,
        | #[trigger]
            item_staged::<C, S>(stager, request_id, index, commit, item),
{
}

/// A candidate's plan is what it was staged from.
pub proof fn law_candidates_keep_their_plan<Mutation, Payload, Version>(
    candidate: CandidateModel<Mutation, Payload, Version>,
)
    ensures
        candidate.plan().request_id == candidate.request_id,
        candidate.plan().expected_revision == candidate.expected_revision,
        candidate.plan().mutation == candidate.mutation,
{
}

/// Finishing goes in order: the parser, then each binding by its place, then the provider
/// tools.
pub proof fn law_finishing_goes_in_order<C: TurnChannels>(finishing: FinishingModel<C>)
    requires
        finishing.attempt.bindings.len() <= usize::MAX,
    ensures
        !finishing.parser_finalized <==> finishing.step() == FinishStep::FinalizeParser,
        finishing.parser_finalized && finishing.next_binding < finishing.attempt.bindings.len()
            ==> finishing.step() is FinishBinding && finishing.step()->FinishBinding_0
            == finishing.next_binding,
        finishing.parser_finalized && finishing.next_binding >= finishing.attempt.bindings.len()
            ==> finishing.step() == FinishStep::FinishProviders,
{
}

/// Everything is cleaned up exactly where the live effects and every dispatcher say so.
pub proof fn law_clean_ups_need_every_answer<L, D>(report: AbortReportModel<L, D>)
    ensures
        is_cleaned_up(report) <==> report.live is Acknowledged && forall|i: int|
            0 <= i < report.dispatchers.len() ==> (#[trigger] report.dispatchers[i]).result()
                is Acknowledged,
{
}

/// An update behind another loses nothing and reorders nothing.
pub proof fn law_updates_follow_each_other<E, D>(
    first: UpdateModel<E, D>,
    second: UpdateModel<E, D>,
)
    ensures
        first.followed_by(second).emissions == first.emissions + second.emissions,
        first.followed_by(second).diagnostics == first.diagnostics + second.diagnostics,
        UpdateModel::<E, D>::empty().emissions.len() == 0,
        UpdateModel::<E, D>::empty().diagnostics.len() == 0,
{
}

} // verus!
