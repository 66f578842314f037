//! Durable publication: what a finished turn stores, and how its outcome is settled.

use vstd::prelude::*;
use crate::component::channels::TurnChannels;
use crate::component::contract::is_durable_text;
use crate::component::durable_keys::{validate_durable_key, DurableCallId, DurableKeyError};
use crate::component::durable_keys::{DurableSessionId, EpochContractId, KeyErrorModel};
use crate::component::durable_keys::{PublicationCandidateFingerprint, PublicationId};
use crate::component::durable_keys::PublicationRequestId;
use crate::component::identity::{AttemptModel, ProviderAttemptIdentity};
use crate::component::tools::{result_models, ProviderToolResult, ToolResultModel};
use crate::text_chars::{decimal, decimal_text, joined};

verus! {

/// What a request id is made for.
#[derive(Debug, Clone, Copy)]
pub struct PublicationRequestContext<'a> {
    pub(crate) session_id: &'a DurableSessionId,
    pub(crate) epoch_contract_id: &'a EpochContractId,
    pub(crate) call_id: &'a DurableCallId,
    pub(crate) turn_index: u64,
}

/// Model of [`PublicationRequestContext`].
pub struct RequestContextModel {
    pub session_id: Seq<char>,
    pub epoch_contract_id: Seq<char>,
    pub call_id: Seq<char>,
    pub turn_index: u64,
}

impl<'a> View for PublicationRequestContext<'a> {
    type V = RequestContextModel;

    open(crate) spec fn view(&self) -> RequestContextModel {
        RequestContextModel {
            session_id: self.session_id@,
            epoch_contract_id: self.epoch_contract_id@,
            call_id: self.call_id@,
            turn_index: self.turn_index,
        }
    }
}

impl<'a> PublicationRequestContext<'a> {
    pub fn new(
        session_id: &'a DurableSessionId,
        epoch_contract_id: &'a EpochContractId,
        call_id: &'a DurableCallId,
        turn_index: u64,
    ) -> (context: Self)
        ensures
            context@ == (RequestContextModel {
                session_id: session_id@,
                epoch_contract_id: epoch_contract_id@,
                call_id: call_id@,
                turn_index,
            }),
    {
        Self { session_id, epoch_contract_id, call_id, turn_index }
    }

    pub fn session_id(&self) -> (id: &'a DurableSessionId)
        ensures
            id@ == self@.session_id,
    {
        self.session_id
    }

    pub fn epoch_contract_id(&self) -> (id: &'a EpochContractId)
        ensures
            id@ == self@.epoch_contract_id,
    {
        self.epoch_contract_id
    }

    pub fn call_id(&self) -> (id: &'a DurableCallId)
        ensures
            id@ == self@.call_id,
    {
        self.call_id
    }

    pub fn turn_index(&self) -> (index: u64)
        ensures
            index == self@.turn_index,
    {
        self.turn_index
    }
}

/// How a host names its publication requests.
pub trait PublicationRequestIdFactory {
    type Error;

    fn request_id(&self, context: PublicationRequestContext<'_>) -> Result<
        PublicationRequestId,
        Self::Error,
    >;
}

/// Model of [`OutboxItemId`].
pub struct OutboxItemIdModel {
    pub request_id: Seq<char>,
    pub index: u64,
}

/// One item of the outbox of a publication.
#[derive(Debug)]
pub struct OutboxItemId {
    pub(crate) request_id: PublicationRequestId,
    pub(crate) index: u64,
}

impl View for OutboxItemId {
    type V = OutboxItemIdModel;

    open(crate) spec fn view(&self) -> OutboxItemIdModel {
        OutboxItemIdModel { request_id: self.request_id@, index: self.index }
    }
}

impl OutboxItemId {
    pub fn new(request_id: PublicationRequestId, index: u64) -> (id: Self)
        ensures
            id@ == (OutboxItemIdModel { request_id: request_id@, index }),
    {
        Self { request_id, index }
    }

    /// The id as a text.
    pub fn label(&self) -> (label: String)
        ensures
            label@ == self@.request_id + ":"@ + decimal(self@.index as nat),
    {
        let mut label: String = joined(self.request_id.as_str(), ":");
        let number: String = decimal_text(self.index);
        label.append(number.as_str());
        label
    }

    pub fn request_id(&self) -> (value: &PublicationRequestId)
        ensures
            value@ == self@.request_id,
    {
        &self.request_id
    }

    pub fn index(&self) -> (value: u64)
        ensures
            value == self@.index,
    {
        self.index
    }
}

impl Clone for OutboxItemId {
    fn clone(&self) -> (copy: Self)
        ensures
            copy@ == self@,
    {
        Self { request_id: self.request_id.clone(), index: self.index }
    }
}

impl PartialEq for OutboxItemId {
    fn eq(&self, other: &Self) -> (equal: bool) {
        self.request_id == other.request_id && self.index == other.index
    }
}

impl Eq for OutboxItemId {

}

impl vstd::std_specs::cmp::PartialEqSpecImpl for OutboxItemId {
    open spec fn obeys_eq_spec() -> bool {
        true
    }

    open spec fn eq_spec(&self, other: &Self) -> bool {
        self@ == other@
    }
}

/// Model of [`CommitContract`].
pub struct CommitContractModel {
    pub key: Seq<char>,
    pub schema_version: u32,
}

/// What a committed payload is: a key and the version of its schema.
#[derive(Debug)]
pub struct CommitContract {
    pub(crate) key: String,
    pub(crate) schema_version: u32,
}

impl View for CommitContract {
    type V = CommitContractModel;

    open(crate) spec fn view(&self) -> CommitContractModel {
        CommitContractModel { key: self.key@, schema_version: self.schema_version }
    }
}

impl CommitContract {
    pub fn new(key: &str, schema_version: u32) -> (result: Result<Self, DurableKeyError>)
        ensures
            result is Ok <==> is_durable_text(key@),
            result is Ok ==> result->Ok_0@ == (CommitContractModel { key: key@, schema_version }),
            result is Err ==> result->Err_0@ == (KeyErrorModel {
                kind: "commit contract key"@,
                value: key@,
            }),
    {
        match validate_durable_key(key, "commit contract key") {
            Ok(key) => Ok(Self { key, schema_version }),
            Err(error) => Err(error),
        }
    }

    pub fn key(&self) -> (text: &str)
        ensures
            text@ == self@.key,
    {
        self.key.as_str()
    }

    pub fn schema_version(&self) -> (value: u32)
        ensures
            value == self@.schema_version,
    {
        self.schema_version
    }
}

impl Clone for CommitContract {
    fn clone(&self) -> (copy: Self)
        ensures
            copy@ == self@,
    {
        Self { key: self.key.clone(), schema_version: self.schema_version }
    }
}

impl PartialEq for CommitContract {
    fn eq(&self, other: &Self) -> (equal: bool) {
        self.key == other.key && self.schema_version == other.schema_version
    }
}

impl Eq for CommitContract {

}

impl vstd::std_specs::cmp::PartialEqSpecImpl for CommitContract {
    open spec fn obeys_eq_spec() -> bool {
        true
    }

    open spec fn eq_spec(&self, other: &Self) -> bool {
        self@ == other@
    }
}

/// A commit as it is stored.
#[derive(Debug, Clone, PartialEq, Eq)]
pub struct StagedCommit<Payload> {
    pub(crate) contract: CommitContract,
    pub(crate) payload: Payload,
}

/// Model of [`StagedCommit`].
pub struct StagedCommitModel<Payload> {
    pub contract: CommitContractModel,
    pub payload: Payload,
}

impl<Payload> View for StagedCommit<Payload> {
    type V = StagedCommitModel<Payload>;

    open(crate) spec fn view(&self) -> StagedCommitModel<Payload> {
        StagedCommitModel { contract: self.contract@, payload: self.payload }
    }
}

impl<Payload> StagedCommit<Payload> {
    pub fn new(contract: CommitContract, payload: Payload) -> (commit: Self)
        ensures
            commit@ == (StagedCommitModel { contract: contract@, payload }),
    {
        Self { contract, payload }
    }

    pub fn contract(&self) -> (contract: &CommitContract)
        ensures
            contract@ == self@.contract,
    {
        &self.contract
    }

    pub fn payload(&self) -> (payload: &Payload)
        ensures
            *payload == self@.payload,
    {
        &self.payload
    }

    pub fn into_parts(self) -> (parts: (CommitContract, Payload))
        ensures
            parts.0@ == self@.contract,
            parts.1 == self@.payload,
    {
        (self.contract, self.payload)
    }
}

/// What a stager is told about a commit.
#[derive(Debug, Clone, Copy)]
pub struct CommitStagingContext<'a> {
    pub(crate) item_id: &'a OutboxItemId,
}

impl<'a> View for CommitStagingContext<'a> {
    type V = OutboxItemIdModel;

    open(crate) spec fn view(&self) -> OutboxItemIdModel {
        self.item_id@
    }
}

impl<'a> CommitStagingContext<'a> {
    pub fn item_id(&self) -> (id: &'a OutboxItemId)
        ensures
            id@ == self@,
    {
        self.item_id
    }
}

/// How a host stores its commits.
pub trait CommitStager<C: TurnChannels> {
    type Payload;

    type Error;

    fn stage(&self, context: CommitStagingContext<'_>, commit: &C::Commit) -> Result<
        StagedCommit<Self::Payload>,
        Self::Error,
    >;
}

/// Model of [`StagedOutboxItem`].
pub struct OutboxItemModel<Payload> {
    pub id: OutboxItemIdModel,
    pub commit: StagedCommitModel<Payload>,
}

/// One commit in an outbox.
#[derive(Debug, Clone, PartialEq, Eq)]
pub struct StagedOutboxItem<Payload> {
    pub(crate) id: OutboxItemId,
    pub(crate) contract: CommitContract,
    pub(crate) payload: Payload,
}

impl<Payload> View for StagedOutboxItem<Payload> {
    type V = OutboxItemModel<Payload>;

    open(crate) spec fn view(&self) -> OutboxItemModel<Payload> {
        OutboxItemModel {
            id: self.id@,
            commit: StagedCommitModel { contract: self.contract@, payload: self.payload },
        }
    }
}

impl<Payload> StagedOutboxItem<Payload> {
    pub fn id(&self) -> (id: &OutboxItemId)
        ensures
            id@ == self@.id,
    {
        &self.id
    }

    pub fn contract(&self) -> (contract: &CommitContract)
        ensures
            contract@ == self@.commit.contract,
    {
        &self.contract
    }

    pub fn payload(&self) -> (payload: &Payload)
        ensures
            *payload == self@.commit.payload,
    {
        &self.payload
    }
}

/// The models of several items.
pub open spec fn outbox_models<Payload>(items: Seq<StagedOutboxItem<Payload>>) -> Seq<
    OutboxItemModel<Payload>,
> {
    items.map_values(|item: StagedOutboxItem<Payload>| item@)
}

/// Model of [`StagedOutbox`].
pub struct OutboxModel<Payload> {
    pub request_id: Seq<char>,
    pub items: Seq<OutboxItemModel<Payload>>,
}

/// The commits of one publication, in order, each under its own id.
#[derive(Debug)]
pub struct StagedOutbox<Payload> {
    pub(crate) request_id: PublicationRequestId,
    pub(crate) items: Vec<StagedOutboxItem<Payload>>,
}

impl<Payload> View for StagedOutbox<Payload> {
    type V = OutboxModel<Payload>;

    open(crate) spec fn view(&self) -> OutboxModel<Payload> {
        OutboxModel { request_id: self.request_id@, items: outbox_models(self.items@) }
    }
}

/// Whether the items of an outbox are numbered from zero under its request.
pub open spec fn is_numbered<Payload>(outbox: OutboxModel<Payload>) -> bool {
    forall|i: int|
        0 <= i < outbox.items.len() ==> (#[trigger] outbox.items[i]).id == (OutboxItemIdModel {
            request_id: outbox.request_id,
            index: i as u64,
        })
}

impl<Payload> StagedOutbox<Payload> {
    #[verifier::type_invariant]
    pub(crate) open(crate) spec fn inv(self) -> bool {
        is_numbered(self@)
    }

    pub fn request_id(&self) -> (id: &PublicationRequestId)
        ensures
            id@ == self@.request_id,
    {
        &self.request_id
    }

    pub fn items(&self) -> (items: &Vec<StagedOutboxItem<Payload>>)
        ensures
            outbox_models(items@) == self@.items,
            is_numbered(self@),
    {
        proof {
            use_type_invariant(self);
        }
        &self.items
    }

    pub fn len(&self) -> (len: usize)
        ensures
            len == self@.items.len(),
    {
        self.items.len()
    }

    pub fn is_empty(&self) -> (empty: bool)
        ensures
            empty == (self@.items.len() == 0),
    {
        self.items.is_empty()
    }
}

/// The commit that could not be staged, and why.
#[derive(Debug)]
pub struct CommitStagingFailure<E> {
    pub(crate) item_id: OutboxItemId,
    pub(crate) source: E,
}

impl<E> CommitStagingFailure<E> {
    /// The item that failed.
    pub open(crate) spec fn item(self) -> OutboxItemIdModel {
        self.item_id@
    }

    /// The reported error.
    pub open(crate) spec fn error(self) -> E {
        self.source
    }

    pub fn item_id(&self) -> (id: &OutboxItemId)
        ensures
            id@ == self.item(),
    {
        &self.item_id
    }

    pub fn source_error(&self) -> (error: &E)
        ensures
            *error == self.error(),
    {
        &self.source
    }
}

/// Whether the stager gave this result for the commit at an index.
pub open spec fn staged_at<C: TurnChannels, S: CommitStager<C>>(
    stager: &S,
    request_id: Seq<char>,
    index: int,
    commit: C::Commit,
    result: Result<StagedCommit<S::Payload>, S::Error>,
) -> bool {
    exists|context: CommitStagingContext<'_>|
        context@ == (OutboxItemIdModel { request_id, index: index as u64 }) && #[trigger]
            call_ensures(S::stage, (stager, context, &commit), result)
}

/// Whether an item is what the stager gave for the commit at an index.
pub open spec fn item_staged<C: TurnChannels, S: CommitStager<C>>(
    stager: &S,
    request_id: Seq<char>,
    index: int,
    commit: C::Commit,
    item: OutboxItemModel<S::Payload>,
) -> bool {
    exists|staged: StagedCommit<S::Payload>| #[trigger]
        staged_at::<C, S>(
            stager,
            request_id,
            index,
            commit,
            Ok::<StagedCommit<S::Payload>, S::Error>(staged),
        ) && item == (OutboxItemModel {
            id: OutboxItemIdModel { request_id, index: index as u64 },
            commit: staged@,
        })
}

/// Whether the stager accepted the commit at an index.
pub open spec fn commit_accepted<C: TurnChannels, S: CommitStager<C>>(
    stager: &S,
    request_id: Seq<char>,
    index: int,
    commit: C::Commit,
) -> bool {
    exists|item: OutboxItemModel<S::Payload>| #[trigger]
        item_staged::<C, S>(stager, request_id, index, commit, item)
}

/// Stages commits in order, each under its own id. The first that the stager refuses
/// ends it.
pub fn stage_commit_outbox<C: TurnChannels, S: CommitStager<C>>(
    request_id: PublicationRequestId,
    commits: &Vec<C::Commit>,
    stager: &S,
) -> (result: Result<StagedOutbox<S::Payload>, CommitStagingFailure<S::Error>>)
    ensures
        match result {
            Ok(outbox) => {
                &&& outbox@.request_id == request_id@
                &&& outbox@.items.len() == commits@.len()
                &&& is_numbered(outbox@)
                &&& forall|i: int|
                    0 <= i < commits@.len() ==> item_staged::<C, S>(
                        stager,
                        request_id@,
                        i,
                        commits@[i],
                        #[trigger] outbox@.items[i],
                    )
            },
            Err(failure) => {
                &&& failure.item().request_id == request_id@
                &&& failure.item().index < commits@.len()
                &&& forall|i: int|
                    0 <= i < failure.item().index ==> commit_accepted::<C, S>(
                        stager,
                        request_id@,
                        i,
                        #[trigger] commits@[i],
                    )
                &&& staged_at::<C, S>(
                    stager,
                    request_id@,
                    failure.item().index as int,
                    commits@[failure.item().index as int],
                    Err::<StagedCommit<S::Payload>, S::Error>(failure.error()),
                )
            },
        },
{
    let mut items: Vec<StagedOutboxItem<S::Payload>> = Vec::new();
    let count: usize = commits.len();
    for i in 0..count
        invariant
            count == commits@.len(),
            items@.len() == i,
            forall|j: int|
                0 <= j < i ==> item_staged::<C, S>(
                    stager,
                    request_id@,
                    j,
                    commits@[j],
                    (#[trigger] items@[j])@,
                ),
            forall|j: int|
                0 <= j < i ==> (#[trigger] items@[j])@.id == (OutboxItemIdModel {
                    request_id: request_id@,
                    index: j as u64,
                }),
    {
        let index: u64 = i as u64;
        let id = OutboxItemId::new(request_id.clone(), index);
        let context = CommitStagingContext { item_id: &id };
        let staged = stager.stage(context, &commits[i]);
        assert(staged_at::<C, S>(stager, request_id@, i as int, commits@[i as int], staged));
        match staged {
            Ok(staged) => {
                let ghost kept = staged;
                let (contract, payload) = staged.into_parts();
                let item = StagedOutboxItem { id, contract, payload };
                assert(staged_at::<C, S>(
                    stager,
                    request_id@,
                    i as int,
                    commits@[i as int],
                    Ok::<StagedCommit<S::Payload>, S::Error>(kept),
                ));
                assert(item@.commit == kept@);
                assert(item_staged::<C, S>(
                    stager,
                    request_id@,
                    i as int,
                    commits@[i as int],
                    item@,
                ));
                items.push(item);
            },
            Err(source) => {
                assert forall|j: int| 0 <= j < i implies commit_accepted::<C, S>(
                    stager,
                    request_id@,
                    j,
                    #[trigger] commits@[j],
                ) by {
                    assert(item_staged::<C, S>(
                        stager,
                        request_id@,
                        j,
                        commits@[j],
                        items@[j]@,
                    ));
                }
                return Err(CommitStagingFailure { item_id: id, source });
            },
        }
    }
    let ghost models = outbox_models(items@);
    assert forall|i: int| 0 <= i < commits@.len() implies item_staged::<C, S>(
        stager,
        request_id@,
        i,
        commits@[i],
        #[trigger] models[i],
    ) by {
        assert(models[i] == items@[i]@);
    }
    assert forall|i: int| 0 <= i < models.len() implies (#[trigger] models[i]).id == (
    OutboxItemIdModel { request_id: request_id@, index: i as u64 }) by {
        assert(models[i] == items@[i]@);
    }
    Ok(StagedOutbox { request_id, items })
}

/// A change of the session that waits to be published.
#[derive(Debug, Clone, PartialEq, Eq)]
pub struct PreparedSessionMutation<Mutation> {
    pub(crate) value: Mutation,
}

impl<Mutation> PreparedSessionMutation<Mutation> {
    /// The change itself.
    pub open(crate) spec fn change(self) -> Mutation {
        self.value
    }

    pub fn new(value: Mutation) -> (mutation: Self)
        ensures
            mutation.change() == value,
    {
        Self { value }
    }

    pub fn value(&self) -> (value: &Mutation)
        ensures
            *value == self.change(),
    {
        &self.value
    }

    pub fn into_inner(self) -> (value: Mutation)
        ensures
            value == self.change(),
    {
        self.value
    }
}

/// Model of [`PublicationStagingPlan`].
pub struct PlanDataModel<Mutation, Version> {
    pub request_id: Seq<char>,
    pub expected_revision: Version,
    pub mutation: Mutation,
}

/// What a publication is staged from, besides the turn itself.
#[derive(Debug, Clone, PartialEq, Eq)]
pub struct PublicationStagingPlan<Mutation, Version> {
    pub(crate) request_id: PublicationRequestId,
    pub(crate) expected_revision: Version,
    pub(crate) mutation: PreparedSessionMutation<Mutation>,
}

impl<Mutation, Version> View for PublicationStagingPlan<Mutation, Version> {
    type V = PlanDataModel<Mutation, Version>;

    open(crate) spec fn view(&self) -> PlanDataModel<Mutation, Version> {
        PlanDataModel {
            request_id: self.request_id@,
            expected_revision: self.expected_revision,
            mutation: self.mutation.change(),
        }
    }
}

impl<Mutation, Version> PublicationStagingPlan<Mutation, Version> {
    pub fn new(
        request_id: PublicationRequestId,
        expected_revision: Version,
        mutation: PreparedSessionMutation<Mutation>,
    ) -> (plan: Self)
        ensures
            plan@ == (PlanDataModel {
                request_id: request_id@,
                expected_revision,
                mutation: mutation.change(),
            }),
    {
        Self { request_id, expected_revision, mutation }
    }

    pub fn request_id(&self) -> (id: &PublicationRequestId)
        ensures
            id@ == self@.request_id,
    {
        &self.request_id
    }

    pub fn expected_revision(&self) -> (revision: &Version)
        ensures
            *revision == self@.expected_revision,
    {
        &self.expected_revision
    }

    pub fn mutation(&self) -> (mutation: &PreparedSessionMutation<Mutation>)
        ensures
            mutation.change() == self@.mutation,
    {
        &self.mutation
    }

    pub fn into_parts(self) -> (parts: (
        PublicationRequestId,
        Version,
        PreparedSessionMutation<Mutation>,
    ))
        ensures
            parts.0@ == self@.request_id,
            parts.1 == self@.expected_revision,
            parts.2.change() == self@.mutation,
    {
        (self.request_id, self.expected_revision, self.mutation)
    }
}

/// Model of [`StagedPublication`].
pub struct CandidateModel<Mutation, Payload, Version> {
    pub request_id: Seq<char>,
    pub fingerprint: Seq<char>,
    pub expected_revision: Version,
    pub mutation: Mutation,
    pub attempt: AttemptModel,
    pub raw_output: Seq<char>,
    pub provider_results: Seq<ToolResultModel>,
    pub outbox: OutboxModel<Payload>,
}

impl<Mutation, Payload, Version> CandidateModel<Mutation, Payload, Version> {
    /// What the candidate was staged from.
    pub open spec fn plan(self) -> PlanDataModel<Mutation, Version> {
        PlanDataModel {
            request_id: self.request_id,
            expected_revision: self.expected_revision,
            mutation: self.mutation,
        }
    }
}

/// A publication candidate: everything that one publication stores at once.
#[derive(Debug)]
pub struct StagedPublication<Mutation, Payload, Version> {
    pub(crate) request_id: PublicationRequestId,
    pub(crate) fingerprint: PublicationCandidateFingerprint,
    pub(crate) expected_revision: Version,
    pub(crate) mutation: PreparedSessionMutation<Mutation>,
    pub(crate) attempt: ProviderAttemptIdentity,
    pub(crate) raw_output: String,
    pub(crate) provider_results: Vec<ProviderToolResult>,
    pub(crate) outbox: StagedOutbox<Payload>,
}

impl<Mutation, Payload, Version> View for StagedPublication<Mutation, Payload, Version> {
    type V = CandidateModel<Mutation, Payload, Version>;

    open(crate) spec fn view(&self) -> CandidateModel<Mutation, Payload, Version> {
        CandidateModel {
            request_id: self.request_id@,
            fingerprint: self.fingerprint@,
            expected_revision: self.expected_revision,
            mutation: self.mutation.change(),
            attempt: self.attempt@,
            raw_output: self.raw_output@,
            provider_results: result_models(self.provider_results@),
            outbox: self.outbox@,
        }
    }
}

/// Model of [`PublicationReceipt`].
pub struct ReceiptModel<Version> {
    pub request_id: Seq<char>,
    pub fingerprint: Seq<char>,
    pub publication_id: Seq<char>,
    pub session_revision: Version,
    pub outbox_count: u64,
}

/// What the store confirms.
#[derive(Debug, PartialEq, Eq)]
pub struct PublicationReceipt<Version> {
    pub(crate) request_id: PublicationRequestId,
    pub(crate) fingerprint: PublicationCandidateFingerprint,
    pub(crate) publication_id: PublicationId,
    pub(crate) session_revision: Version,
    pub(crate) outbox_count: u64,
}

impl<Version> View for PublicationReceipt<Version> {
    type V = ReceiptModel<Version>;

    open(crate) spec fn view(&self) -> ReceiptModel<Version> {
        ReceiptModel {
            request_id: self.request_id@,
            fingerprint: self.fingerprint@,
            publication_id: self.publication_id@,
            session_revision: self.session_revision,
            outbox_count: self.outbox_count,
        }
    }
}

/// Whether a receipt is a copy of another: alike but for the revision, which is a clone.
pub open spec fn receipt_copied<Version: Clone>(
    from: ReceiptModel<Version>,
    to: ReceiptModel<Version>,
) -> bool {
    &&& to.request_id == from.request_id
    &&& to.fingerprint == from.fingerprint
    &&& to.publication_id == from.publication_id
    &&& cloned(from.session_revision, to.session_revision)
    &&& to.outbox_count == from.outbox_count
}

impl<Version: Clone> Clone for PublicationReceipt<Version> {
    fn clone(&self) -> (copy: Self)
        ensures
            receipt_copied(self@, copy@),
    {
        Self {
            request_id: self.request_id.clone(),
            fingerprint: self.fingerprint.clone(),
            publication_id: self.publication_id.clone(),
            session_revision: self.session_revision.clone(),
            outbox_count: self.outbox_count,
        }
    }
}

impl<Version> PublicationReceipt<Version> {
    pub fn new(
        request_id: PublicationRequestId,
        fingerprint: PublicationCandidateFingerprint,
        publication_id: PublicationId,
        session_revision: Version,
        outbox_count: u64,
    ) -> (receipt: Self)
        ensures
            receipt@ == (ReceiptModel {
                request_id: request_id@,
                fingerprint: fingerprint@,
                publication_id: publication_id@,
                session_revision,
                outbox_count,
            }),
    {
        Self { request_id, fingerprint, publication_id, session_revision, outbox_count }
    }

    pub fn request_id(&self) -> (id: &PublicationRequestId)
        ensures
            id@ == self@.request_id,
    {
        &self.request_id
    }

    pub fn fingerprint(&self) -> (fingerprint: &PublicationCandidateFingerprint)
        ensures
            fingerprint@ == self@.fingerprint,
    {
        &self.fingerprint
    }

    pub fn publication_id(&self) -> (id: &PublicationId)
        ensures
            id@ == self@.publication_id,
    {
        &self.publication_id
    }

    pub fn session_revision(&self) -> (revision: &Version)
        ensures
            *revision == self@.session_revision,
    {
        &self.session_revision
    }

    pub fn outbox_count(&self) -> (count: u64)
        ensures
            count == self@.outbox_count,
    {
        self.outbox_count
    }
}

/// Why a candidate cannot be built.
#[derive(Debug)]
pub enum PublicationCandidateError {
    /// The outbox was staged for another request.
    OutboxRequestMismatch { publication: PublicationRequestId, outbox: PublicationRequestId },
}

/// Why a receipt is not the candidate's.
#[derive(Debug)]
#[allow(inconsistent_fields)]
pub enum PublicationReceiptMismatch {
    RequestId { expected: PublicationRequestId, actual: PublicationRequestId },
    Fingerprint {
        expected: PublicationCandidateFingerprint,
        actual: PublicationCandidateFingerprint,
    },
    OutboxCount { expected: u64, actual: u64 },
}

/// Model of [`PublicationReceiptMismatch`].
#[allow(inconsistent_fields)]
pub enum MismatchModel {
    RequestId { expected: Seq<char>, actual: Seq<char> },
    Fingerprint { expected: Seq<char>, actual: Seq<char> },
    OutboxCount { expected: u64, actual: u64 },
}

impl View for PublicationReceiptMismatch {
    type V = MismatchModel;

    open spec fn view(&self) -> MismatchModel {
        match *self {
            PublicationReceiptMismatch::RequestId { expected, actual } => {
                MismatchModel::RequestId { expected: expected@, actual: actual@ }
            },
            PublicationReceiptMismatch::Fingerprint { expected, actual } => {
                MismatchModel::Fingerprint { expected: expected@, actual: actual@ }
            },
            PublicationReceiptMismatch::OutboxCount { expected, actual } => {
                MismatchModel::OutboxCount { expected, actual }
            },
        }
    }
}

/// The first thing in which a receipt differs from a candidate: the request, the
/// fingerprint, or the number of items.
pub open spec fn receipt_mismatch<Mutation, Payload, Version>(
    candidate: CandidateModel<Mutation, Payload, Version>,
    receipt: ReceiptModel<Version>,
) -> Option<MismatchModel> {
    if receipt.request_id != candidate.request_id {
        Some(
            MismatchModel::RequestId {
                expected: candidate.request_id,
                actual: receipt.request_id,
            },
        )
    } else if receipt.fingerprint != candidate.fingerprint {
        Some(
            MismatchModel::Fingerprint {
                expected: candidate.fingerprint,
                actual: receipt.fingerprint,
            },
        )
    } else if receipt.outbox_count != candidate.outbox.items.len() {
        Some(
            MismatchModel::OutboxCount {
                expected: candidate.outbox.items.len() as u64,
                actual: receipt.outbox_count,
            },
        )
    } else {
        None
    }
}

impl<Mutation, Payload, Version> StagedPublication<Mutation, Payload, Version> {
    #[verifier::type_invariant]
    pub(crate) open(crate) spec fn inv(self) -> bool {
        self.request_id@ == self.outbox@.request_id
    }

    /// A candidate whose outbox was staged for the same request.
    pub fn new(
        request_id: PublicationRequestId,
        fingerprint: PublicationCandidateFingerprint,
        expected_revision: Version,
        mutation: PreparedSessionMutation<Mutation>,
        attempt: ProviderAttemptIdentity,
        raw_output: &str,
        provider_results: Vec<ProviderToolResult>,
        outbox: StagedOutbox<Payload>,
    ) -> (result: Result<Self, PublicationCandidateError>)
        ensures
            match result {
                Ok(candidate) => {
                    &&& request_id@ == outbox@.request_id
                    &&& candidate@ == (CandidateModel {
                        request_id: request_id@,
                        fingerprint: fingerprint@,
                        expected_revision,
                        mutation: mutation.change(),
                        attempt: attempt@,
                        raw_output: raw_output@,
                        provider_results: result_models(provider_results@),
                        outbox: outbox@,
                    })
                },
                Err(
                    PublicationCandidateError::OutboxRequestMismatch { publication, outbox: other },
                ) => {
                    &&& request_id@ != outbox@.request_id
                    &&& publication@ == request_id@
                    &&& other@ == outbox@.request_id
                },
            },
    {
        if request_id != outbox.request_id {
            return Err(
                PublicationCandidateError::OutboxRequestMismatch {
                    publication: request_id,
                    outbox: outbox.request_id.clone(),
                },
            );
        }
        Ok(
            Self {
                request_id,
                fingerprint,
                expected_revision,
                mutation,
                attempt,
                raw_output: raw_output.to_owned(),
                provider_results,
                outbox,
            },
        )
    }

    pub fn request_id(&self) -> (id: &PublicationRequestId)
        ensures
            id@ == self@.request_id,
    {
        &self.request_id
    }

    pub fn fingerprint(&self) -> (fingerprint: &PublicationCandidateFingerprint)
        ensures
            fingerprint@ == self@.fingerprint,
    {
        &self.fingerprint
    }

    pub fn expected_revision(&self) -> (revision: &Version)
        ensures
            *revision == self@.expected_revision,
    {
        &self.expected_revision
    }

    pub fn mutation(&self) -> (mutation: &PreparedSessionMutation<Mutation>)
        ensures
            mutation.change() == self@.mutation,
    {
        &self.mutation
    }

    pub fn attempt(&self) -> (attempt: &ProviderAttemptIdentity)
        ensures
            attempt@ == self@.attempt,
    {
        &self.attempt
    }

    pub fn raw_output(&self) -> (text: &str)
        ensures
            text@ == self@.raw_output,
    {
        self.raw_output.as_str()
    }

    pub fn provider_results(&self) -> (results: &Vec<ProviderToolResult>)
        ensures
            result_models(results@) == self@.provider_results,
    {
        &self.provider_results
    }

    pub fn outbox(&self) -> (outbox: &StagedOutbox<Payload>)
        ensures
            outbox@ == self@.outbox,
            self@.request_id == self@.outbox.request_id,
    {
        proof {
            use_type_invariant(self);
        }
        &self.outbox
    }

    /// Back to what the candidate was staged from.
    pub fn into_staging_plan(self) -> (plan: PublicationStagingPlan<Mutation, Version>)
        ensures
            plan@ == self@.plan(),
    {
        PublicationStagingPlan::new(self.request_id, self.expected_revision, self.mutation)
    }

    /// Whether a receipt is this candidate's.
    pub fn validate_receipt(&self, receipt: &PublicationReceipt<Version>) -> (result: Result<
        (),
        PublicationReceiptMismatch,
    >)
        ensures
            match result {
                Ok(_) => receipt_mismatch(self@, receipt@) is None,
                Err(mismatch) => receipt_mismatch(self@, receipt@) == Some(mismatch@),
            },
    {
        if receipt.request_id != self.request_id {
            return Err(
                PublicationReceiptMismatch::RequestId {
                    expected: self.request_id.clone(),
                    actual: receipt.request_id.clone(),
                },
            );
        }
        if receipt.fingerprint != self.fingerprint {
            return Err(
                PublicationReceiptMismatch::Fingerprint {
                    expected: self.fingerprint.clone(),
                    actual: receipt.fingerprint.clone(),
                },
            );
        }
        let expected: u64 = self.outbox.len() as u64;
        if receipt.outbox_count != expected {
            return Err(
                PublicationReceiptMismatch::OutboxCount { expected, actual: receipt.outbox_count },
            );
        }
        Ok(())
    }
}

/// What the store is asked to publish.
pub struct PublicationRequest<'a, Mutation, Payload, Version> {
    pub(crate) candidate: &'a StagedPublication<Mutation, Payload, Version>,
}

impl<'a, Mutation, Payload, Version> View for PublicationRequest<'a, Mutation, Payload, Version> {
    type V = CandidateModel<Mutation, Payload, Version>;

    open(crate) spec fn view(&self) -> CandidateModel<Mutation, Payload, Version> {
        self.candidate@
    }
}

impl<Mutation, Payload, Version> StagedPublication<Mutation, Payload, Version> {
    /// The candidate as a request.
    pub fn as_request(&self) -> (request: PublicationRequest<'_, Mutation, Payload, Version>)
        ensures
            request@ == self@,
    {
        PublicationRequest { candidate: self }
    }
}

impl<'a, Mutation, Payload, Version> PublicationRequest<'a, Mutation, Payload, Version> {
    pub fn request_id(&self) -> (id: &'a PublicationRequestId)
        ensures
            id@ == self@.request_id,
    {
        self.candidate.request_id()
    }

    pub fn fingerprint(&self) -> (fingerprint: &'a PublicationCandidateFingerprint)
        ensures
            fingerprint@ == self@.fingerprint,
    {
        self.candidate.fingerprint()
    }

    pub fn expected_revision(&self) -> (revision: &'a Version)
        ensures
            *revision == self@.expected_revision,
    {
        self.candidate.expected_revision()
    }

    pub fn mutation(&self) -> (mutation: &'a PreparedSessionMutation<Mutation>)
        ensures
            mutation.change() == self@.mutation,
    {
        self.candidate.mutation()
    }

    pub fn attempt(&self) -> (attempt: &'a ProviderAttemptIdentity)
        ensures
            attempt@ == self@.attempt,
    {
        self.candidate.attempt()
    }

    pub fn raw_output(&self) -> (text: &'a str)
        ensures
            text@ == self@.raw_output,
    {
        self.candidate.raw_output()
    }

    pub fn provider_results(&self) -> (results: &'a Vec<ProviderToolResult>)
        ensures
            result_models(results@) == self@.provider_results,
    {
        self.candidate.provider_results()
    }

    pub fn outbox(&self) -> (outbox: &'a StagedOutbox<Payload>)
        ensures
            outbox@ == self@.outbox,
    {
        self.candidate.outbox()
    }
}

/// How a store refuses to publish.
#[derive(Debug)]
pub enum PublicationWriteError<E> {
    /// The session has moved on.
    Conflict(E),
    /// Nothing was committed.
    Rejected(E),
    /// Nobody knows what was committed.
    Indeterminate(E),
}

/// How a store fails to say what became of a publication.
#[derive(Debug, Clone, PartialEq, Eq)]
pub enum PublicationResolveError<E> {
    /// The store cannot say now.
    Unavailable(E),
    /// The request id belongs to another candidate.
    CandidateCollision(E),
}

/// What a store says became of a publication.
#[derive(Debug, Clone, PartialEq, Eq)]
pub enum PublicationResolution<Version> {
    Published(PublicationReceipt<Version>),
    NotCommitted,
}

/// How far a publication has come.
#[derive(Debug, Clone, Copy, PartialEq, Eq, Structural)]
pub enum PublicationPhase {
    /// Nothing of it is stored.
    Ready,
    /// It may be stored.
    Resolving,
    /// It is stored.
    Published,
}

impl PublicationPhase {
    pub fn as_str(&self) -> (name: &'static str)
        ensures
            name@ == match *self {
                PublicationPhase::Ready => "ready"@,
                PublicationPhase::Resolving => "resolving"@,
                PublicationPhase::Published => "published"@,
            },
    {
        match self {
            PublicationPhase::Ready => "ready",
            PublicationPhase::Resolving => "resolving",
            PublicationPhase::Published => "published",
        }
    }
}

/// A step that the phase of a publication does not allow.
#[derive(Debug, Clone, Copy, PartialEq, Eq, Structural)]
pub struct PublicationPhaseError {
    pub(crate) phase: PublicationPhase,
    pub(crate) required: PublicationPhase,
}

impl PublicationPhaseError {
    /// The phase that the publication is in.
    pub open(crate) spec fn found(self) -> PublicationPhase {
        self.phase
    }

    /// The phase that the step needs.
    pub open(crate) spec fn wanted(self) -> PublicationPhase {
        self.required
    }

    pub fn phase(&self) -> (phase: PublicationPhase)
        ensures
            phase == self.found(),
    {
        self.phase
    }

    pub fn required(&self) -> (phase: PublicationPhase)
        ensures
            phase == self.wanted(),
    {
        self.required
    }
}

/// Why a publication did not come further.
#[derive(Debug)]
pub enum PublicationAttemptError<E> {
    Phase(PublicationPhaseError),
    Conflict(E),
    Rejected(E),
    Indeterminate(E),
    Resolve(PublicationResolveError<E>),
    Receipt(PublicationReceiptMismatch),
}

/// Model of [`PublicationAttempt`].
pub enum PublicationModel<Mutation, Payload, Version> {
    Ready(CandidateModel<Mutation, Payload, Version>),
    Resolving(CandidateModel<Mutation, Payload, Version>),
    Published(ReceiptModel<Version>),
}

impl<Mutation, Payload, Version> PublicationModel<Mutation, Payload, Version> {
    /// The phase of the publication.
    pub open spec fn phase(self) -> PublicationPhase {
        match self {
            PublicationModel::Ready(_) => PublicationPhase::Ready,
            PublicationModel::Resolving(_) => PublicationPhase::Resolving,
            PublicationModel::Published(_) => PublicationPhase::Published,
        }
    }
}

#[derive(Debug)]
pub(crate) enum PublicationState<Mutation, Payload, Version> {
    Open { candidate: StagedPublication<Mutation, Payload, Version>, resolving: bool },
    Published(PublicationReceipt<Version>),
}

/// One publication on its way into the store. The candidate is kept until the store
/// has confirmed it.
#[derive(Debug)]
#[must_use]
pub struct PublicationAttempt<Mutation, Payload, Version> {
    pub(crate) state: PublicationState<Mutation, Payload, Version>,
}

impl<Mutation, Payload, Version> View for PublicationAttempt<Mutation, Payload, Version> {
    type V = PublicationModel<Mutation, Payload, Version>;

    open(crate) spec fn view(&self) -> PublicationModel<Mutation, Payload, Version> {
        match self.state {
            PublicationState::Open { candidate, resolving } => if resolving {
                PublicationModel::Resolving(candidate@)
            } else {
                PublicationModel::Ready(candidate@)
            },
            PublicationState::Published(receipt) => PublicationModel::Published(receipt@),
        }
    }
}

/// Model of what a store answers to a request to publish.
pub enum WriteModel<Version, E> {
    Receipt(ReceiptModel<Version>),
    Conflict(E),
    Rejected(E),
    Indeterminate(E),
}

/// The model of a store's answer.
pub open spec fn write_model<Version, E>(
    outcome: Result<PublicationReceipt<Version>, PublicationWriteError<E>>,
) -> WriteModel<Version, E> {
    match outcome {
        Ok(receipt) => WriteModel::Receipt(receipt@),
        Err(PublicationWriteError::Conflict(source)) => WriteModel::Conflict(source),
        Err(PublicationWriteError::Rejected(source)) => WriteModel::Rejected(source),
        Err(PublicationWriteError::Indeterminate(source)) => WriteModel::Indeterminate(source),
    }
}

/// Model of what a store says became of a publication.
pub enum ResolveModel<Version, E> {
    Receipt(ReceiptModel<Version>),
    NotCommitted,
    Unavailable(E),
    CandidateCollision(E),
}

/// The model of a store's answer.
pub open spec fn resolve_model<Version, E>(
    outcome: Result<PublicationResolution<Version>, PublicationResolveError<E>>,
) -> ResolveModel<Version, E> {
    match outcome {
        Ok(PublicationResolution::Published(receipt)) => ResolveModel::Receipt(receipt@),
        Ok(PublicationResolution::NotCommitted) => ResolveModel::NotCommitted,
        Err(PublicationResolveError::Unavailable(source)) => ResolveModel::Unavailable(source),
        Err(PublicationResolveError::CandidateCollision(source)) => {
            ResolveModel::CandidateCollision(source)
        },
    }
}

/// Where a publication stands once a receipt has come. Only the candidate's own
/// receipt settles it.
pub open spec fn after_receipt<Mutation, Payload, Version>(
    candidate: CandidateModel<Mutation, Payload, Version>,
    receipt: ReceiptModel<Version>,
) -> PublicationModel<Mutation, Payload, Version> {
    if receipt_mismatch(candidate, receipt) is None {
        PublicationModel::Published(receipt)
    } else {
        PublicationModel::Resolving(candidate)
    }
}

/// Whether a publication stands where the receipt of its candidate put it. It holds a
/// copy, and whoever asked gets the receipt itself.
pub open spec fn keeps_receipt<Mutation, Payload, Version: Clone>(
    candidate: CandidateModel<Mutation, Payload, Version>,
    receipt: ReceiptModel<Version>,
    publication: PublicationModel<Mutation, Payload, Version>,
) -> bool {
    &&& publication is Published
    &&& receipt_copied(receipt, publication->Published_0)
    &&& publication == after_receipt(candidate, publication->Published_0)
}

/// Where a publication stands once the store has answered. It may be tried again only
/// where nothing was committed.
pub open spec fn after_write<Mutation, Payload, Version, E>(
    candidate: CandidateModel<Mutation, Payload, Version>,
    outcome: WriteModel<Version, E>,
) -> PublicationModel<Mutation, Payload, Version> {
    match outcome {
        WriteModel::Receipt(receipt) => after_receipt(candidate, receipt),
        WriteModel::Conflict(_) => PublicationModel::Ready(candidate),
        WriteModel::Rejected(_) => PublicationModel::Ready(candidate),
        WriteModel::Indeterminate(_) => PublicationModel::Resolving(candidate),
    }
}

/// Where a publication stands once the store has said what became of it.
pub open spec fn after_resolve<Mutation, Payload, Version, E>(
    candidate: CandidateModel<Mutation, Payload, Version>,
    outcome: ResolveModel<Version, E>,
) -> PublicationModel<Mutation, Payload, Version> {
    match outcome {
        ResolveModel::Receipt(receipt) => after_receipt(candidate, receipt),
        ResolveModel::NotCommitted => PublicationModel::Ready(candidate),
        ResolveModel::CandidateCollision(_) => PublicationModel::Ready(candidate),
        ResolveModel::Unavailable(_) => PublicationModel::Resolving(candidate),
    }
}

impl<Mutation, Payload, Version> PublicationAttempt<Mutation, Payload, Version> {
    pub fn new(candidate: StagedPublication<Mutation, Payload, Version>) -> (attempt: Self)
        ensures
            attempt@ == PublicationModel::Ready(candidate@),
    {
        Self { state: PublicationState::Open { candidate, resolving: false } }
    }

    pub fn phase(&self) -> (phase: PublicationPhase)
        ensures
            phase == self@.phase(),
    {
        match &self.state {
            PublicationState::Open { candidate, resolving } => if *resolving {
                PublicationPhase::Resolving
            } else {
                PublicationPhase::Ready
            },
            PublicationState::Published(_) => PublicationPhase::Published,
        }
    }

    /// The candidate, until it is published.
    pub fn candidate(&self) -> (candidate: Option<&StagedPublication<Mutation, Payload, Version>>)
        ensures
            match candidate {
                Some(candidate) => self@ == PublicationModel::Ready(candidate@) || self@
                    == PublicationModel::Resolving(candidate@),
                None => self@ is Published,
            },
    {
        match &self.state {
            PublicationState::Open { candidate, resolving } => Some(candidate),
            PublicationState::Published(_) => None,
        }
    }

    /// The receipt, once it is published.
    pub fn receipt(&self) -> (receipt: Option<&PublicationReceipt<Version>>)
        ensures
            match receipt {
                Some(receipt) => self@ == PublicationModel::<Mutation, Payload, Version>::Published(
                    receipt@,
                ),
                None => !(self@ is Published),
            },
    {
        match &self.state {
            PublicationState::Published(receipt) => Some(receipt),
            PublicationState::Open { candidate, resolving } => None,
        }
    }

    /// Starts to publish. From here on the candidate may be stored, until the store
    /// has answered.
    pub fn begin_publish(&mut self) -> (result: Result<(), PublicationPhaseError>)
        ensures
            match result {
                Ok(_) => old(self)@ is Ready && final(self)@ == PublicationModel::Resolving(
                    old(self)@->Ready_0,
                ),
                Err(error) => {
                    &&& !(old(self)@ is Ready)
                    &&& final(self)@ == old(self)@
                    &&& error.found() == old(self)@.phase()
                    &&& error.wanted() == PublicationPhase::Ready
                },
            },
    {
        let phase = self.phase();
        if phase != PublicationPhase::Ready {
            return Err(PublicationPhaseError { phase, required: PublicationPhase::Ready });
        }
        match &mut self.state {
            PublicationState::Open { candidate, resolving } => {
                *resolving = true;
            },
            PublicationState::Published(_) => {},
        }
        Ok(())
    }

    fn reopen(&mut self)
        requires
            old(self)@ is Resolving,
        ensures
            final(self)@ == PublicationModel::Ready(old(self)@->Resolving_0),
    {
        match &mut self.state {
            PublicationState::Open { candidate, resolving } => {
                *resolving = false;
            },
            PublicationState::Published(_) => {},
        }
    }

    fn accept_receipt(&mut self, receipt: PublicationReceipt<Version>) -> (result: Result<
        PublicationReceipt<Version>,
        PublicationReceiptMismatch,
    >) where Version: Clone
        requires
            old(self)@ is Resolving,
        ensures
            match result {
                Ok(accepted) => {
                    &&& accepted == receipt
                    &&& receipt_mismatch(old(self)@->Resolving_0, receipt@) is None
                    &&& keeps_receipt(old(self)@->Resolving_0, receipt@, final(self)@)
                },
                Err(mismatch) => {
                    &&& receipt_mismatch(old(self)@->Resolving_0, receipt@) == Some(mismatch@)
                    &&& final(self)@ == after_receipt(old(self)@->Resolving_0, receipt@)
                },
            },
    {
        let checked = match &self.state {
            PublicationState::Open { candidate, resolving } => candidate.validate_receipt(&receipt),
            PublicationState::Published(_) => vstd::pervasive::unreached(),
        };
        match checked {
            Ok(_) => {
                let kept = receipt.clone();
                self.state = PublicationState::Published(kept);
                Ok(receipt)
            },
            Err(mismatch) => Err(mismatch),
        }
    }

    /// Takes the store's answer to a request to publish.
    pub fn finish_publish<E>(
        &mut self,
        outcome: Result<PublicationReceipt<Version>, PublicationWriteError<E>>,
    ) -> (result: Result<PublicationReceipt<Version>, PublicationAttemptError<E>>) where
        Version: Clone,

        requires
            old(self)@ is Resolving,
        ensures
            result is Err ==> final(self)@ == after_write(
                old(self)@->Resolving_0,
                write_model(outcome),
            ),
            match result {
                Ok(receipt) => {
                    &&& outcome == Ok::<_, PublicationWriteError<E>>(receipt)
                    &&& receipt_mismatch(old(self)@->Resolving_0, receipt@) is None
                    &&& keeps_receipt(old(self)@->Resolving_0, receipt@, final(self)@)
                },
                Err(PublicationAttemptError::Receipt(mismatch)) => outcome is Ok
                    && receipt_mismatch(old(self)@->Resolving_0, outcome->Ok_0@) == Some(mismatch@),
                Err(PublicationAttemptError::Conflict(source)) => write_model(outcome)
                    == WriteModel::<Version, E>::Conflict(source),
                Err(PublicationAttemptError::Rejected(source)) => write_model(outcome)
                    == WriteModel::<Version, E>::Rejected(source),
                Err(PublicationAttemptError::Indeterminate(source)) => write_model(outcome)
                    == WriteModel::<Version, E>::Indeterminate(source),
                Err(_) => false,
            },
    {
        match outcome {
            Ok(receipt) => match self.accept_receipt(receipt) {
                Ok(receipt) => Ok(receipt),
                Err(mismatch) => Err(PublicationAttemptError::Receipt(mismatch)),
            },
            Err(PublicationWriteError::Conflict(source)) => {
                self.reopen();
                Err(PublicationAttemptError::Conflict(source))
            },
            Err(PublicationWriteError::Rejected(source)) => {
                self.reopen();
                Err(PublicationAttemptError::Rejected(source))
            },
            Err(PublicationWriteError::Indeterminate(source)) => Err(
                PublicationAttemptError::Indeterminate(source),
            ),
        }
    }

    /// What to ask the store about a publication that may be stored.
    pub fn begin_resolve(&self) -> (result: Result<
        (PublicationRequestId, PublicationCandidateFingerprint),
        PublicationPhaseError,
    >)
        ensures
            match result {
                Ok((request_id, fingerprint)) => {
                    &&& self@ is Resolving
                    &&& request_id@ == self@->Resolving_0.request_id
                    &&& fingerprint@ == self@->Resolving_0.fingerprint
                },
                Err(error) => {
                    &&& !(self@ is Resolving)
                    &&& error.found() == self@.phase()
                    &&& error.wanted() == PublicationPhase::Resolving
                },
            },
    {
        let phase = self.phase();
        match &self.state {
            PublicationState::Open { candidate, resolving } => {
                if *resolving {
                    return Ok((candidate.request_id.clone(), candidate.fingerprint.clone()));
                }
            },
            PublicationState::Published(_) => {},
        }
        Err(PublicationPhaseError { phase, required: PublicationPhase::Resolving })
    }

    /// Takes what the store says became of the publication.
    pub fn finish_resolve<E>(
        &mut self,
        outcome: Result<PublicationResolution<Version>, PublicationResolveError<E>>,
    ) -> (result: Result<PublicationResolution<Version>, PublicationAttemptError<E>>) where
        Version: Clone,

        requires
            old(self)@ is Resolving,
        ensures
            match result {
                Ok(PublicationResolution::Published(receipt)) => {
                    &&& receipt_mismatch(old(self)@->Resolving_0, receipt@) is None
                    &&& keeps_receipt(old(self)@->Resolving_0, receipt@, final(self)@)
                },
                _ => final(self)@ == after_resolve(
                    old(self)@->Resolving_0,
                    resolve_model(outcome),
                ),
            },
            match result {
                Ok(resolution) => outcome == Ok::<_, PublicationResolveError<E>>(resolution),
                Err(PublicationAttemptError::Receipt(mismatch)) => {
                    &&& resolve_model(outcome) is Receipt
                    &&& receipt_mismatch(
                        old(self)@->Resolving_0,
                        resolve_model(outcome)->Receipt_0,
                    ) == Some(mismatch@)
                },
                Err(PublicationAttemptError::Resolve(source)) => outcome == Err::<
                    PublicationResolution<Version>,
                    PublicationResolveError<E>,
                >(source),
                Err(_) => false,
            },
    {
        match outcome {
            Ok(PublicationResolution::Published(receipt)) => match self.accept_receipt(receipt) {
                Ok(receipt) => Ok(PublicationResolution::Published(receipt)),
                Err(mismatch) => Err(PublicationAttemptError::Receipt(mismatch)),
            },
            Ok(PublicationResolution::NotCommitted) => {
                self.reopen();
                Ok(PublicationResolution::NotCommitted)
            },
            Err(PublicationResolveError::CandidateCollision(source)) => {
                self.reopen();
                Err(
                    PublicationAttemptError::Resolve(
                        PublicationResolveError::CandidateCollision(source),
                    ),
                )
            },
            Err(PublicationResolveError::Unavailable(source)) => Err(
                PublicationAttemptError::Resolve(PublicationResolveError::Unavailable(source)),
            ),
        }
    }

    /// The receipt, once it is published.
    pub fn into_receipt(self) -> (result: Result<PublicationReceipt<Version>, Self>)
        ensures
            match result {
                Ok(receipt) => self@ == PublicationModel::<Mutation, Payload, Version>::Published(
                    receipt@,
                ),
                Err(attempt) => !(self@ is Published) && attempt == self,
            },
    {
        match self.state {
            PublicationState::Published(receipt) => Ok(receipt),
            PublicationState::Open { candidate, resolving } => Err(
                Self { state: PublicationState::Open { candidate, resolving } },
            ),
        }
    }

    /// Hands the candidate back, but only where nothing of it is stored.
    pub fn into_ready_candidate(self) -> (result: Result<
        StagedPublication<Mutation, Payload, Version>,
        Self,
    >)
        ensures
            match result {
                Ok(candidate) => self@ == PublicationModel::Ready(candidate@),
                Err(attempt) => !(self@ is Ready) && attempt == self,
            },
    {
        match self.state {
            PublicationState::Open { candidate, resolving } => {
                if resolving {
                    Err(Self { state: PublicationState::Open { candidate, resolving } })
                } else {
                    Ok(candidate)
                }
            },
            PublicationState::Published(receipt) => Err(
                Self { state: PublicationState::Published(receipt) },
            ),
        }
    }
}

/// One thing that happens to a publication.
pub enum PublicationEvent<Version, E> {
    /// The host starts to publish.
    Begin,
    /// The store answers a request to publish.
    Written(WriteModel<Version, E>),
    /// The store says what became of the publication.
    Resolved(ResolveModel<Version, E>),
}

/// Where a publication stands after an event. Events that its phase does not allow
/// leave it as it is.
pub open spec fn after_event<Mutation, Payload, Version, E>(
    publication: PublicationModel<Mutation, Payload, Version>,
    event: PublicationEvent<Version, E>,
) -> PublicationModel<Mutation, Payload, Version> {
    match (publication, event) {
        (PublicationModel::Ready(candidate), PublicationEvent::Begin) => {
            PublicationModel::Resolving(candidate)
        },
        (PublicationModel::Resolving(candidate), PublicationEvent::Written(outcome)) => after_write(
            candidate,
            outcome,
        ),
        (PublicationModel::Resolving(candidate), PublicationEvent::Resolved(outcome)) => {
            after_resolve(candidate, outcome)
        },
        _ => publication,
    }
}

/// Where a publication stands after several events.
pub open spec fn after_events<Mutation, Payload, Version, E>(
    publication: PublicationModel<Mutation, Payload, Version>,
    events: Seq<PublicationEvent<Version, E>>,
) -> PublicationModel<Mutation, Payload, Version>
    decreases events.len(),
{
    if events.len() == 0 {
        publication
    } else {
        after_event(after_events(publication, events.drop_last()), events.last())
    }
}

/// Whatever the store answers, a publication holds on to its candidate until it is
/// published, and then only a receipt for that candidate published it.
pub proof fn law_candidate_is_kept_until_its_receipt<Mutation, Payload, Version, E>(
    candidate: CandidateModel<Mutation, Payload, Version>,
    events: Seq<PublicationEvent<Version, E>>,
)
    ensures
        match after_events(PublicationModel::Ready(candidate), events) {
            PublicationModel::Ready(kept) => kept == candidate,
            PublicationModel::Resolving(kept) => kept == candidate,
            PublicationModel::Published(receipt) => receipt_mismatch(candidate, receipt) is None,
        },
    decreases events.len(),
{
    if events.len() > 0 {
        law_candidate_is_kept_until_its_receipt(candidate, events.drop_last());
    }
}

/// A published turn stays published, under the same receipt.
pub proof fn law_published_is_final<Mutation, Payload, Version, E>(
    receipt: ReceiptModel<Version>,
    events: Seq<PublicationEvent<Version, E>>,
)
    ensures
        after_events(
            PublicationModel::<Mutation, Payload, Version>::Published(receipt),
            events,
        ) == PublicationModel::<Mutation, Payload, Version>::Published(receipt),
    decreases events.len(),
{
    if events.len() > 0 {
        law_published_is_final::<Mutation, Payload, Version, E>(receipt, events.drop_last());
    }
}

/// A publication whose outcome is not known cannot be tried again before the store has
/// said that nothing of it was committed, or that its request id belongs to another
/// candidate.
pub proof fn law_unknown_outcomes_are_resolved_first<Mutation, Payload, Version, E>(
    candidate: CandidateModel<Mutation, Payload, Version>,
    event: PublicationEvent<Version, E>,
)
    ensures
        after_event(PublicationModel::Resolving(candidate), event) is Ready ==> (event matches
            PublicationEvent::Written(outcome) && (outcome is Conflict || outcome is Rejected)) || (
        event matches PublicationEvent::Resolved(outcome) && (outcome is NotCommitted
            || outcome is CandidateCollision)),
{
}

} // verus!
