use std::collections::HashMap;
use std::convert::Infallible;

use sha2::Digest;

use agentview::component::channels::TurnChannels;
use agentview::component::durable_keys::{
    DurableCallId, DurableCallInputId, DurableCallLeaseId, DurableEpochId, DurableSessionId,
    EpochContractId, PublicationCandidateFingerprint, PublicationId, PublicationRequestId,
};
use agentview::component::identity::{
    HarnessEpochId, LiveScopeId, ProviderAttemptId, ProviderAttemptIdentity, TurnInstanceId,
};
use agentview::component::operation::{key_of_digest, ProviderOperationIdentity};
use agentview::component::publication::{
    stage_commit_outbox, CommitContract, CommitStager, CommitStagingContext, OutboxItemId,
    PreparedSessionMutation, PublicationAttempt, PublicationAttemptError,
    PublicationCandidateError, PublicationPhase, PublicationReceipt, PublicationReceiptMismatch,
    PublicationRequest, PublicationRequestContext, PublicationResolution, PublicationResolveError,
    PublicationWriteError, StagedCommit, StagedOutbox, StagedPublication,
};
use agentview::component::tools::ProviderToolResult;

struct TestChannels;

impl TurnChannels for TestChannels {
    type Output = ();
    type Live = ();
    type Commit = u32;
    type Diagnostic = ();
}

struct NumberStager;

impl CommitStager<TestChannels> for NumberStager {
    type Payload = String;
    type Error = Infallible;

    fn stage(
        &self,
        context: CommitStagingContext<'_>,
        commit: &u32,
    ) -> Result<StagedCommit<String>, Infallible> {
        Ok(StagedCommit::new(
            CommitContract::new("test.number", 1).unwrap(),
            format!("{}={commit}", context.item_id().label()),
        ))
    }
}

fn attempt_identity(number: u64) -> ProviderAttemptIdentity {
    ProviderAttemptIdentity::new(
        HarnessEpochId::new(1),
        TurnInstanceId::new(1),
        ProviderAttemptId::new(number),
        LiveScopeId::new(number),
        "publication-test",
    )
}

fn test_canonical_fingerprint(
    expected_revision: u64,
    mutation: &PreparedSessionMutation<String>,
    raw_output: &str,
    provider_results: &[ProviderToolResult],
    outbox: &StagedOutbox<String>,
) -> PublicationCandidateFingerprint {
    let provider_results = provider_results
        .iter()
        .map(|result| {
            format!(
                "{{invocation_id={:?},correlation_id={:?},name={:?},response={:?}}}",
                result.invocation_id(),
                result.result_correlation_id(),
                result.name(),
                result.response(),
            )
        })
        .collect::<Vec<_>>()
        .join(",");
    let outbox = outbox
        .items()
        .iter()
        .map(|item| {
            format!(
                "{{index={},contract_key={:?},contract_schema_version={},payload={:?}}}",
                item.id().index(),
                item.contract().key(),
                item.contract().schema_version(),
                item.payload(),
            )
        })
        .collect::<Vec<_>>()
        .join(",");
    PublicationCandidateFingerprint::new(&format!(
        "v1|expected_revision={expected_revision}|mutation={:?}|raw_output={raw_output:?}|provider_results=[{provider_results}]|outbox=[{outbox}]",
        mutation.value(),
    ))
    .unwrap()
}

fn numbered_candidate_with(
    number: u64,
    request: &str,
    revision: u64,
    mutation: &str,
    raw_output: &str,
    commits: &[u32],
) -> StagedPublication<String, String, u64> {
    let request_id = PublicationRequestId::new(request).unwrap();
    let outbox = stage_commit_outbox::<TestChannels, NumberStager>(
        request_id.clone(),
        &commits.to_vec(),
        &NumberStager,
    )
    .unwrap();
    let mutation = PreparedSessionMutation::new(mutation.to_owned());
    let provider_results = Vec::new();
    let fingerprint =
        test_canonical_fingerprint(revision, &mutation, raw_output, &provider_results, &outbox);
    StagedPublication::new(
        request_id,
        fingerprint,
        revision,
        mutation,
        attempt_identity(number),
        raw_output,
        provider_results,
        outbox,
    )
    .unwrap()
}

fn candidate_with(
    request: &str,
    revision: u64,
    mutation: &str,
    raw_output: &str,
    commits: &[u32],
) -> StagedPublication<String, String, u64> {
    numbered_candidate_with(1, request, revision, mutation, raw_output, commits)
}

fn candidate(
    request: &str,
    revision: u64,
    commits: &[u32],
) -> StagedPublication<String, String, u64> {
    candidate_with(
        request,
        revision,
        "next-session",
        "assistant output",
        commits,
    )
}

#[test]
fn staging_preserves_order_contract_and_stable_item_ids() {
    let candidate = candidate("request-a", 4, &[7, 9]);
    let items = candidate.outbox().items();
    assert_eq!(items.len(), 2);
    assert_eq!(items[0].id().request_id().as_str(), "request-a");
    assert_eq!(items[0].id().index(), 0);
    assert_eq!(items[1].id().index(), 1);
    assert_eq!(items[0].contract().key(), "test.number");
    assert_eq!(items[0].contract().schema_version(), 1);
    assert_eq!(items[0].payload(), "request-a:0=7");
    assert_eq!(items[1].payload(), "request-a:1=9");
}

#[derive(Debug, Clone, PartialEq, Eq)]
enum StoreFailure {
    Scripted,
    FingerprintCollision,
}

#[derive(Clone, Copy)]
enum PublishBehavior {
    Commit,
    Reject,
    CommitThenIndeterminate,
}

struct StoredRecord {
    receipt: PublicationReceipt<u64>,
    mutation: String,
    payloads: Vec<String>,
}

struct MemoryStore {
    behavior: PublishBehavior,
    records: HashMap<String, StoredRecord>,
    publish_calls: usize,
}

impl MemoryStore {
    fn new(behavior: PublishBehavior) -> Self {
        Self {
            behavior,
            records: HashMap::new(),
            publish_calls: 0,
        }
    }

    fn publish(
        &mut self,
        request: PublicationRequest<'_, String, String, u64>,
    ) -> Result<PublicationReceipt<u64>, PublicationWriteError<StoreFailure>> {
        self.publish_calls += 1;
        if matches!(self.behavior, PublishBehavior::Reject) {
            return Err(PublicationWriteError::Rejected(StoreFailure::Scripted));
        }
        let key = request.request_id().as_str().to_owned();
        let receipt = if let Some(record) = self.records.get(&key) {
            if record.receipt.fingerprint() != request.fingerprint() {
                return Err(PublicationWriteError::Rejected(
                    StoreFailure::FingerprintCollision,
                ));
            }
            record.receipt.clone()
        } else {
            let next_revision = request.expected_revision() + 1;
            let receipt = PublicationReceipt::new(
                request.request_id().clone(),
                request.fingerprint().clone(),
                PublicationId::new(&format!("publication-{next_revision}")).unwrap(),
                next_revision,
                u64::try_from(request.outbox().len()).unwrap(),
            );
            self.records.insert(
                key,
                StoredRecord {
                    receipt: receipt.clone(),
                    mutation: request.mutation().value().clone(),
                    payloads: request
                        .outbox()
                        .items()
                        .iter()
                        .map(|item| item.payload().clone())
                        .collect(),
                },
            );
            receipt
        };
        if matches!(self.behavior, PublishBehavior::CommitThenIndeterminate) {
            Err(PublicationWriteError::Indeterminate(StoreFailure::Scripted))
        } else {
            Ok(receipt)
        }
    }

    fn resolve(
        &self,
        request_id: &PublicationRequestId,
        fingerprint: &PublicationCandidateFingerprint,
    ) -> Result<PublicationResolution<u64>, PublicationResolveError<StoreFailure>> {
        match self.records.get(request_id.as_str()) {
            Some(record) if record.receipt.fingerprint() == fingerprint => {
                Ok(PublicationResolution::Published(record.receipt.clone()))
            }
            Some(_) => Err(PublicationResolveError::CandidateCollision(
                StoreFailure::FingerprintCollision,
            )),
            None => Ok(PublicationResolution::NotCommitted),
        }
    }
}

type Attempt = PublicationAttempt<String, String, u64>;

fn publish(
    publication: &mut Attempt,
    store: &mut MemoryStore,
) -> Result<PublicationReceipt<u64>, PublicationAttemptError<StoreFailure>> {
    publication
        .begin_publish()
        .map_err(PublicationAttemptError::Phase)?;
    let outcome = store.publish(publication.candidate().unwrap().as_request());
    publication.finish_publish(outcome)
}

fn resolve(
    publication: &mut Attempt,
    store: &MemoryStore,
) -> Result<PublicationResolution<u64>, PublicationAttemptError<StoreFailure>> {
    let (request_id, fingerprint) = publication
        .begin_resolve()
        .map_err(PublicationAttemptError::Phase)?;
    publication.finish_resolve(store.resolve(&request_id, &fingerprint))
}

#[test]
fn indeterminate_commit_resolves_without_republishing_session_or_outbox() {
    let mut store = MemoryStore::new(PublishBehavior::CommitThenIndeterminate);
    let mut publication = PublicationAttempt::new(candidate("request-b", 10, &[3, 5]));

    let error = publish(&mut publication, &mut store).unwrap_err();
    assert!(matches!(error, PublicationAttemptError::Indeterminate(_)));
    assert_eq!(publication.phase(), PublicationPhase::Resolving);
    assert_eq!(store.publish_calls, 1);

    let resolution = resolve(&mut publication, &store).unwrap();
    let PublicationResolution::Published(receipt) = resolution else {
        panic!("committed request must resolve as published");
    };
    assert_eq!(publication.receipt(), Some(&receipt));
    assert_eq!(receipt.session_revision(), &11);
    assert_eq!(receipt.outbox_count(), 2);
    assert_eq!(publication.phase(), PublicationPhase::Published);
    assert_eq!(store.publish_calls, 1);

    let record = store.records.get("request-b").unwrap();
    assert_eq!(record.mutation, "next-session");
    assert_eq!(record.payloads, ["request-b:0=3", "request-b:1=5"]);
}

#[test]
fn same_request_and_fingerprint_reuses_one_session_and_outbox_record() {
    let mut store = MemoryStore::new(PublishBehavior::Commit);
    let mut first = PublicationAttempt::new(candidate("request-idempotent", 4, &[7, 9]));
    let first_attempt = first.candidate().unwrap().attempt().clone();
    let first_fingerprint = first.candidate().unwrap().fingerprint().clone();
    let first_receipt = publish(&mut first, &mut store).unwrap();

    let mut retry = PublicationAttempt::new(numbered_candidate_with(
        2,
        "request-idempotent",
        4,
        "next-session",
        "assistant output",
        &[7, 9],
    ));
    assert_ne!(retry.candidate().unwrap().attempt(), &first_attempt);
    assert_eq!(retry.candidate().unwrap().fingerprint(), &first_fingerprint);
    let retry_receipt = publish(&mut retry, &mut store).unwrap();

    assert_eq!(retry_receipt, first_receipt);
    assert_eq!(store.publish_calls, 2);
    assert_eq!(store.records.len(), 1);
    let record = store.records.get("request-idempotent").unwrap();
    assert_eq!(record.mutation, "next-session");
    assert_eq!(
        record.payloads,
        ["request-idempotent:0=7", "request-idempotent:1=9"]
    );
}

#[test]
fn same_request_with_different_fingerprint_is_rejected_without_overwrite() {
    let mut store = MemoryStore::new(PublishBehavior::Commit);
    let mut first = PublicationAttempt::new(candidate_with(
        "request-collision",
        4,
        "first-session",
        "first output",
        &[7],
    ));
    publish(&mut first, &mut store).unwrap();

    let mut collision = PublicationAttempt::new(candidate_with(
        "request-collision",
        4,
        "second-session",
        "second output",
        &[9],
    ));
    let error = publish(&mut collision, &mut store).unwrap_err();
    assert!(matches!(
        error,
        PublicationAttemptError::Rejected(StoreFailure::FingerprintCollision)
    ));
    assert_eq!(collision.phase(), PublicationPhase::Ready);

    let record = store.records.get("request-collision").unwrap();
    assert_eq!(record.mutation, "first-session");
    assert_eq!(record.payloads, ["request-collision:0=7"]);
}

#[test]
fn resolve_rejects_a_request_id_collision_instead_of_reusing_a_receipt() {
    let mut store = MemoryStore::new(PublishBehavior::Commit);
    let mut first = PublicationAttempt::new(candidate("request-resolve-collision", 4, &[7]));
    publish(&mut first, &mut store).unwrap();

    let different = candidate("request-resolve-collision", 4, &[9]);
    let error = store
        .resolve(different.request_id(), different.fingerprint())
        .unwrap_err();
    assert_eq!(
        error,
        PublicationResolveError::CandidateCollision(StoreFailure::FingerprintCollision)
    );
}

#[test]
fn resolve_collision_returns_candidate_to_ready_for_terminal_abort() {
    let mut publication = PublicationAttempt::new(candidate("request-collision-ready", 4, &[7]));
    publication.begin_publish().unwrap();
    assert!(matches!(
        publication.finish_publish(Err(PublicationWriteError::Indeterminate(
            StoreFailure::Scripted
        ))),
        Err(PublicationAttemptError::Indeterminate(_))
    ));

    publication.begin_resolve().unwrap();
    let error = publication
        .finish_resolve(Err(PublicationResolveError::CandidateCollision(
            StoreFailure::FingerprintCollision,
        )))
        .unwrap_err();
    assert!(matches!(
        error,
        PublicationAttemptError::Resolve(PublicationResolveError::CandidateCollision(
            StoreFailure::FingerprintCollision
        ))
    ));
    assert_eq!(publication.phase(), PublicationPhase::Ready);
}

#[test]
fn known_rejection_returns_to_ready_and_retries_same_candidate() {
    let mut store = MemoryStore::new(PublishBehavior::Reject);
    let mut publication = PublicationAttempt::new(candidate("request-c", 2, &[8]));

    let error = publish(&mut publication, &mut store).unwrap_err();
    assert!(matches!(error, PublicationAttemptError::Rejected(_)));
    assert_eq!(publication.phase(), PublicationPhase::Ready);
    assert_eq!(
        publication.candidate().unwrap().request_id().as_str(),
        "request-c"
    );

    store.behavior = PublishBehavior::Commit;
    let receipt = publish(&mut publication, &mut store).unwrap();
    assert_eq!(receipt.request_id().as_str(), "request-c");
    assert_eq!(publication.phase(), PublicationPhase::Published);
    assert_eq!(store.publish_calls, 2);
}

#[test]
fn receipt_with_a_different_fingerprint_is_rejected() {
    let mut publication = PublicationAttempt::new(candidate("request-bad-receipt", 1, &[3]));
    publication.begin_publish().unwrap();
    let request = publication.candidate().unwrap().as_request();
    let receipt = PublicationReceipt::new(
        request.request_id().clone(),
        PublicationCandidateFingerprint::new("wrong-fingerprint").unwrap(),
        PublicationId::new("wrong-fingerprint-publication").unwrap(),
        request.expected_revision() + 1,
        u64::try_from(request.outbox().len()).unwrap(),
    );

    let error = publication
        .finish_publish::<Infallible>(Ok(receipt))
        .unwrap_err();
    assert!(matches!(
        error,
        PublicationAttemptError::Receipt(PublicationReceiptMismatch::Fingerprint { .. })
    ));
    assert_eq!(publication.phase(), PublicationPhase::Resolving);
}

#[test]
fn cancelling_publish_waiter_leaves_attempt_in_resolving_phase() {
    let mut publication = PublicationAttempt::new(candidate("request-d", 1, &[]));
    publication.begin_publish().unwrap();
    // The store's answer never arrives.
    assert_eq!(publication.phase(), PublicationPhase::Resolving);
    publication.begin_resolve().unwrap();
    assert!(matches!(
        publication
            .finish_resolve::<StoreFailure>(Ok(PublicationResolution::NotCommitted))
            .unwrap(),
        PublicationResolution::NotCommitted
    ));
    assert_eq!(publication.phase(), PublicationPhase::Ready);
}

#[test]
fn durable_identity_contracts_reject_empty_and_control_character_keys() {
    for invalid in ["", "line\nbreak", "carriage\rreturn"] {
        assert!(DurableSessionId::new(invalid).is_err());
        assert!(DurableEpochId::new(invalid).is_err());
        assert!(DurableCallId::new(invalid).is_err());
        assert!(DurableCallInputId::new(invalid).is_err());
        assert!(EpochContractId::new(invalid).is_err());
        assert!(PublicationRequestId::new(invalid).is_err());
    }

    let session_id = DurableSessionId::new("forgotten-city/session-42").unwrap();
    let epoch_id = DurableEpochId::new("forgotten-city/session-42/epoch-1").unwrap();
    let epoch_contract_id = EpochContractId::new("player/v3").unwrap();
    let call_id = DurableCallId::new("request-9").unwrap();
    let context = PublicationRequestContext::new(&session_id, &epoch_contract_id, &call_id, 7);

    assert_eq!(context.session_id(), &session_id);
    assert_eq!(epoch_id.as_str(), "forgotten-city/session-42/epoch-1");
    assert_eq!(context.epoch_contract_id(), &epoch_contract_id);
    assert_eq!(context.call_id(), &call_id);
    assert_eq!(context.turn_index(), 7);
}

fn operation(
    session: &str,
    epoch: &str,
    call: &str,
    input: &str,
    turn: u64,
    request: &str,
) -> ProviderOperationIdentity {
    ProviderOperationIdentity::new(
        DurableSessionId::new(session).unwrap(),
        DurableEpochId::new(epoch).unwrap(),
        DurableCallId::new(call).unwrap(),
        DurableCallInputId::new(input).unwrap(),
        turn,
        PublicationRequestId::new(request).unwrap(),
    )
}

#[test]
fn remote_provider_idempotency_key_scopes_the_complete_durable_operation() {
    let base = operation("session-a", "epoch-a", "call-a", "input-a", 3, "request-a");
    let same_operation = operation("session-a", "epoch-a", "call-a", "input-a", 3, "request-a");

    let key = base.remote_idempotency_key();
    assert!(key.starts_with("agentview.provider-operation.v1:"));
    assert_eq!(key, same_operation.remote_idempotency_key());
    assert_eq!(base.publication_request_id(), "request-a");
    assert_ne!(
        key,
        operation("session-b", "epoch-a", "call-a", "input-a", 3, "request-a")
            .remote_idempotency_key()
    );
    assert_ne!(
        key,
        operation("session-a", "epoch-b", "call-a", "input-a", 3, "request-a")
            .remote_idempotency_key()
    );
    assert_ne!(
        key,
        operation("session-a", "epoch-a", "call-b", "input-a", 3, "request-a")
            .remote_idempotency_key()
    );
    assert_ne!(
        key,
        operation("session-a", "epoch-a", "call-a", "input-b", 3, "request-a")
            .remote_idempotency_key()
    );
    assert_ne!(
        key,
        operation("session-a", "epoch-a", "call-a", "input-a", 4, "request-a")
            .remote_idempotency_key()
    );
    assert_ne!(
        key,
        operation("session-a", "epoch-a", "call-a", "input-a", 3, "request-b")
            .remote_idempotency_key()
    );
}

#[test]
fn idempotency_keys_hash_the_framed_parts() {
    let base = operation("session-a", "epoch-a", "call-a", "input-a", 3, "request-a");
    let mut bytes = b"agentview.provider-operation.v1\0".to_vec();
    for part in ["session-a", "epoch-a", "call-a", "input-a"] {
        bytes.extend((part.len() as u64).to_be_bytes());
        bytes.extend(part.as_bytes());
    }
    bytes.extend(3u64.to_be_bytes());
    bytes.extend(9u64.to_be_bytes());
    bytes.extend(b"request-a");
    let digest = sha2::Sha256::digest(&bytes);
    let digits = digest
        .iter()
        .map(|byte| format!("{byte:02x}"))
        .collect::<Vec<_>>()
        .join("");
    assert_eq!(
        base.remote_idempotency_key(),
        format!("agentview.provider-operation.v1:{digits}")
    );
    assert_eq!(base.remote_idempotency_key().len(), 32 + 64);
    assert!(base
        .remote_idempotency_key()
        .chars()
        .skip(32)
        .all(|digit| digit.is_ascii_digit() || ('a'..='f').contains(&digit)));
}

#[test]
fn digests_are_written_as_keys() {
    let mut digest = [0u8; 32];
    digest[0] = 0x0f;
    digest[1] = 0xa9;
    digest[31] = 0xff;
    let key = key_of_digest(&digest);
    assert_eq!(
        key,
        format!("agentview.provider-operation.v1:0fa9{}ff", "00".repeat(29))
    );
    let mut other = digest;
    other[30] = 1;
    assert_ne!(key_of_digest(&other), key);

    let message = operation("s", "e", "c", "i", 0x0102, "r").message();
    let mut expected = b"agentview.provider-operation.v1\0".to_vec();
    for part in [b"s", b"e", b"c", b"i"] {
        expected.extend([0, 0, 0, 0, 0, 0, 0, 1]);
        expected.extend(part);
    }
    expected.extend([0, 0, 0, 0, 0, 0, 1, 2]);
    expected.extend([0, 0, 0, 0, 0, 0, 0, 1]);
    expected.extend(b"r");
    assert_eq!(message, expected);
}

#[test]
fn parts_of_an_operation_do_not_run_into_each_other() {
    let one = operation("ab", "c", "call", "input", 0, "request");
    let other = operation("a", "bc", "call", "input", 0, "request");
    assert_ne!(one.remote_idempotency_key(), other.remote_idempotency_key());
}

#[test]
fn invalid_candidate_rejects_mixed_request_ids() {
    let outbox = stage_commit_outbox::<TestChannels, NumberStager>(
        PublicationRequestId::new("outbox-id").unwrap(),
        &vec![1],
        &NumberStager,
    )
    .unwrap();
    let error = StagedPublication::new(
        PublicationRequestId::new("publication-id").unwrap(),
        PublicationCandidateFingerprint::new("test-invalid-candidate").unwrap(),
        0_u64,
        PreparedSessionMutation::new(()),
        attempt_identity(1),
        "",
        Vec::new(),
        outbox,
    )
    .unwrap_err();
    assert!(matches!(
        error,
        PublicationCandidateError::OutboxRequestMismatch { .. }
    ));
}

#[test]
fn a_bad_key_names_its_kind() {
    let error = DurableCallLeaseId::new("tab\there").unwrap_err();
    assert_eq!(error.kind(), "durable call lease id");
    assert_eq!(error.value(), "tab\there");
    assert_eq!(
        error.message(),
        "invalid durable call lease id `tab\there`; the value must be non-empty and contain no control characters"
    );
    let error = CommitContract::new("", 1).unwrap_err();
    assert_eq!(error.kind(), "commit contract key");
}

#[test]
fn an_outbox_item_is_labelled_by_request_and_number() {
    let id = OutboxItemId::new(PublicationRequestId::new("request-z").unwrap(), 120);
    assert_eq!(id.label(), "request-z:120");
}

struct RefusingStager;

impl CommitStager<TestChannels> for RefusingStager {
    type Payload = u32;
    type Error = String;

    fn stage(
        &self,
        context: CommitStagingContext<'_>,
        commit: &u32,
    ) -> Result<StagedCommit<u32>, String> {
        if *commit > 10 {
            return Err(format!("{} is too much", context.item_id().label()));
        }
        Ok(StagedCommit::new(
            CommitContract::new("test.small", 2).unwrap(),
            *commit,
        ))
    }
}

#[test]
fn the_first_refused_commit_ends_the_staging() {
    let failure = stage_commit_outbox::<TestChannels, RefusingStager>(
        PublicationRequestId::new("request-e").unwrap(),
        &vec![1, 20, 30],
        &RefusingStager,
    )
    .unwrap_err();
    assert_eq!(failure.item_id().index(), 1);
    assert_eq!(failure.source_error(), "request-e:1 is too much");
}

#[test]
fn receipts_must_match_request_and_count() {
    let candidate = candidate("request-f", 1, &[3]);
    let wrong_request: PublicationReceipt<u64> = PublicationReceipt::new(
        PublicationRequestId::new("request-g").unwrap(),
        candidate.fingerprint().clone(),
        PublicationId::new("p").unwrap(),
        2,
        1,
    );
    assert!(matches!(
        candidate.validate_receipt(&wrong_request),
        Err(PublicationReceiptMismatch::RequestId { .. })
    ));
    let wrong_count = PublicationReceipt::new(
        candidate.request_id().clone(),
        candidate.fingerprint().clone(),
        PublicationId::new("p").unwrap(),
        2,
        5,
    );
    assert!(matches!(
        candidate.validate_receipt(&wrong_count),
        Err(PublicationReceiptMismatch::OutboxCount {
            expected: 1,
            actual: 5
        })
    ));
}

#[test]
fn steps_out_of_phase_are_refused() {
    let mut publication = PublicationAttempt::new(candidate("request-h", 1, &[]));
    let error = publication.begin_resolve().unwrap_err();
    assert_eq!(error.phase(), PublicationPhase::Ready);
    assert_eq!(error.required(), PublicationPhase::Resolving);
    publication.begin_publish().unwrap();
    let error = publication.begin_publish().unwrap_err();
    assert_eq!(error.phase(), PublicationPhase::Resolving);
    assert_eq!(error.required(), PublicationPhase::Ready);
    assert!(publication.into_ready_candidate().is_err());
}

#[test]
fn a_conflict_leaves_the_candidate_ready() {
    let mut publication = PublicationAttempt::new(candidate("request-i", 1, &[]));
    publication.begin_publish().unwrap();
    assert!(matches!(
        publication.finish_publish(Err(PublicationWriteError::Conflict(StoreFailure::Scripted))),
        Err(PublicationAttemptError::Conflict(StoreFailure::Scripted))
    ));
    let candidate = publication.into_ready_candidate().ok().unwrap();
    let plan = candidate.into_staging_plan();
    assert_eq!(plan.request_id().as_str(), "request-i");
    assert_eq!(plan.expected_revision(), &1);
}

#[test]
fn an_unavailable_store_leaves_the_publication_open() {
    let mut publication = PublicationAttempt::new(candidate("request-j", 1, &[]));
    publication.begin_publish().unwrap();
    assert!(publication
        .finish_resolve(Err(PublicationResolveError::Unavailable(
            StoreFailure::Scripted
        )))
        .is_err());
    assert_eq!(publication.phase(), PublicationPhase::Resolving);
}
