use std::convert::Infallible;

use agentview::component::durable_keys::{
    DurableCallId, DurableCallInputId, DurableEpochId, DurableSessionId, PublicationRequestId,
};
use agentview::component::operation::ProviderOperationIdentity;
use agentview::component::stateful_provider::{
    begin_phase, finish_phase, AdapterPhase, ProviderSessionAttachRequest,
    ProviderSessionAttachment, ProviderSessionRehydrateRequest,
    StatefulMountedProviderAdapterError,
};

#[test]
fn missing_provider_operation_is_rejected_before_context_preparation() {
    let result = begin_phase::<Infallible>(AdapterPhase::ContextPreparation, None);

    assert!(matches!(
        result,
        Err(
            StatefulMountedProviderAdapterError::MissingProviderOperation {
                phase: "context preparation"
            }
        )
    ));
}

fn operation_identity() -> ProviderOperationIdentity {
    ProviderOperationIdentity::new(
        DurableSessionId::new("stateful-provider-control-session").unwrap(),
        DurableEpochId::new("stateful-provider-control-epoch").unwrap(),
        DurableCallId::new("stateful-provider-control-call").unwrap(),
        DurableCallInputId::new("stateful-provider-control-input").unwrap(),
        3,
        PublicationRequestId::new("stateful-provider-control-request").unwrap(),
    )
}

#[derive(Debug, PartialEq)]
enum Status {
    NeverAccepted,
    Cancelled,
}

#[test]
fn stateful_adapter_delegates_pom_free_operation_control() {
    let operation = operation_identity();
    begin_phase::<Infallible>(AdapterPhase::OperationInspection, Some(&operation))
        .ok()
        .unwrap();
    let inspected: Result<Status, Infallible> = Ok(Status::NeverAccepted);
    assert_eq!(
        finish_phase(AdapterPhase::OperationInspection, inspected)
            .ok()
            .unwrap(),
        Status::NeverAccepted
    );
    begin_phase::<Infallible>(AdapterPhase::OperationCancellation, Some(&operation))
        .ok()
        .unwrap();
    let cancelled: Result<Status, Infallible> = Ok(Status::Cancelled);
    assert_eq!(
        finish_phase(AdapterPhase::OperationCancellation, cancelled)
            .ok()
            .unwrap(),
        Status::Cancelled
    );
}

#[test]
fn failures_are_reported_with_their_phase() {
    let failed: Result<(), &str> = Err("down");
    assert!(matches!(
        finish_phase(AdapterPhase::EpochAttach, failed),
        Err(StatefulMountedProviderAdapterError::Phase {
            phase: "epoch attach",
            source: "down"
        })
    ));
}

#[test]
fn requests_carry_what_they_are_made_of() {
    let epoch = DurableEpochId::new("epoch").unwrap();
    let tools = ["a", "b"];
    let attach = ProviderSessionAttachRequest::new(&epoch, &7u8, "rules", &tools);
    assert_eq!(attach.durable_epoch_id(), &epoch);
    assert_eq!(attach.artifact_fingerprint(), &7);
    assert_eq!(attach.system(), "rules");
    assert_eq!(attach.tools(), &tools);
    let rehydrate = ProviderSessionRehydrateRequest::new(&epoch, &7u8, &"receipt", Some(&9u8));
    assert_eq!(rehydrate.receipt(), &"receipt");
    assert_eq!(rehydrate.cursor(), Some(&9));
    assert_eq!(
        ProviderSessionAttachment::new("session", "receipt").into_parts(),
        ("session", "receipt")
    );
}
