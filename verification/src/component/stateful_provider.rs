//! Providers that keep sessions: what they are attached with, and what each phase of
//! their work needs.

use vstd::prelude::*;
use crate::component::durable_keys::DurableEpochId;
use crate::component::operation::ProviderOperationIdentity;

verus! {

/// What a provider session is attached for. `F` is the fingerprint of the epoch's
/// artifact, `T` describes a tool.
pub struct ProviderSessionAttachRequest<'a, F, T> {
    pub(crate) durable_epoch_id: &'a DurableEpochId,
    pub(crate) artifact_fingerprint: &'a F,
    pub(crate) system: &'a str,
    pub(crate) tools: &'a [T],
}

/// Model of [`ProviderSessionAttachRequest`].
pub struct AttachRequestModel<F, T> {
    pub durable_epoch_id: Seq<char>,
    pub artifact_fingerprint: F,
    pub system: Seq<char>,
    pub tools: Seq<T>,
}

impl<'a, F, T> View for ProviderSessionAttachRequest<'a, F, T> {
    type V = AttachRequestModel<F, T>;

    open(crate) spec fn view(&self) -> AttachRequestModel<F, T> {
        AttachRequestModel {
            durable_epoch_id: self.durable_epoch_id@,
            artifact_fingerprint: *self.artifact_fingerprint,
            system: self.system@,
            tools: self.tools@,
        }
    }
}

impl<'a, F, T> ProviderSessionAttachRequest<'a, F, T> {
    pub fn new(
        durable_epoch_id: &'a DurableEpochId,
        artifact_fingerprint: &'a F,
        system: &'a str,
        tools: &'a [T],
    ) -> (request: Self)
        ensures
            request@ == (AttachRequestModel {
                durable_epoch_id: durable_epoch_id@,
                artifact_fingerprint: *artifact_fingerprint,
                system: system@,
                tools: tools@,
            }),
    {
        Self { durable_epoch_id, artifact_fingerprint, system, tools }
    }

    pub fn durable_epoch_id(&self) -> (id: &'a DurableEpochId)
        ensures
            id@ == self@.durable_epoch_id,
    {
        self.durable_epoch_id
    }

    pub fn artifact_fingerprint(&self) -> (fingerprint: &'a F)
        ensures
            *fingerprint == self@.artifact_fingerprint,
    {
        self.artifact_fingerprint
    }

    pub fn system(&self) -> (text: &'a str)
        ensures
            text@ == self@.system,
    {
        self.system
    }

    pub fn tools(&self) -> (tools: &'a [T])
        ensures
            tools@ == self@.tools,
    {
        self.tools
    }
}

/// What a provider session is brought back for. `R` is the receipt of its attachment,
/// `U` where its turns had come to.
pub struct ProviderSessionRehydrateRequest<'a, F, R, U> {
    pub(crate) durable_epoch_id: &'a DurableEpochId,
    pub(crate) artifact_fingerprint: &'a F,
    pub(crate) receipt: &'a R,
    pub(crate) cursor: Option<&'a U>,
}

/// Model of [`ProviderSessionRehydrateRequest`].
pub struct RehydrateRequestModel<F, R, U> {
    pub durable_epoch_id: Seq<char>,
    pub artifact_fingerprint: F,
    pub receipt: R,
    pub cursor: Option<U>,
}

/// An optional value behind a reference.
pub open spec fn dereferenced<U>(value: Option<&U>) -> Option<U> {
    match value {
        Some(value) => Some(*value),
        None => None,
    }
}

impl<'a, F, R, U> View for ProviderSessionRehydrateRequest<'a, F, R, U> {
    type V = RehydrateRequestModel<F, R, U>;

    open(crate) spec fn view(&self) -> RehydrateRequestModel<F, R, U> {
        RehydrateRequestModel {
            durable_epoch_id: self.durable_epoch_id@,
            artifact_fingerprint: *self.artifact_fingerprint,
            receipt: *self.receipt,
            cursor: dereferenced(self.cursor),
        }
    }
}

impl<'a, F, R, U> ProviderSessionRehydrateRequest<'a, F, R, U> {
    pub fn new(
        durable_epoch_id: &'a DurableEpochId,
        artifact_fingerprint: &'a F,
        receipt: &'a R,
        cursor: Option<&'a U>,
    ) -> (request: Self)
        ensures
            request@ == (RehydrateRequestModel {
                durable_epoch_id: durable_epoch_id@,
                artifact_fingerprint: *artifact_fingerprint,
                receipt: *receipt,
                cursor: dereferenced(cursor),
            }),
    {
        Self { durable_epoch_id, artifact_fingerprint, receipt, cursor }
    }

    pub fn durable_epoch_id(&self) -> (id: &'a DurableEpochId)
        ensures
            id@ == self@.durable_epoch_id,
    {
        self.durable_epoch_id
    }

    pub fn artifact_fingerprint(&self) -> (fingerprint: &'a F)
        ensures
            *fingerprint == self@.artifact_fingerprint,
    {
        self.artifact_fingerprint
    }

    pub fn receipt(&self) -> (receipt: &'a R)
        ensures
            *receipt == self@.receipt,
    {
        self.receipt
    }

    pub fn cursor(&self) -> (cursor: Option<&'a U>)
        ensures
            dereferenced(cursor) == self@.cursor,
    {
        self.cursor
    }
}

/// An attached session and the receipt it can be brought back by.
pub struct ProviderSessionAttachment<Session, Receipt> {
    pub(crate) session: Session,
    pub(crate) receipt: Receipt,
}

impl<Session, Receipt> ProviderSessionAttachment<Session, Receipt> {
    /// The session and the receipt.
    pub open(crate) spec fn parts(self) -> (Session, Receipt) {
        (self.session, self.receipt)
    }

    pub fn new(session: Session, receipt: Receipt) -> (attachment: Self)
        ensures
            attachment.parts() == (session, receipt),
    {
        Self { session, receipt }
    }

    pub fn into_parts(self) -> (parts: (Session, Receipt))
        ensures
            parts == self.parts(),
    {
        (self.session, self.receipt)
    }
}

/// What a provider is asked to do.
#[derive(Debug, Clone, Copy, PartialEq, Eq, Structural)]
pub enum AdapterPhase {
    ContextPreparation,
    Execution,
    EpochAttach,
    EpochRehydrate,
    OperationInspection,
    OperationCancellation,
}

/// The name of a phase.
pub open spec fn adapter_phase_name(phase: AdapterPhase) -> Seq<char> {
    match phase {
        AdapterPhase::ContextPreparation => "context preparation"@,
        AdapterPhase::Execution => "execution"@,
        AdapterPhase::EpochAttach => "epoch attach"@,
        AdapterPhase::EpochRehydrate => "epoch rehydrate"@,
        AdapterPhase::OperationInspection => "operation inspection"@,
        AdapterPhase::OperationCancellation => "operation cancellation"@,
    }
}

/// Whether a phase works on behalf of an operation that the request has to name.
pub open spec fn needs_operation(phase: AdapterPhase) -> bool {
    phase == AdapterPhase::ContextPreparation || phase == AdapterPhase::Execution
}

impl AdapterPhase {
    pub fn as_str(&self) -> (name: &'static str)
        ensures
            name@ == adapter_phase_name(*self),
    {
        match self {
            AdapterPhase::ContextPreparation => "context preparation",
            AdapterPhase::Execution => "execution",
            AdapterPhase::EpochAttach => "epoch attach",
            AdapterPhase::EpochRehydrate => "epoch rehydrate",
            AdapterPhase::OperationInspection => "operation inspection",
            AdapterPhase::OperationCancellation => "operation cancellation",
        }
    }
}

/// Why a phase did not come about.
#[derive(Debug)]
#[non_exhaustive]
#[allow(inconsistent_fields)]
pub enum StatefulMountedProviderAdapterError<E> {
    /// The request names no operation.
    MissingProviderOperation { phase: &'static str },
    /// The provider reports a failure.
    Phase { phase: &'static str, source: E },
}

/// Whether a phase may begin on a request. Nothing reaches the provider before that.
pub fn begin_phase<E>(
    phase: AdapterPhase,
    operation: Option<&ProviderOperationIdentity>,
) -> (result: Result<(), StatefulMountedProviderAdapterError<E>>)
    ensures
        match result {
            Ok(_) => !needs_operation(phase) || operation is Some,
            Err(StatefulMountedProviderAdapterError::MissingProviderOperation { phase: name }) => {
                &&& needs_operation(phase)
                &&& operation is None
                &&& name@ == adapter_phase_name(phase)
            },
            Err(_) => false,
        },
{
    match phase {
        AdapterPhase::ContextPreparation | AdapterPhase::Execution => {
            if operation.is_none() {
                return Err(
                    StatefulMountedProviderAdapterError::MissingProviderOperation {
                        phase: phase.as_str(),
                    },
                );
            }
        },
        _ => {},
    }
    Ok(())
}

/// Takes what the provider answers. A failure is reported with its phase.
pub fn finish_phase<T, E>(phase: AdapterPhase, outcome: Result<T, E>) -> (result: Result<
    T,
    StatefulMountedProviderAdapterError<E>,
>)
    ensures
        match result {
            Ok(value) => outcome == Ok::<T, E>(value),
            Err(StatefulMountedProviderAdapterError::Phase { phase: name, source }) => {
                &&& outcome == Err::<T, E>(source)
                &&& name@ == adapter_phase_name(phase)
            },
            Err(_) => false,
        },
{
    match outcome {
        Ok(value) => Ok(value),
        Err(source) => Err(
            StatefulMountedProviderAdapterError::Phase { phase: phase.as_str(), source },
        ),
    }
}

} // verus!
