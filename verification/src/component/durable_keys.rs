//! Durable keys: names that outlive a process.

use vstd::prelude::*;
use vstd::string::*;
use vstd::utf8::encode_utf8;
use crate::component::contract::{durable_text, is_durable_text};
use crate::text_chars::joined;

verus! {

/// Model of [`DurableKeyError`].
pub struct KeyErrorModel {
    pub kind: Seq<char>,
    pub value: Seq<char>,
}

/// A value that is no durable key.
#[derive(Debug)]
pub struct DurableKeyError {
    pub(crate) kind: &'static str,
    pub(crate) value: String,
}

impl View for DurableKeyError {
    type V = KeyErrorModel;

    open(crate) spec fn view(&self) -> KeyErrorModel {
        KeyErrorModel { kind: self.kind@, value: self.value@ }
    }
}

/// What is said of a value that is no durable key.
pub open spec fn key_error_message(error: KeyErrorModel) -> Seq<char> {
    "invalid "@ + error.kind + " `"@ + error.value
        + "`; the value must be non-empty and contain no control characters"@
}

impl DurableKeyError {
    pub fn kind(&self) -> (kind: &'static str)
        ensures
            kind@ == self@.kind,
    {
        self.kind
    }

    pub fn value(&self) -> (value: &str)
        ensures
            value@ == self@.value,
    {
        self.value.as_str()
    }

    pub fn message(&self) -> (message: String)
        ensures
            message@ == key_error_message(self@),
    {
        let mut message: String = joined("invalid ", self.kind);
        message.append(" `");
        message.append(self.value.as_str());
        message.append("`; the value must be non-empty and contain no control characters");
        message
    }
}

impl Clone for DurableKeyError {
    fn clone(&self) -> (copy: Self)
        ensures
            copy@ == self@,
    {
        Self { kind: self.kind, value: self.value.clone() }
    }
}

/// Accepts a durable key: non-empty, without control characters.
pub(crate) fn validate_durable_key(value: &str, kind: &'static str) -> (result: Result<
    String,
    DurableKeyError,
>)
    ensures
        result is Ok <==> is_durable_text(value@),
        result is Ok ==> result->Ok_0@ == value@,
        result is Err ==> result->Err_0@ == (KeyErrorModel { kind: kind@, value: value@ }),
{
    if !durable_text(value) {
        return Err(DurableKeyError { kind, value: value.to_owned() });
    }
    Ok(value.to_owned())
}

/// A stored session.
#[derive(Debug)]
pub struct DurableSessionId {
    pub(crate) value: String,
}

impl View for DurableSessionId {
    type V = Seq<char>;

    open(crate) spec fn view(&self) -> Seq<char> {
        self.value@
    }
}

impl DurableSessionId {
    #[verifier::type_invariant]
    pub(crate) open(crate) spec fn inv(self) -> bool {
        is_durable_text(self.value@)
    }

    pub fn new(value: &str) -> (result: Result<Self, DurableKeyError>)
        ensures
            result is Ok <==> is_durable_text(value@),
            result is Ok ==> result->Ok_0@ == value@,
            result is Err ==> result->Err_0@ == (KeyErrorModel {
                kind: "durable session id"@,
                value: value@,
            }),
    {
        match validate_durable_key(value, "durable session id") {
            Ok(value) => Ok(Self { value }),
            Err(error) => Err(error),
        }
    }

    pub fn as_str(&self) -> (text: &str)
        ensures
            text@ == self@,
    {
        self.value.as_str()
    }
}

impl Clone for DurableSessionId {
    fn clone(&self) -> (copy: Self)
        ensures
            copy@ == self@,
    {
        proof {
            use_type_invariant(self);
        }
        Self { value: self.value.clone() }
    }
}

impl PartialEq for DurableSessionId {
    fn eq(&self, other: &Self) -> (equal: bool) {
        self.value == other.value
    }
}

impl Eq for DurableSessionId {

}

impl vstd::std_specs::cmp::PartialEqSpecImpl for DurableSessionId {
    open spec fn obeys_eq_spec() -> bool {
        true
    }

    open spec fn eq_spec(&self, other: &Self) -> bool {
        self@ == other@
    }
}

/// An epoch of a stored session.
#[derive(Debug)]
pub struct DurableEpochId {
    pub(crate) value: String,
}

impl View for DurableEpochId {
    type V = Seq<char>;

    open(crate) spec fn view(&self) -> Seq<char> {
        self.value@
    }
}

impl DurableEpochId {
    #[verifier::type_invariant]
    pub(crate) open(crate) spec fn inv(self) -> bool {
        is_durable_text(self.value@)
    }

    pub fn new(value: &str) -> (result: Result<Self, DurableKeyError>)
        ensures
            result is Ok <==> is_durable_text(value@),
            result is Ok ==> result->Ok_0@ == value@,
            result is Err ==> result->Err_0@ == (KeyErrorModel {
                kind: "durable epoch id"@,
                value: value@,
            }),
    {
        match validate_durable_key(value, "durable epoch id") {
            Ok(value) => Ok(Self { value }),
            Err(error) => Err(error),
        }
    }

    pub fn as_str(&self) -> (text: &str)
        ensures
            text@ == self@,
    {
        self.value.as_str()
    }
}

impl Clone for DurableEpochId {
    fn clone(&self) -> (copy: Self)
        ensures
            copy@ == self@,
    {
        proof {
            use_type_invariant(self);
        }
        Self { value: self.value.clone() }
    }
}

impl PartialEq for DurableEpochId {
    fn eq(&self, other: &Self) -> (equal: bool) {
        self.value == other.value
    }
}

impl Eq for DurableEpochId {

}

impl vstd::std_specs::cmp::PartialEqSpecImpl for DurableEpochId {
    open spec fn obeys_eq_spec() -> bool {
        true
    }

    open spec fn eq_spec(&self, other: &Self) -> bool {
        self@ == other@
    }
}

/// A change of an epoch's configuration.
#[derive(Debug)]
pub struct EpochReconfigurationId {
    pub(crate) value: String,
}

impl View for EpochReconfigurationId {
    type V = Seq<char>;

    open(crate) spec fn view(&self) -> Seq<char> {
        self.value@
    }
}

impl EpochReconfigurationId {
    #[verifier::type_invariant]
    pub(crate) open(crate) spec fn inv(self) -> bool {
        is_durable_text(self.value@)
    }

    pub fn new(value: &str) -> (result: Result<Self, DurableKeyError>)
        ensures
            result is Ok <==> is_durable_text(value@),
            result is Ok ==> result->Ok_0@ == value@,
            result is Err ==> result->Err_0@ == (KeyErrorModel {
                kind: "epoch reconfiguration id"@,
                value: value@,
            }),
    {
        match validate_durable_key(value, "epoch reconfiguration id") {
            Ok(value) => Ok(Self { value }),
            Err(error) => Err(error),
        }
    }

    pub fn as_str(&self) -> (text: &str)
        ensures
            text@ == self@,
    {
        self.value.as_str()
    }
}

impl Clone for EpochReconfigurationId {
    fn clone(&self) -> (copy: Self)
        ensures
            copy@ == self@,
    {
        proof {
            use_type_invariant(self);
        }
        Self { value: self.value.clone() }
    }
}

impl PartialEq for EpochReconfigurationId {
    fn eq(&self, other: &Self) -> (equal: bool) {
        self.value == other.value
    }
}

impl Eq for EpochReconfigurationId {

}

impl vstd::std_specs::cmp::PartialEqSpecImpl for EpochReconfigurationId {
    open spec fn obeys_eq_spec() -> bool {
        true
    }

    open spec fn eq_spec(&self, other: &Self) -> bool {
        self@ == other@
    }
}

/// A call within a session.
#[derive(Debug)]
pub struct DurableCallId {
    pub(crate) value: String,
}

impl View for DurableCallId {
    type V = Seq<char>;

    open(crate) spec fn view(&self) -> Seq<char> {
        self.value@
    }
}

impl DurableCallId {
    #[verifier::type_invariant]
    pub(crate) open(crate) spec fn inv(self) -> bool {
        is_durable_text(self.value@)
    }

    pub fn new(value: &str) -> (result: Result<Self, DurableKeyError>)
        ensures
            result is Ok <==> is_durable_text(value@),
            result is Ok ==> result->Ok_0@ == value@,
            result is Err ==> result->Err_0@ == (KeyErrorModel {
                kind: "durable call id"@,
                value: value@,
            }),
    {
        match validate_durable_key(value, "durable call id") {
            Ok(value) => Ok(Self { value }),
            Err(error) => Err(error),
        }
    }

    pub fn as_str(&self) -> (text: &str)
        ensures
            text@ == self@,
    {
        self.value.as_str()
    }
}

impl Clone for DurableCallId {
    fn clone(&self) -> (copy: Self)
        ensures
            copy@ == self@,
    {
        proof {
            use_type_invariant(self);
        }
        Self { value: self.value.clone() }
    }
}

impl PartialEq for DurableCallId {
    fn eq(&self, other: &Self) -> (equal: bool) {
        self.value == other.value
    }
}

impl Eq for DurableCallId {

}

impl vstd::std_specs::cmp::PartialEqSpecImpl for DurableCallId {
    open spec fn obeys_eq_spec() -> bool {
        true
    }

    open spec fn eq_spec(&self, other: &Self) -> bool {
        self@ == other@
    }
}

/// The input that a call was made with.
#[derive(Debug)]
pub struct DurableCallInputId {
    pub(crate) value: String,
}

impl View for DurableCallInputId {
    type V = Seq<char>;

    open(crate) spec fn view(&self) -> Seq<char> {
        self.value@
    }
}

impl DurableCallInputId {
    #[verifier::type_invariant]
    pub(crate) open(crate) spec fn inv(self) -> bool {
        is_durable_text(self.value@)
    }

    pub fn new(value: &str) -> (result: Result<Self, DurableKeyError>)
        ensures
            result is Ok <==> is_durable_text(value@),
            result is Ok ==> result->Ok_0@ == value@,
            result is Err ==> result->Err_0@ == (KeyErrorModel {
                kind: "durable call input id"@,
                value: value@,
            }),
    {
        match validate_durable_key(value, "durable call input id") {
            Ok(value) => Ok(Self { value }),
            Err(error) => Err(error),
        }
    }

    pub fn as_str(&self) -> (text: &str)
        ensures
            text@ == self@,
    {
        self.value.as_str()
    }
}

impl Clone for DurableCallInputId {
    fn clone(&self) -> (copy: Self)
        ensures
            copy@ == self@,
    {
        proof {
            use_type_invariant(self);
        }
        Self { value: self.value.clone() }
    }
}

impl PartialEq for DurableCallInputId {
    fn eq(&self, other: &Self) -> (equal: bool) {
        self.value == other.value
    }
}

impl Eq for DurableCallInputId {

}

impl vstd::std_specs::cmp::PartialEqSpecImpl for DurableCallInputId {
    open spec fn obeys_eq_spec() -> bool {
        true
    }

    open spec fn eq_spec(&self, other: &Self) -> bool {
        self@ == other@
    }
}

/// The right to work on a call.
#[derive(Debug)]
pub struct DurableCallLeaseId {
    pub(crate) value: String,
}

impl View for DurableCallLeaseId {
    type V = Seq<char>;

    open(crate) spec fn view(&self) -> Seq<char> {
        self.value@
    }
}

impl DurableCallLeaseId {
    #[verifier::type_invariant]
    pub(crate) open(crate) spec fn inv(self) -> bool {
        is_durable_text(self.value@)
    }

    pub fn new(value: &str) -> (result: Result<Self, DurableKeyError>)
        ensures
            result is Ok <==> is_durable_text(value@),
            result is Ok ==> result->Ok_0@ == value@,
            result is Err ==> result->Err_0@ == (KeyErrorModel {
                kind: "durable call lease id"@,
                value: value@,
            }),
    {
        match validate_durable_key(value, "durable call lease id") {
            Ok(value) => Ok(Self { value }),
            Err(error) => Err(error),
        }
    }

    pub fn as_str(&self) -> (text: &str)
        ensures
            text@ == self@,
    {
        self.value.as_str()
    }
}

impl Clone for DurableCallLeaseId {
    fn clone(&self) -> (copy: Self)
        ensures
            copy@ == self@,
    {
        proof {
            use_type_invariant(self);
        }
        Self { value: self.value.clone() }
    }
}

impl PartialEq for DurableCallLeaseId {
    fn eq(&self, other: &Self) -> (equal: bool) {
        self.value == other.value
    }
}

impl Eq for DurableCallLeaseId {

}

impl vstd::std_specs::cmp::PartialEqSpecImpl for DurableCallLeaseId {
    open spec fn obeys_eq_spec() -> bool {
        true
    }

    open spec fn eq_spec(&self, other: &Self) -> bool {
        self@ == other@
    }
}

/// The contract that an epoch was opened under.
#[derive(Debug)]
pub struct EpochContractId {
    pub(crate) value: String,
}

impl View for EpochContractId {
    type V = Seq<char>;

    open(crate) spec fn view(&self) -> Seq<char> {
        self.value@
    }
}

impl EpochContractId {
    #[verifier::type_invariant]
    pub(crate) open(crate) spec fn inv(self) -> bool {
        is_durable_text(self.value@)
    }

    pub fn new(value: &str) -> (result: Result<Self, DurableKeyError>)
        ensures
            result is Ok <==> is_durable_text(value@),
            result is Ok ==> result->Ok_0@ == value@,
            result is Err ==> result->Err_0@ == (KeyErrorModel {
                kind: "epoch contract id"@,
                value: value@,
            }),
    {
        match validate_durable_key(value, "epoch contract id") {
            Ok(value) => Ok(Self { value }),
            Err(error) => Err(error),
        }
    }

    pub fn as_str(&self) -> (text: &str)
        ensures
            text@ == self@,
    {
        self.value.as_str()
    }
}

impl Clone for EpochContractId {
    fn clone(&self) -> (copy: Self)
        ensures
            copy@ == self@,
    {
        proof {
            use_type_invariant(self);
        }
        Self { value: self.value.clone() }
    }
}

impl PartialEq for EpochContractId {
    fn eq(&self, other: &Self) -> (equal: bool) {
        self.value == other.value
    }
}

impl Eq for EpochContractId {

}

impl vstd::std_specs::cmp::PartialEqSpecImpl for EpochContractId {
    open spec fn obeys_eq_spec() -> bool {
        true
    }

    open spec fn eq_spec(&self, other: &Self) -> bool {
        self@ == other@
    }
}

/// A request to publish. It stays the same when the request is repeated.
#[derive(Debug)]
pub struct PublicationRequestId {
    pub(crate) value: String,
}

impl View for PublicationRequestId {
    type V = Seq<char>;

    open(crate) spec fn view(&self) -> Seq<char> {
        self.value@
    }
}

impl PublicationRequestId {
    #[verifier::type_invariant]
    pub(crate) open(crate) spec fn inv(self) -> bool {
        is_durable_text(self.value@)
    }

    pub fn new(value: &str) -> (result: Result<Self, DurableKeyError>)
        ensures
            result is Ok <==> is_durable_text(value@),
            result is Ok ==> result->Ok_0@ == value@,
            result is Err ==> result->Err_0@ == (KeyErrorModel {
                kind: "publication request id"@,
                value: value@,
            }),
    {
        match validate_durable_key(value, "publication request id") {
            Ok(value) => Ok(Self { value }),
            Err(error) => Err(error),
        }
    }

    pub fn as_str(&self) -> (text: &str)
        ensures
            text@ == self@,
    {
        self.value.as_str()
    }
}

impl Clone for PublicationRequestId {
    fn clone(&self) -> (copy: Self)
        ensures
            copy@ == self@,
    {
        proof {
            use_type_invariant(self);
        }
        Self { value: self.value.clone() }
    }
}

impl PartialEq for PublicationRequestId {
    fn eq(&self, other: &Self) -> (equal: bool) {
        self.value == other.value
    }
}

impl Eq for PublicationRequestId {

}

impl vstd::std_specs::cmp::PartialEqSpecImpl for PublicationRequestId {
    open spec fn obeys_eq_spec() -> bool {
        true
    }

    open spec fn eq_spec(&self, other: &Self) -> bool {
        self@ == other@
    }
}

/// What tells one publication candidate from another.
#[derive(Debug)]
pub struct PublicationCandidateFingerprint {
    pub(crate) value: String,
}

impl View for PublicationCandidateFingerprint {
    type V = Seq<char>;

    open(crate) spec fn view(&self) -> Seq<char> {
        self.value@
    }
}

impl PublicationCandidateFingerprint {
    #[verifier::type_invariant]
    pub(crate) open(crate) spec fn inv(self) -> bool {
        is_durable_text(self.value@)
    }

    pub fn new(value: &str) -> (result: Result<Self, DurableKeyError>)
        ensures
            result is Ok <==> is_durable_text(value@),
            result is Ok ==> result->Ok_0@ == value@,
            result is Err ==> result->Err_0@ == (KeyErrorModel {
                kind: "publication candidate fingerprint"@,
                value: value@,
            }),
    {
        match validate_durable_key(value, "publication candidate fingerprint") {
            Ok(value) => Ok(Self { value }),
            Err(error) => Err(error),
        }
    }

    pub fn as_bytes(&self) -> (bytes: &[u8])
        ensures
            bytes@ == encode_utf8(self@),
    {
        self.value.as_str().as_bytes()
    }

    pub fn as_str(&self) -> (text: &str)
        ensures
            text@ == self@,
    {
        self.value.as_str()
    }
}

impl Clone for PublicationCandidateFingerprint {
    fn clone(&self) -> (copy: Self)
        ensures
            copy@ == self@,
    {
        proof {
            use_type_invariant(self);
        }
        Self { value: self.value.clone() }
    }
}

impl PartialEq for PublicationCandidateFingerprint {
    fn eq(&self, other: &Self) -> (equal: bool) {
        self.value == other.value
    }
}

impl Eq for PublicationCandidateFingerprint {

}

impl vstd::std_specs::cmp::PartialEqSpecImpl for PublicationCandidateFingerprint {
    open spec fn obeys_eq_spec() -> bool {
        true
    }

    open spec fn eq_spec(&self, other: &Self) -> bool {
        self@ == other@
    }
}

/// A finished publication.
#[derive(Debug)]
pub struct PublicationId {
    pub(crate) value: String,
}

impl View for PublicationId {
    type V = Seq<char>;

    open(crate) spec fn view(&self) -> Seq<char> {
        self.value@
    }
}

impl PublicationId {
    #[verifier::type_invariant]
    pub(crate) open(crate) spec fn inv(self) -> bool {
        is_durable_text(self.value@)
    }

    pub fn new(value: &str) -> (result: Result<Self, DurableKeyError>)
        ensures
            result is Ok <==> is_durable_text(value@),
            result is Ok ==> result->Ok_0@ == value@,
            result is Err ==> result->Err_0@ == (KeyErrorModel {
                kind: "publication id"@,
                value: value@,
            }),
    {
        match validate_durable_key(value, "publication id") {
            Ok(value) => Ok(Self { value }),
            Err(error) => Err(error),
        }
    }

    pub fn as_str(&self) -> (text: &str)
        ensures
            text@ == self@,
    {
        self.value.as_str()
    }
}

impl Clone for PublicationId {
    fn clone(&self) -> (copy: Self)
        ensures
            copy@ == self@,
    {
        proof {
            use_type_invariant(self);
        }
        Self { value: self.value.clone() }
    }
}

impl PartialEq for PublicationId {
    fn eq(&self, other: &Self) -> (equal: bool) {
        self.value == other.value
    }
}

impl Eq for PublicationId {

}

impl vstd::std_specs::cmp::PartialEqSpecImpl for PublicationId {
    open spec fn obeys_eq_spec() -> bool {
        true
    }

    open spec fn eq_spec(&self, other: &Self) -> bool {
        self@ == other@
    }
}

} // verus!
