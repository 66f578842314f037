//! Provider operations and their idempotency keys.

use sha2::Digest;
use vstd::prelude::*;
use vstd::string::*;
use vstd::utf8::encode_utf8;
use crate::component::durable_keys::{DurableCallId, DurableCallInputId, DurableEpochId};
use crate::component::durable_keys::{DurableSessionId, PublicationRequestId};
use crate::hex::{hex, hex_text, is_hex_digit, law_hex_is_injective, lemma_hex_digits};
use crate::text_chars::joined;

verus! {

/// The SHA-256 digest of bytes.
pub uninterp spec fn sha256_digest(bytes: Seq<u8>) -> Seq<u8>;

/// `sha2::Sha256::digest` computes the SHA-256 digest of its argument. It depends on
/// nothing else and has 32 bytes.
#[verifier::external_body]
pub(crate) fn sha256(bytes: &Vec<u8>) -> (digest: Vec<u8>)
    ensures
        digest@ == sha256_digest(bytes@),
        digest@.len() == 32,
{
    sha2::Sha256::digest(bytes).to_vec()
}

/// A number as eight bytes, the highest first.
pub open spec fn big_endian(value: u64) -> Seq<u8> {
    seq![
        (value / 0x100_0000_0000_0000) as u8,
        ((value / 0x1_0000_0000_0000) % 0x100) as u8,
        ((value / 0x100_0000_0000) % 0x100) as u8,
        ((value / 0x1_0000_0000) % 0x100) as u8,
        ((value / 0x100_0000) % 0x100) as u8,
        ((value / 0x1_0000) % 0x100) as u8,
        ((value / 0x100) % 0x100) as u8,
        (value % 0x100) as u8,
    ]
}

/// The number that eight bytes stand for.
pub open spec fn from_big_endian(bytes: Seq<u8>) -> int {
    bytes[0] * 0x100_0000_0000_0000 + bytes[1] * 0x1_0000_0000_0000 + bytes[2] * 0x100_0000_0000
        + bytes[3] * 0x1_0000_0000 + bytes[4] * 0x100_0000 + bytes[5] * 0x1_0000 + bytes[6] * 0x100
        + bytes[7]
}

pub(crate) proof fn lemma_big_endian(value: u64)
    ensures
        big_endian(value).len() == 8,
        from_big_endian(big_endian(value)) == value,
{
    let bytes = big_endian(value);
    assert(value / 0x100_0000_0000_0000 < 0x100);
    let a = value as int;
    let b1 = a / 0x100;
    let b2 = b1 / 0x100;
    let b3 = b2 / 0x100;
    let b4 = b3 / 0x100;
    let b5 = b4 / 0x100;
    let b6 = b5 / 0x100;
    let b7 = b6 / 0x100;
    assert(a / 0x1_0000 == b2);
    assert(a / 0x100_0000 == b3);
    assert(a / 0x1_0000_0000 == b4);
    assert(a / 0x100_0000_0000 == b5);
    assert(a / 0x1_0000_0000_0000 == b6);
    assert(a / 0x100_0000_0000_0000 == b7);
    assert(bytes[7] == a % 0x100);
    assert(bytes[6] == b1 % 0x100);
    assert(bytes[5] == b2 % 0x100);
    assert(bytes[4] == b3 % 0x100);
    assert(bytes[3] == b4 % 0x100);
    assert(bytes[2] == b5 % 0x100);
    assert(bytes[1] == b6 % 0x100);
    assert(bytes[0] == b7);
}

fn push_big_endian(bytes: &mut Vec<u8>, value: u64)
    ensures
        final(bytes)@ == old(bytes)@ + big_endian(value),
{
    let ghost before = bytes@;
    bytes.push((value / 0x100_0000_0000_0000) as u8);
    bytes.push(((value / 0x1_0000_0000_0000) % 0x100) as u8);
    bytes.push(((value / 0x100_0000_0000) % 0x100) as u8);
    bytes.push(((value / 0x1_0000_0000) % 0x100) as u8);
    bytes.push(((value / 0x100_0000) % 0x100) as u8);
    bytes.push(((value / 0x1_0000) % 0x100) as u8);
    bytes.push(((value / 0x100) % 0x100) as u8);
    bytes.push((value % 0x100) as u8);
    assert(bytes@ =~= before + big_endian(value));
}

/// A text in front of which its length in bytes stands.
pub open spec fn key_part(text: Seq<char>) -> Seq<u8> {
    big_endian(encode_utf8(text).len() as u64) + encode_utf8(text)
}

fn push_bytes(bytes: &mut Vec<u8>, more: &[u8])
    ensures
        final(bytes)@ == old(bytes)@ + more@,
{
    let ghost before = bytes@;
    let count: usize = more.len();
    for i in 0..count
        invariant
            count == more@.len(),
            bytes@ == before + more@.take(i as int),
    {
        bytes.push(more[i]);
        assert(bytes@ =~= before + more@.take(i as int + 1));
    }
    assert(more@.take(more@.len() as int) =~= more@);
}

fn push_key_part(bytes: &mut Vec<u8>, text: &str)
    ensures
        final(bytes)@ == old(bytes)@ + key_part(text@),
{
    let ghost before = bytes@;
    let part = text.as_bytes();
    push_big_endian(bytes, part.len() as u64);
    push_bytes(bytes, part);
    assert(bytes@ =~= before + key_part(text@));
}

/// Model of [`ProviderOperationIdentity`].
pub struct OperationModel {
    pub session_id: Seq<char>,
    pub durable_epoch_id: Seq<char>,
    pub call_id: Seq<char>,
    pub input_id: Seq<char>,
    pub turn_index: u64,
    pub request_id: Seq<char>,
}

/// What a provider operation is called: which turn of which call it runs, and which
/// publication it leads to. Attempting the turn again does not change it.
#[derive(Debug)]
pub struct ProviderOperationIdentity {
    pub(crate) session_id: DurableSessionId,
    pub(crate) durable_epoch_id: DurableEpochId,
    pub(crate) call_id: DurableCallId,
    pub(crate) input_id: DurableCallInputId,
    pub(crate) turn_index: u64,
    pub(crate) request_id: PublicationRequestId,
}

impl View for ProviderOperationIdentity {
    type V = OperationModel;

    open(crate) spec fn view(&self) -> OperationModel {
        OperationModel {
            session_id: self.session_id@,
            durable_epoch_id: self.durable_epoch_id@,
            call_id: self.call_id@,
            input_id: self.input_id@,
            turn_index: self.turn_index,
            request_id: self.request_id@,
        }
    }
}

impl ProviderOperationIdentity {
    pub fn new(
        session_id: DurableSessionId,
        durable_epoch_id: DurableEpochId,
        call_id: DurableCallId,
        input_id: DurableCallInputId,
        turn_index: u64,
        request_id: PublicationRequestId,
    ) -> (operation: Self)
        ensures
            operation@ == (OperationModel {
                session_id: session_id@,
                durable_epoch_id: durable_epoch_id@,
                call_id: call_id@,
                input_id: input_id@,
                turn_index,
                request_id: request_id@,
            }),
    {
        Self { session_id, durable_epoch_id, call_id, input_id, turn_index, request_id }
    }

    /// The bytes that the operation is hashed from.
    pub fn message(&self) -> (bytes: Vec<u8>)
        ensures
            bytes@ == operation_message(self@),
    {
        let mut bytes: Vec<u8> = Vec::new();
        push_bytes(&mut bytes, "agentview.provider-operation.v1".as_bytes());
        bytes.push(0);
        let ghost prefix = encode_utf8("agentview.provider-operation.v1"@).push(0);
        assert(bytes@ =~= prefix);
        push_key_part(&mut bytes, self.session_id.as_str());
        push_key_part(&mut bytes, self.durable_epoch_id.as_str());
        push_key_part(&mut bytes, self.call_id.as_str());
        push_key_part(&mut bytes, self.input_id.as_str());
        push_big_endian(&mut bytes, self.turn_index);
        push_key_part(&mut bytes, self.request_id.as_str());
        bytes
    }

    /// The key by which a remote service knows the operation again.
    pub fn remote_idempotency_key(&self) -> (key: String)
        ensures
            key@ == idempotency_key(self@),
            key@.len() == 96,
            key@.take(32) == "agentview.provider-operation.v1:"@,
            forall|i: int| 32 <= i < 96 ==> is_hex_digit(#[trigger] key@[i]),
    {
        let digest = sha256(&self.message());
        proof {
            lemma_digest_key(digest@);
        }
        key_of_digest(digest.as_slice())
    }

    pub fn publication_request_id(&self) -> (text: &str)
        ensures
            text@ == self@.request_id,
    {
        self.request_id.as_str()
    }

    pub fn session_id(&self) -> (text: &str)
        ensures
            text@ == self@.session_id,
    {
        self.session_id.as_str()
    }

    pub fn durable_epoch_id(&self) -> (text: &str)
        ensures
            text@ == self@.durable_epoch_id,
    {
        self.durable_epoch_id.as_str()
    }

    pub fn call_id(&self) -> (text: &str)
        ensures
            text@ == self@.call_id,
    {
        self.call_id.as_str()
    }

    pub fn input_id(&self) -> (text: &str)
        ensures
            text@ == self@.input_id,
    {
        self.input_id.as_str()
    }

    pub fn turn_index(&self) -> (index: u64)
        ensures
            index == self@.turn_index,
    {
        self.turn_index
    }
}

impl Clone for ProviderOperationIdentity {
    fn clone(&self) -> (copy: Self)
        ensures
            copy@ == self@,
    {
        Self {
            session_id: self.session_id.clone(),
            durable_epoch_id: self.durable_epoch_id.clone(),
            call_id: self.call_id.clone(),
            input_id: self.input_id.clone(),
            turn_index: self.turn_index,
            request_id: self.request_id.clone(),
        }
    }
}

impl PartialEq for ProviderOperationIdentity {
    fn eq(&self, other: &Self) -> (equal: bool) {
        self.session_id == other.session_id
            && self.durable_epoch_id == other.durable_epoch_id
            && self.call_id == other.call_id
            && self.input_id == other.input_id
            && self.turn_index == other.turn_index
            && self.request_id == other.request_id
    }
}

impl Eq for ProviderOperationIdentity {

}

impl vstd::std_specs::cmp::PartialEqSpecImpl for ProviderOperationIdentity {
    open spec fn obeys_eq_spec() -> bool {
        true
    }

    open spec fn eq_spec(&self, other: &Self) -> bool {
        self@ == other@
    }
}

/// The bytes that an operation is hashed from.
pub open spec fn operation_message(operation: OperationModel) -> Seq<u8> {
    encode_utf8("agentview.provider-operation.v1"@).push(0) + key_part(operation.session_id)
        + key_part(operation.durable_epoch_id) + key_part(operation.call_id) + key_part(
        operation.input_id,
    ) + big_endian(operation.turn_index) + key_part(operation.request_id)
}

/// The key that a digest is written as: a prefix and two hexadecimal digits for each
/// byte.
pub open spec fn digest_key(digest: Seq<u8>) -> Seq<char> {
    "agentview.provider-operation.v1:"@ + hex_text(digest)
}

/// Writes a digest as a key.
pub fn key_of_digest(digest: &[u8]) -> (key: String)
    ensures
        key@ == digest_key(digest@),
{
    joined("agentview.provider-operation.v1:", hex(digest).as_str())
}

proof fn lemma_digest_key(digest: Seq<u8>)
    ensures
        digest_key(digest).len() == 32 + 2 * digest.len(),
        digest_key(digest).take(32) == "agentview.provider-operation.v1:"@,
        forall|i: int|
            32 <= i < 32 + 2 * digest.len() ==> is_hex_digit(#[trigger] digest_key(digest)[i]),
{
    reveal_strlit("agentview.provider-operation.v1:");
    assert(digest_key(digest).take(32) =~= "agentview.provider-operation.v1:"@);
    assert forall|i: int| 32 <= i < 32 + 2 * digest.len() implies is_hex_digit(
        #[trigger] digest_key(digest)[i],
    ) by {
        assert(digest_key(digest)[i] == hex_text(digest)[i - 32]);
        lemma_hex_digits(digest, i - 32);
    }
}

/// The key by which a remote service knows an operation again.
pub open spec fn idempotency_key(operation: OperationModel) -> Seq<char> {
    digest_key(sha256_digest(operation_message(operation)))
}

/// Whether a text fits into memory as UTF-8.
pub open spec fn fits_in_memory(text: Seq<char>) -> bool {
    encode_utf8(text).len() <= u64::MAX
}

proof fn lemma_first_part(first: Seq<char>, second: Seq<char>, rest: Seq<u8>, other: Seq<u8>)
    requires
        fits_in_memory(first),
        fits_in_memory(second),
        key_part(first) + rest == key_part(second) + other,
    ensures
        first == second,
        rest == other,
{
    let a = key_part(first) + rest;
    let b = key_part(second) + other;
    let m = encode_utf8(first);
    let n = encode_utf8(second);
    lemma_big_endian(m.len() as u64);
    lemma_big_endian(n.len() as u64);
    assert(a.take(8) =~= big_endian(m.len() as u64));
    assert(b.take(8) =~= big_endian(n.len() as u64));
    assert(m.len() == n.len());
    assert(a.subrange(8, 8 + m.len() as int) =~= m);
    assert(b.subrange(8, 8 + n.len() as int) =~= n);
    assert(a.skip(8 + m.len() as int) =~= rest);
    assert(b.skip(8 + n.len() as int) =~= other);
    vstd::utf8::encode_utf8_decode_utf8(first);
    vstd::utf8::encode_utf8_decode_utf8(second);
}

proof fn lemma_nested_parts(
    prefix: Seq<u8>,
    a: Seq<u8>,
    b: Seq<u8>,
    c: Seq<u8>,
    d: Seq<u8>,
    e: Seq<u8>,
    f: Seq<u8>,
)
    ensures
        prefix + a + b + c + d + e + f == prefix + (a + (b + (c + (d + (e + f))))),
{
    assert(prefix + a + b + c + d + e + f =~= prefix + a + b + c + d + (e + f));
    assert(prefix + a + b + c + d + (e + f) =~= prefix + a + b + c + (d + (e + f)));
    assert(prefix + a + b + c + (d + (e + f)) =~= prefix + a + b + (c + (d + (e + f))));
    assert(prefix + a + b + (c + (d + (e + f))) =~= prefix + a + (b + (c + (d + (e + f)))));
    assert(prefix + a + (b + (c + (d + (e + f)))) =~= prefix + (a + (b + (c + (d + (e + f))))));
}

proof fn lemma_same_prefix(prefix: Seq<u8>, a: Seq<u8>, b: Seq<u8>)
    requires
        prefix + a == prefix + b,
    ensures
        a == b,
{
    assert((prefix + a).skip(prefix.len() as int) =~= a);
    assert((prefix + b).skip(prefix.len() as int) =~= b);
}

proof fn lemma_split_at(a: Seq<u8>, b: Seq<u8>, at: int)
    requires
        a.len() == at,
    ensures
        (a + b).take(at) == a,
        (a + b).skip(at) == b,
        b.len() == 0 ==> a + b == a,
{
    assert((a + b).take(at) =~= a);
    assert((a + b).skip(at) =~= b);
    if b.len() == 0 {
        assert(a + b =~= a);
    }
}

/// Two operations are hashed from the same bytes only if they agree in every part: no
/// text can run over into the next. The bound leaves out texts longer than any machine
/// holds.
pub proof fn law_operations_are_told_apart(first: OperationModel, second: OperationModel)
    requires
        operation_message(first) == operation_message(second),
        fits_in_memory(first.session_id) && fits_in_memory(second.session_id),
        fits_in_memory(first.durable_epoch_id) && fits_in_memory(second.durable_epoch_id),
        fits_in_memory(first.call_id) && fits_in_memory(second.call_id),
        fits_in_memory(first.input_id) && fits_in_memory(second.input_id),
        fits_in_memory(first.request_id) && fits_in_memory(second.request_id),
    ensures
        first == second,
{
    let prefix = encode_utf8("agentview.provider-operation.v1"@).push(0);
    let e1 = key_part(first.request_id);
    let e2 = key_part(second.request_id);
    let t1 = big_endian(first.turn_index) + e1;
    let t2 = big_endian(second.turn_index) + e2;
    let d1 = key_part(first.input_id) + t1;
    let d2 = key_part(second.input_id) + t2;
    let c1 = key_part(first.call_id) + d1;
    let c2 = key_part(second.call_id) + d2;
    let b1 = key_part(first.durable_epoch_id) + c1;
    let b2 = key_part(second.durable_epoch_id) + c2;
    let a1 = key_part(first.session_id) + b1;
    let a2 = key_part(second.session_id) + b2;
    lemma_nested_parts(
        prefix,
        key_part(first.session_id),
        key_part(first.durable_epoch_id),
        key_part(first.call_id),
        key_part(first.input_id),
        big_endian(first.turn_index),
        e1,
    );
    lemma_nested_parts(
        prefix,
        key_part(second.session_id),
        key_part(second.durable_epoch_id),
        key_part(second.call_id),
        key_part(second.input_id),
        big_endian(second.turn_index),
        e2,
    );
    lemma_same_prefix(prefix, a1, a2);
    lemma_first_part(first.session_id, second.session_id, b1, b2);
    lemma_first_part(first.durable_epoch_id, second.durable_epoch_id, c1, c2);
    lemma_first_part(first.call_id, second.call_id, d1, d2);
    lemma_first_part(first.input_id, second.input_id, t1, t2);
    lemma_big_endian(first.turn_index);
    lemma_big_endian(second.turn_index);
    lemma_split_at(big_endian(first.turn_index), e1, 8);
    lemma_split_at(big_endian(second.turn_index), e2, 8);
    lemma_split_at(e1, Seq::empty(), e1.len() as int);
    lemma_split_at(e2, Seq::empty(), e2.len() as int);
    lemma_first_part(first.request_id, second.request_id, Seq::empty(), Seq::empty());
}

/// Where SHA-256 does not collide, two operations share their key exactly when they
/// agree in all six parts.
pub proof fn law_keys_tell_operations_apart(first: OperationModel, second: OperationModel)
    requires
        sha256_digest(operation_message(first)) == sha256_digest(operation_message(second))
            ==> operation_message(first) == operation_message(second),
        fits_in_memory(first.session_id) && fits_in_memory(second.session_id),
        fits_in_memory(first.durable_epoch_id) && fits_in_memory(second.durable_epoch_id),
        fits_in_memory(first.call_id) && fits_in_memory(second.call_id),
        fits_in_memory(first.input_id) && fits_in_memory(second.input_id),
        fits_in_memory(first.request_id) && fits_in_memory(second.request_id),
    ensures
        idempotency_key(first) == idempotency_key(second) <==> first == second,
{
    if idempotency_key(first) == idempotency_key(second) {
        let start = "agentview.provider-operation.v1:"@;
        let one = hex_text(sha256_digest(operation_message(first)));
        let other = hex_text(sha256_digest(operation_message(second)));
        assert((start + one).skip(start.len() as int) =~= one);
        assert((start + other).skip(start.len() as int) =~= other);
        law_hex_is_injective(
            sha256_digest(operation_message(first)),
            sha256_digest(operation_message(second)),
        );
        law_operations_are_told_apart(first, second);
    }
}

} // verus!
