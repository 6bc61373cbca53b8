//! The signature record at the start of a signed baremetal image, and the cryptographic
//! primitives its signature is checked with.

use vstd::prelude::*;

use bao1x_api::signatures::SignatureInFlash;
use ed25519_dalek::{Signature, Verifier, VerifyingKey};
use sha2::{Digest, Sha512};

use crate::image::layout::SIGNATURE_RECORD_LEN;
use crate::protocol::preflight::{le_u32, word};

verus! {

/// Byte offsets of the fields of the signature record.
pub const AT_SIGNATURE: usize = 4;
pub const AT_AAD_LEN: usize = 68;
pub const AT_AAD: usize = 72;
pub const AT_VERSION: usize = 132;
pub const AT_MAGIC: usize = 136;
pub const AT_SIGNED_LEN: usize = 144;
pub const AT_FUNCTION: usize = 148;
pub const AT_ANTI_ROLLBACK: usize = 152;
pub const AT_MIN_SEMVER: usize = 156;
pub const AT_SEMVER: usize = 172;
pub const AT_PUBKEYS: usize = 188;
pub const AT_CORRECTED_VERSION: usize = 352;
pub const AT_PQ_ENABLED: usize = 356;
/// Size of one public-key record: a 32-byte key and a 4-byte tag.
pub const PUBKEY_RECORD_LEN: usize = 36;
/// Length of the additional authenticated data field.
pub const AAD_CAPACITY: usize = 60;

/// One public-key slot of the signature record.
#[derive(Clone, Copy)]
pub struct KeyRecord {
    pub pk: [u8; 32],
    pub tag: [u8; 4],
}

/// The fields of the signature record that inspection reads.
#[derive(Clone, Copy)]
pub struct SignatureHeader {
    pub jal_instruction: u32,
    pub signature: [u8; 64],
    pub aad_len: u32,
    pub aad: [u8; 60],
    pub version: u32,
    pub magic: [u32; 2],
    pub signed_len: u32,
    pub function_code: u32,
    pub anti_rollback: u32,
    pub min_semver: [u8; 16],
    pub semver: [u8; 16],
    pub pubkeys: [KeyRecord; 4],
    pub corrected_version: u32,
    pub pq_enabled: u32,
}

/// The 32 key bytes of public-key slot `i` of the record `r`.
pub open spec fn slot_key(r: Seq<u8>, i: int) -> Seq<u8> {
    r.subrange(AT_PUBKEYS + PUBKEY_RECORD_LEN * i, AT_PUBKEYS + PUBKEY_RECORD_LEN * i + 32)
}

/// The 4 tag bytes of public-key slot `i` of the record `r`.
pub open spec fn slot_tag(r: Seq<u8>, i: int) -> Seq<u8> {
    r.subrange(AT_PUBKEYS + PUBKEY_RECORD_LEN * i + 32, AT_PUBKEYS + PUBKEY_RECORD_LEN * i + 36)
}

/// `h` holds the fields of the record `r`, words read little-endian as the record stores
/// them.
pub open spec fn header_of(h: SignatureHeader, r: Seq<u8>) -> bool {
    &&& h.jal_instruction == le_u32(r, 0)
    &&& h.signature@ == r.subrange(AT_SIGNATURE as int, AT_AAD_LEN as int)
    &&& h.aad_len == le_u32(r, AT_AAD_LEN as int)
    &&& h.aad@ == r.subrange(AT_AAD as int, AT_VERSION as int)
    &&& h.version == le_u32(r, AT_VERSION as int)
    &&& h.magic[0] == le_u32(r, AT_MAGIC as int)
    &&& h.magic[1] == le_u32(r, AT_MAGIC + 4)
    &&& h.signed_len == le_u32(r, AT_SIGNED_LEN as int)
    &&& h.function_code == le_u32(r, AT_FUNCTION as int)
    &&& h.anti_rollback == le_u32(r, AT_ANTI_ROLLBACK as int)
    &&& h.min_semver@ == r.subrange(AT_MIN_SEMVER as int, AT_SEMVER as int)
    &&& h.semver@ == r.subrange(AT_SEMVER as int, AT_PUBKEYS as int)
    &&& forall|i: int|
        0 <= i < 4 ==> (#[trigger] h.pubkeys[i]).pk@ == slot_key(r, i) && h.pubkeys[i].tag@
            == slot_tag(r, i)
    &&& h.corrected_version == le_u32(r, AT_CORRECTED_VERSION as int)
    &&& h.pq_enabled == le_u32(r, AT_PQ_ENABLED as int)
}

/// The byte fields of a signature record.
pub struct RecordBytes {
    pub signature: [u8; 64],
    pub aad: [u8; 60],
    pub min_semver: [u8; 16],
    pub semver: [u8; 16],
    pub pubkeys: [KeyRecord; 4],
}

/// The byte fields of `b` are those of the record `r`.
pub open spec fn record_bytes_of(b: RecordBytes, r: Seq<u8>) -> bool {
    &&& b.signature@ == r.subrange(AT_SIGNATURE as int, AT_AAD_LEN as int)
    &&& b.aad@ == r.subrange(AT_AAD as int, AT_VERSION as int)
    &&& b.min_semver@ == r.subrange(AT_MIN_SEMVER as int, AT_SEMVER as int)
    &&& b.semver@ == r.subrange(AT_SEMVER as int, AT_PUBKEYS as int)
    &&& forall|i: int|
        0 <= i < 4 ==> (#[trigger] b.pubkeys[i]).pk@ == slot_key(r, i) && b.pubkeys[i].tag@
            == slot_tag(r, i)
}

/// Reads the signature record with `bytemuck::pod_read_unaligned::<SignatureInFlash>` and
/// copies out its byte-array fields. The contract claims that each is the bytes of the record
/// at its offset in the `repr(C)` layout: the read copies the bytes as they are, and byte
/// arrays have no byte order. The record's word fields are not taken from this read.
#[verifier::external_body]
fn read_record_bytes(record: &[u8]) -> (b: RecordBytes)
    requires
        record@.len() == SIGNATURE_RECORD_LEN,
    ensures
        record_bytes_of(b, record@),
{
    let r = bytemuck::pod_read_unaligned::<SignatureInFlash>(record);
    let s = r.sealed_data;
    RecordBytes {
        signature: r.signature, aad: r.aad, min_semver: s.min_semver, semver: s.semver,
        pubkeys: s.pubkeys.map(|k| KeyRecord { pk: k.pk, tag: k.tag }),
    }
}

/// Reads the signature record at the start of `payload`: its byte fields through
/// `bytemuck`, its words little-endian, as the record is laid out whatever the host's byte
/// order.
pub fn signature_header(payload: &[u8]) -> (h: SignatureHeader)
    requires
        payload@.len() >= SIGNATURE_RECORD_LEN,
    ensures
        header_of(h, payload@.subrange(0, SIGNATURE_RECORD_LEN as int)),
{
    let record = &payload[0..SIGNATURE_RECORD_LEN];
    let ghost r = payload@.subrange(0, SIGNATURE_RECORD_LEN as int);
    assert(record@ =~= r);
    let b = read_record_bytes(record);
    SignatureHeader {
        jal_instruction: word(record, 0),
        signature: b.signature,
        aad_len: word(record, AT_AAD_LEN),
        aad: b.aad,
        version: word(record, AT_VERSION),
        magic: [word(record, AT_MAGIC), word(record, AT_MAGIC + 4)],
        signed_len: word(record, AT_SIGNED_LEN),
        function_code: word(record, AT_FUNCTION),
        anti_rollback: word(record, AT_ANTI_ROLLBACK),
        min_semver: b.min_semver,
        semver: b.semver,
        pubkeys: b.pubkeys,
        corrected_version: word(record, AT_CORRECTED_VERSION),
        pq_enabled: word(record, AT_PQ_ENABLED),
    }
}

/// Whether `ed25519_dalek` accepts `signature` as an Ed25519ph signature (SHA-512 prehash, no
/// context) of `message` under the public key `public_key`; false where the key bytes do not
/// decode to a curve point.
pub uninterp spec fn ed25519ph_accepts(public_key: Seq<u8>, message: Seq<u8>, signature: Seq<u8>) -> bool;

/// Whether `ed25519_dalek` accepts `signature` as a plain Ed25519 signature of `message` under
/// the public key `public_key`; false where the key bytes do not decode to a curve point.
pub uninterp spec fn ed25519_accepts(public_key: Seq<u8>, message: Seq<u8>, signature: Seq<u8>) -> bool;

/// The SHA-512 digest of `data`.
pub uninterp spec fn sha512(data: Seq<u8>) -> Seq<u8>;

/// The SHA-256 digest of `data`.
pub uninterp spec fn sha256(data: Seq<u8>) -> Seq<u8>;

/// Decodes the key with `VerifyingKey::from_bytes` and checks the signature with
/// `VerifyingKey::verify_prehashed` over a SHA-512 state fed `message`. The contract claims
/// only that the verdict is a function of the three byte strings, named
/// [`ed25519ph_accepts`].
#[verifier::external_body]
fn verify_ed25519ph(public_key: &[u8; 32], message: &[u8], signature: &[u8; 64]) -> (ok: bool)
    ensures
        ok == ed25519ph_accepts(public_key@, message@, signature@),
{
    match VerifyingKey::from_bytes(public_key) {
        Ok(key) => {
            let digest = Sha512::new().chain_update(message);
            key.verify_prehashed(digest, None, &Signature::from_bytes(signature)).is_ok()
        },
        Err(_) => false,
    }
}

/// Decodes the key with `VerifyingKey::from_bytes` and checks the signature with
/// `Verifier::verify`. The contract claims only that the verdict is a function of the three
/// byte strings, named [`ed25519_accepts`].
#[verifier::external_body]
fn verify_ed25519(public_key: &[u8; 32], message: &[u8], signature: &[u8; 64]) -> (ok: bool)
    ensures
        ok == ed25519_accepts(public_key@, message@, signature@),
{
    match VerifyingKey::from_bytes(public_key) {
        Ok(key) => key.verify(message, &Signature::from_bytes(signature)).is_ok(),
        Err(_) => false,
    }
}

/// `sha2::Sha512::digest`; the contract claims that the digest is a function of the data,
/// named [`sha512`].
#[verifier::external_body]
fn sha512_digest(data: &[u8]) -> (d: Vec<u8>)
    ensures
        d@ == sha512(data@),
{
    Sha512::digest(data).to_vec()
}

/// `sha2::Sha256::digest`; the contract claims that the digest is a function of the data,
/// named [`sha256`].
#[verifier::external_body]
fn sha256_digest(data: &[u8]) -> (d: Vec<u8>)
    ensures
        d@ == sha256(data@),
{
    sha2::Sha256::digest(data).to_vec()
}

/// The message a FIDO2/WebAuthn signature covers: the first `aad_len` bytes of the AAD,
/// then `SHA-256(SHA-512(signed))`.
pub open spec fn fido2_message(aad: Seq<u8>, aad_len: nat, signed: Seq<u8>) -> Seq<u8> {
    aad.take(aad_len as int) + sha256(sha512(signed))
}

/// Whether a signature `signature` with AAD field `aad` (of which `aad_len` bytes are used)
/// verifies over `signed` under the public key `public_key`: as Ed25519ph when there is no AAD,
/// as FIDO2 Ed25519 when the AAD length fits the field, and never otherwise.
pub open spec fn slot_verifies(
    aad_len: u32,
    aad: Seq<u8>,
    public_key: Seq<u8>,
    signature: Seq<u8>,
    signed: Seq<u8>,
) -> bool {
    if aad_len == 0 {
        ed25519ph_accepts(public_key, signed, signature)
    } else if aad_len <= AAD_CAPACITY {
        ed25519_accepts(public_key, fido2_message(aad, aad_len as nat, signed), signature)
    } else {
        false
    }
}

/// Checks the signature of `h` over `signed` under key slot `slot`.
pub fn slot_signature_verifies(h: &SignatureHeader, signed: &[u8], slot: usize) -> (ok: bool)
    requires
        slot < 4,
    ensures
        ok == slot_verifies(h.aad_len, h.aad@, h.pubkeys[slot as int].pk@, h.signature@, signed@),
{
    if h.aad_len == 0 {
        verify_ed25519ph(&h.pubkeys[slot].pk, signed, &h.signature)
    } else if h.aad_len as usize <= AAD_CAPACITY {
        let n = h.aad_len as usize;
        let mut message: Vec<u8> = Vec::new();
        let mut i: usize = 0;
        while i < n
            invariant
                n <= 60,
                i <= n,
                message@ == h.aad@.take(i as int),
            decreases n - i,
        {
            message.push(h.aad[i]);
            i = i + 1;
            assert(message@ =~= h.aad@.take(i as int));
        }
        let inner = sha512_digest(signed);
        let mut outer = sha256_digest(inner.as_slice());
        message.append(&mut outer);
        assert(message@ =~= fido2_message(h.aad@, h.aad_len as nat, signed@));
        verify_ed25519(&h.pubkeys[slot].pk, message.as_slice(), &h.signature)
    } else {
        false
    }
}

} // verus!
