//! Inspection of a canonical signed Baochip baremetal UF2: the signature block is checked
//! and described, and the signature is checked against the keys the block embeds. Whether a
//! device accepts the image is not predicted.

use vstd::prelude::*;

use crate::image::error::ImageError;
use crate::image::header::{
    header_of, signature_header, slot_key, slot_signature_verifies, slot_tag, slot_verifies, KeyRecord, SignatureHeader,
    AT_AAD, AT_AAD_LEN, AT_ANTI_ROLLBACK, AT_CORRECTED_VERSION, AT_FUNCTION, AT_MAGIC,
    AT_MIN_SEMVER, AT_PQ_ENABLED, AT_PUBKEYS, AT_SEMVER, AT_SIGNATURE, AT_SIGNED_LEN,
    AT_VERSION,
};
use crate::image::layout::{
    compatible_versions, is_compatible, FUNCTION_BAREMETAL, HEADER_JUMP, JUMP_INSTRUCTION,
    MAGIC_WORD0, MAGIC_WORD1, SEALED_FIELDS_LEN, SIGBLOCK_LEN, SIGNATURE_PQ_LENGTH,
    SIGNATURE_RECORD_LEN, UNSIGNED_LEN,
};
use crate::protocol::preflight::{
    le_u32, preflight_bytes, preflight_spec, word, BlockView, Uf2Image,
};
use crate::text::{
    chars_to_string, dec_str, decode_lossy, hex_bytes, hex_fixed, push_dec, push_hex,
    push_hex_bytes, push_str, trim_end, trim_end_chars, utf8_lossy,
};

verus! {

/// A key embedded in the signature block: its slot and its tag.
#[derive(Debug, Clone, PartialEq, Eq)]
pub struct EmbeddedKey {
    pub slot: usize,
    pub tag: String,
}

impl View for EmbeddedKey {
    type V = (usize, Seq<char>);

    open spec fn view(&self) -> (usize, Seq<char>) {
        (self.slot, self.tag@)
    }
}

/// Whether an embedded key verifies the image signature, and which one did first.
#[derive(Debug, Clone, PartialEq, Eq)]
pub enum EmbeddedVerification {
    Verified { key_slot: usize, key_tag: String },
    Failed,
}

/// The abstract value of an [`EmbeddedVerification`].
pub enum VerificationView {
    Verified { key_slot: usize, key_tag: Seq<char> },
    Failed,
}

impl View for EmbeddedVerification {
    type V = VerificationView;

    open spec fn view(&self) -> VerificationView {
        match self {
            EmbeddedVerification::Verified { key_slot, key_tag } => VerificationView::Verified {
                key_slot: *key_slot,
                key_tag: key_tag@,
            },
            EmbeddedVerification::Failed => VerificationView::Failed,
        }
    }
}

/// What inspection reports of a signed image.
#[derive(Debug, Clone, PartialEq, Eq)]
pub struct InspectionReport {
    pub profile: &'static str,
    pub blocks: usize,
    pub image_bytes: usize,
    pub signed_len: u32,
    pub function: &'static str,
    pub signature_mode: &'static str,
    pub version: u32,
    pub corrected_version: u32,
    pub compatible_header: bool,
    pub anti_rollback: u32,
    pub minimum_version_hex: String,
    pub image_version_hex: String,
    pub pq_enabled: bool,
    pub embedded_keys: Vec<EmbeddedKey>,
    pub embedded_verification: EmbeddedVerification,
    pub device_acceptance: &'static str,
}

/// The bytes the blocks of `image` carry, in order: bytes 32 to 288 of each block.
pub open spec fn image_payload(image: Seq<BlockView>) -> Seq<u8>
    decreases image.len(),
{
    if image.len() == 0 {
        seq![]
    } else {
        image_payload(image.drop_last()) + image.last().bytes.subrange(32, 288)
    }
}

/// Every byte of `p` from `lo` up to `hi` is zero.
pub open spec fn all_zero(p: Seq<u8>, lo: int, hi: int) -> bool {
    forall|i: int| lo <= i < hi ==> p[i] == 0
}

/// The first problem with the signature block at the start of the payload `p`.
pub open spec fn signature_block_problem(p: Seq<u8>) -> Option<Seq<char>> {
    if p.len() < SIGBLOCK_LEN {
        Some("signed image is shorter than the 768-byte signature block"@)
    } else if le_u32(p, 0) != HEADER_JUMP {
        Some(
            "signature-block trampoline is 0x"@ + hex_fixed(le_u32(p, 0) as nat, 8)
                + ", expected 0x"@ + hex_fixed(HEADER_JUMP as nat, 8),
        )
    } else if le_u32(p, AT_MAGIC as int) != MAGIC_WORD0 || le_u32(p, AT_MAGIC + 4) != MAGIC_WORD1 {
        Some("signed header has invalid Baochip magic"@)
    } else if le_u32(p, AT_FUNCTION as int) != FUNCTION_BAREMETAL {
        Some(
            "signed header function is "@ + dec_str(le_u32(p, AT_FUNCTION as int) as nat)
                + ", expected baremetal ("@ + dec_str(FUNCTION_BAREMETAL as nat) + ")"@,
        )
    } else if !all_zero(p, UNSIGNED_LEN + SEALED_FIELDS_LEN, SIGBLOCK_LEN as int) {
        Some("signature block has non-zero reserved padding"@)
    } else {
        None
    }
}

/// A payload whose signature block passes but which ends at the block, so that the code
/// trampoline after it cannot be read; inspection is not defined there.
pub open spec fn trampoline_missing(p: Seq<u8>) -> bool {
    signature_block_problem(p) is None && p.len() < SIGBLOCK_LEN + 4
}

/// Where the signed region of `p` ends.
pub open spec fn signed_end(p: Seq<u8>) -> int {
    UNSIGNED_LEN + le_u32(p, AT_SIGNED_LEN as int)
}

/// Where the image of `p` ends: the signed region and, when enabled, the PQ signature.
pub open spec fn image_end(p: Seq<u8>) -> int {
    signed_end(p) + if le_u32(p, AT_PQ_ENABLED as int) == 0 {
        0
    } else {
        SIGNATURE_PQ_LENGTH as int
    }
}

/// The first problem inspection finds in the payload `p`; `None` when it is a well-formed
/// signed baremetal image.
pub open spec fn inspect_problem(p: Seq<u8>) -> Option<Seq<char>> {
    match signature_block_problem(p) {
        Some(m) => Some(m),
        None => {
            if le_u32(p, SIGBLOCK_LEN as int) != JUMP_INSTRUCTION {
                Some("presign image has an invalid code trampoline"@)
            } else if signed_end(p) > usize::MAX {
                Some("signed length overflows"@)
            } else if signed_end(p) < SIGBLOCK_LEN || signed_end(p) > p.len() {
                Some(
                    "signed length ends at byte "@ + dec_str(signed_end(p) as nat)
                        + ", outside the reconstructed image"@,
                )
            } else if image_end(p) > usize::MAX {
                Some("signed image length overflows"@)
            } else if image_end(p) > p.len() {
                Some("PQ signature extends beyond the reconstructed image"@)
            } else if !all_zero(p, image_end(p), p.len() as int) {
                Some("UF2 contains non-zero data after the signed image"@)
            } else {
                None
            }
        },
    }
}

/// The text of a key tag: its bytes decoded as UTF-8 (lossily), trailing whitespace removed.
pub open spec fn tag_text(tag: Seq<u8>) -> Seq<char> {
    trim_end(utf8_lossy(tag))
}

/// Key slot `i` of the record at the start of `p` holds a key (not all zero).
pub open spec fn key_present(p: Seq<u8>, i: int) -> bool {
    exists|j: int| 0 <= j < 32 && #[trigger] slot_key(p, i)[j] != 0
}

/// The embedded keys among the first `n` slots of the record at the start of `p`, in slot
/// order.
pub open spec fn embedded_keys_upto(p: Seq<u8>, n: int) -> Seq<(usize, Seq<char>)>
    decreases n,
{
    if n <= 0 {
        seq![]
    } else if key_present(p, n - 1) {
        embedded_keys_upto(p, n - 1).push(((n - 1) as usize, tag_text(slot_tag(p, n - 1))))
    } else {
        embedded_keys_upto(p, n - 1)
    }
}

/// The verification outcome given the tags of the key slots and, for each slot, whether it
/// holds a key that verifies the signature: the first such slot from `i` on, or `Failed`.
pub open spec fn first_verified(tags: Seq<Seq<u8>>, verdicts: Seq<bool>, i: int) -> VerificationView
    decreases 4 - i,
{
    if i < 0 || i >= 4 {
        VerificationView::Failed
    } else if verdicts[i] {
        VerificationView::Verified { key_slot: i as usize, key_tag: tag_text(tags[i]) }
    } else {
        first_verified(tags, verdicts, i + 1)
    }
}

/// The bytes the signature of payload `p` covers.
pub open spec fn signed_bytes(p: Seq<u8>) -> Seq<u8> {
    p.subrange(UNSIGNED_LEN as int, signed_end(p))
}

/// Whether key slot `i` of the record of `p` holds a key that verifies the signature.
pub open spec fn slot_verdict(p: Seq<u8>, i: int) -> bool {
    key_present(p, i) && slot_verifies(
        le_u32(p, AT_AAD_LEN as int),
        p.subrange(AT_AAD as int, AT_VERSION as int),
        slot_key(p, i),
        p.subrange(AT_SIGNATURE as int, AT_AAD_LEN as int),
        signed_bytes(p),
    )
}

/// The verification outcome of payload `p`.
pub open spec fn verification_of(p: Seq<u8>) -> VerificationView {
    first_verified(
        Seq::new(4, |i: int| slot_tag(p, i)),
        Seq::new(4, |i: int| slot_verdict(p, i)),
        0,
    )
}

/// The report of an inspected image whose blocks are `image`.
pub open spec fn report_of(r: InspectionReport, image: Seq<BlockView>) -> bool {
    let p = image_payload(image);
    &&& r.profile@ == "canonical_baochip_baremetal_uf2"@
    &&& r.blocks == image.len()
    &&& r.image_bytes == image_end(p)
    &&& r.signed_len == le_u32(p, AT_SIGNED_LEN as int)
    &&& r.function@ == "baremetal"@
    &&& r.signature_mode@ == (if le_u32(p, AT_AAD_LEN as int) == 0 {
        "ed25519ph"@
    } else {
        "fido2_ed25519"@
    })
    &&& r.version == le_u32(p, AT_VERSION as int)
    &&& r.corrected_version == le_u32(p, AT_CORRECTED_VERSION as int)
    &&& r.compatible_header == compatible_versions(r.version, r.corrected_version)
    &&& r.anti_rollback == le_u32(p, AT_ANTI_ROLLBACK as int)
    &&& r.minimum_version_hex@ == hex_bytes(p.subrange(AT_MIN_SEMVER as int, AT_SEMVER as int))
    &&& r.image_version_hex@ == hex_bytes(p.subrange(AT_SEMVER as int, AT_PUBKEYS as int))
    &&& r.pq_enabled == (le_u32(p, AT_PQ_ENABLED as int) != 0)
    &&& r.embedded_keys@.map_values(|k: EmbeddedKey| k@) == embedded_keys_upto(p, 4)
    &&& r.embedded_verification@ == verification_of(p)
    &&& r.device_acceptance@
        == "unknown: depends on installed keys, revocations, lifecycle, anti-rollback, and PQ policy"@
}

/// What inspecting the blocks `image` gives: the report, or the message of the first problem.
pub open spec fn inspection_of(r: Result<InspectionReport, ImageError>, image: Seq<BlockView>) -> bool {
    match r {
        Ok(report) => inspect_problem(image_payload(image)) is None && report_of(report, image),
        Err(e) => inspect_problem(image_payload(image)) == Some(e@),
    }
}

/// The payload bytes of the blocks of `image`, in order.
pub fn payload_bytes(image: &Uf2Image) -> (p: Vec<u8>)
    ensures
        p@ == image_payload(image@),
{
    let blocks = image.blocks();
    let n = blocks.len();
    let ghost view = image@;
    let mut out: Vec<u8> = Vec::new();
    let mut i: usize = 0;
    while i < n
        invariant
            n == blocks@.len(),
            blocks@.map_values(|x: crate::protocol::preflight::Uf2Block| x@) == view,
            i <= n,
            out@ == image_payload(view.take(i as int)),
        decreases n - i,
    {
        let payload = blocks[i].payload();
        let ghost before = out@;
        let m = payload.len();
        let mut j: usize = 0;
        while j < m
            invariant
                m == payload@.len(),
                j <= m,
                out@ == before + payload@.take(j as int),
            decreases m - j,
        {
            out.push(payload[j]);
            j = j + 1;
            assert(out@ =~= before + payload@.take(j as int));
        }
        assert(payload@.take(m as int) =~= payload@);
        assert(view[i as int] == blocks@[i as int]@);
        assert(view.take(i + 1).drop_last() =~= view.take(i as int));
        i = i + 1;
    }
    assert(view.take(n as int) =~= view);
    out
}

/// An error whose message is the characters `m`.
fn error_of(m: &Vec<char>) -> (e: ImageError)
    ensures
        e@ == m@,
{
    ImageError::new(chars_to_string(m))
}

/// An error whose message is the literal `m`.
fn error_str(m: &str) -> (e: ImageError)
    ensures
        e@ == m@,
{
    let mut out: Vec<char> = Vec::new();
    push_str(&mut out, m);
    error_of(&out)
}

/// Checks that bytes `lo` up to `hi` of `p` are all zero.
fn zero_range(p: &[u8], lo: usize, hi: usize) -> (b: bool)
    requires
        lo <= hi <= p@.len(),
    ensures
        b == all_zero(p@, lo as int, hi as int),
{
    let mut i = lo;
    while i < hi
        invariant
            lo <= i <= hi <= p@.len(),
            all_zero(p@, lo as int, i as int),
        decreases hi - i,
    {
        if p[i] != 0 {
            return false;
        }
        i = i + 1;
    }
    true
}

/// Checks the signature block at the start of `p`; the message of its first problem.
pub fn check_signature_block(p: &[u8]) -> (r: Result<(), ImageError>)
    ensures
        match r {
            Ok(()) => signature_block_problem(p@) is None,
            Err(e) => signature_block_problem(p@) == Some(e@),
        },
{
    if p.len() < SIGBLOCK_LEN {
        return Err(error_str("signed image is shorter than the 768-byte signature block"));
    }
    let jal = word(p, 0);
    if jal != HEADER_JUMP {
        let mut m: Vec<char> = Vec::new();
        push_str(&mut m, "signature-block trampoline is 0x");
        push_hex(&mut m, jal as u64, 8);
        push_str(&mut m, ", expected 0x");
        push_hex(&mut m, HEADER_JUMP as u64, 8);
        return Err(error_of(&m));
    }
    if word(p, AT_MAGIC) != MAGIC_WORD0 || word(p, AT_MAGIC + 4) != MAGIC_WORD1 {
        return Err(error_str("signed header has invalid Baochip magic"));
    }
    let function = word(p, AT_FUNCTION);
    if function != FUNCTION_BAREMETAL {
        let mut m: Vec<char> = Vec::new();
        push_str(&mut m, "signed header function is ");
        push_dec(&mut m, function as u64);
        push_str(&mut m, ", expected baremetal (");
        push_dec(&mut m, FUNCTION_BAREMETAL as u64);
        push_str(&mut m, ")");
        return Err(error_of(&m));
    }
    if !zero_range(p, UNSIGNED_LEN + SEALED_FIELDS_LEN, SIGBLOCK_LEN) {
        return Err(error_str("signature block has non-zero reserved padding"));
    }
    Ok(())
}

/// Whether key slot `slot` holds a key: some byte of it is not zero.
fn key_is_present(key: &KeyRecord) -> (b: bool)
    ensures
        b == exists|j: int| 0 <= j < 32 && key.pk@[j] != 0,
{
    let mut j: usize = 0;
    while j < 32
        invariant
            j <= 32,
            forall|k: int| 0 <= k < j ==> key.pk@[k] == 0,
        decreases 32 - j,
    {
        if key.pk[j] != 0 {
            return true;
        }
        j = j + 1;
    }
    false
}

/// The text of a key tag.
fn tag_string(tag: &[u8; 4]) -> (s: String)
    ensures
        s@ == tag_text(tag@),
{
    let decoded = decode_lossy(tag);
    chars_to_string(&trim_end_chars(&decoded))
}

/// The verification outcome given, for each of the four key slots, whether it holds a key
/// that verifies the signature: the first such slot with its tag, or `Failed`.
pub fn verification_from_verdicts(keys: &[KeyRecord; 4], verdicts: &[bool; 4]) -> (v:
    EmbeddedVerification)
    ensures
        v@ == first_verified(keys@.map_values(|k: KeyRecord| k.tag@), verdicts@, 0),
{
    let ghost tags = keys@.map_values(|k: KeyRecord| k.tag@);
    let mut i: usize = 0;
    while i < 4
        invariant
            i <= 4,
            tags == keys@.map_values(|k: KeyRecord| k.tag@),
            first_verified(tags, verdicts@, 0) == first_verified(tags, verdicts@, i as int),
        decreases 4 - i,
    {
        if verdicts[i] {
            return EmbeddedVerification::Verified { key_slot: i, key_tag: tag_string(&keys[i].tag) };
        }
        i = i + 1;
    }
    EmbeddedVerification::Failed
}

/// The fields of a signature record read from the start of `s` are those of `s` itself.
proof fn lemma_header_in_payload(h: SignatureHeader, s: Seq<u8>)
    requires
        s.len() >= SIGNATURE_RECORD_LEN,
        header_of(h, s.subrange(0, SIGNATURE_RECORD_LEN as int)),
    ensures
        h.jal_instruction == le_u32(s, 0),
        h.signature@ == s.subrange(AT_SIGNATURE as int, AT_AAD_LEN as int),
        h.aad_len == le_u32(s, AT_AAD_LEN as int),
        h.aad@ == s.subrange(AT_AAD as int, AT_VERSION as int),
        h.version == le_u32(s, AT_VERSION as int),
        h.signed_len == le_u32(s, AT_SIGNED_LEN as int),
        h.anti_rollback == le_u32(s, AT_ANTI_ROLLBACK as int),
        h.min_semver@ == s.subrange(AT_MIN_SEMVER as int, AT_SEMVER as int),
        h.semver@ == s.subrange(AT_SEMVER as int, AT_PUBKEYS as int),
        forall|i: int|
            0 <= i < 4 ==> (#[trigger] h.pubkeys[i]).pk@ == slot_key(s, i) && h.pubkeys[i].tag@
                == slot_tag(s, i),
        h.corrected_version == le_u32(s, AT_CORRECTED_VERSION as int),
        h.pq_enabled == le_u32(s, AT_PQ_ENABLED as int),
{
    let r = s.subrange(0, SIGNATURE_RECORD_LEN as int);
    assert(r.subrange(AT_SIGNATURE as int, AT_AAD_LEN as int) =~= s.subrange(
        AT_SIGNATURE as int,
        AT_AAD_LEN as int,
    ));
    assert(r.subrange(AT_AAD as int, AT_VERSION as int) =~= s.subrange(
        AT_AAD as int,
        AT_VERSION as int,
    ));
    assert(r.subrange(AT_MIN_SEMVER as int, AT_SEMVER as int) =~= s.subrange(
        AT_MIN_SEMVER as int,
        AT_SEMVER as int,
    ));
    assert(r.subrange(AT_SEMVER as int, AT_PUBKEYS as int) =~= s.subrange(
        AT_SEMVER as int,
        AT_PUBKEYS as int,
    ));
    assert forall|i: int| 0 <= i < 4 implies (#[trigger] h.pubkeys[i]).pk@ == slot_key(s, i)
        && h.pubkeys[i].tag@ == slot_tag(s, i) by {
        assert(slot_key(r, i) =~= slot_key(s, i));
        assert(slot_tag(r, i) =~= slot_tag(s, i));
    }
}

/// Inspects a preflighted image: checks its signature block, trampoline, signed length,
/// PQ signature and padding, and reports its header and which embedded key, if any,
/// verifies its signature.
pub fn inspect_image(image: &Uf2Image) -> (r: Result<InspectionReport, ImageError>)
    requires
        !trampoline_missing(image_payload(image@)),
    ensures
        inspection_of(r, image@),
{
    let bytes = payload_bytes(image);
    let p = bytes.as_slice();
    let ghost s = p@;
    match check_signature_block(p) {
        Err(e) => {
            return Err(e);
        },
        Ok(()) => {},
    }
    if word(p, SIGBLOCK_LEN) != JUMP_INSTRUCTION {
        return Err(error_str("presign image has an invalid code trampoline"));
    }
    let h = signature_header(p);
    proof {
        lemma_header_in_payload(h, s);
    }
    let signed_end = match UNSIGNED_LEN.checked_add(h.signed_len as usize) {
        None => {
            return Err(error_str("signed length overflows"));
        },
        Some(end) => end,
    };
    if signed_end < SIGBLOCK_LEN || signed_end > p.len() {
        let mut m: Vec<char> = Vec::new();
        push_str(&mut m, "signed length ends at byte ");
        push_dec(&mut m, signed_end as u64);
        push_str(&mut m, ", outside the reconstructed image");
        return Err(error_of(&m));
    }
    let pq_size: usize = if h.pq_enabled == 0 {
        0
    } else {
        SIGNATURE_PQ_LENGTH
    };
    let image_bytes = match signed_end.checked_add(pq_size) {
        None => {
            return Err(error_str("signed image length overflows"));
        },
        Some(end) => end,
    };
    if image_bytes > p.len() {
        return Err(error_str("PQ signature extends beyond the reconstructed image"));
    }
    if !zero_range(p, image_bytes, p.len()) {
        return Err(error_str("UF2 contains non-zero data after the signed image"));
    }
    let signed = &p[UNSIGNED_LEN..signed_end];
    assert(signed@ =~= signed_bytes(s));
    let mut keys: Vec<EmbeddedKey> = Vec::new();
    let mut verdicts = [false; 4];
    let mut slot: usize = 0;
    while slot < 4
        invariant
            slot <= 4,
            signed@ == signed_bytes(s),
            s.len() >= SIGNATURE_RECORD_LEN,
            forall|i: int|
                0 <= i < 4 ==> (#[trigger] h.pubkeys[i]).pk@ == slot_key(s, i)
                    && h.pubkeys[i].tag@ == slot_tag(s, i),
            h.aad_len == le_u32(s, AT_AAD_LEN as int),
            h.aad@ == s.subrange(AT_AAD as int, AT_VERSION as int),
            h.signature@ == s.subrange(AT_SIGNATURE as int, AT_AAD_LEN as int),
            keys@.map_values(|k: EmbeddedKey| k@) == embedded_keys_upto(s, slot as int),
            forall|j: int| 0 <= j < slot ==> verdicts@[j] == slot_verdict(s, j),
            forall|j: int| slot <= j < 4 ==> !verdicts@[j],
        decreases 4 - slot,
    {
        let key = &h.pubkeys[slot];
        let present = key_is_present(key);
        assert(key.pk@ == slot_key(s, slot as int));
        assert(present == key_present(s, slot as int)) by {
            if present {
                let j = choose|j: int| 0 <= j < 32 && key.pk@[j] != 0;
                assert(slot_key(s, slot as int)[j] != 0);
            }
        }
        let ghost old_keys = keys@;
        if present {
            let tag = tag_string(&key.tag);
            keys.push(EmbeddedKey { slot, tag });
            assert(keys@.map_values(|k: EmbeddedKey| k@) =~= old_keys.map_values(
                |k: EmbeddedKey| k@,
            ).push((slot, tag_text(slot_tag(s, slot as int)))));
            verdicts[slot] = slot_signature_verifies(&h, signed, slot);
        }
        slot = slot + 1;
    }
    let verification = verification_from_verdicts(&h.pubkeys, &verdicts);
    assert(h.pubkeys@.map_values(|k: KeyRecord| k.tag@) =~= Seq::new(4, |i: int| slot_tag(s, i)));
    assert(verdicts@ =~= Seq::new(4, |i: int| slot_verdict(s, i)));
    let mut minimum: Vec<char> = Vec::new();
    push_hex_bytes(&mut minimum, &h.min_semver);
    let mut current: Vec<char> = Vec::new();
    push_hex_bytes(&mut current, &h.semver);
    let mode: &'static str = if h.aad_len == 0 {
        "ed25519ph"
    } else {
        "fido2_ed25519"
    };
    Ok(
        InspectionReport {
            profile: "canonical_baochip_baremetal_uf2",
            blocks: image.len(),
            image_bytes,
            signed_len: h.signed_len,
            function: "baremetal",
            signature_mode: mode,
            version: h.version,
            corrected_version: h.corrected_version,
            compatible_header: is_compatible(h.version, h.corrected_version),
            anti_rollback: h.anti_rollback,
            minimum_version_hex: chars_to_string(&minimum),
            image_version_hex: chars_to_string(&current),
            pq_enabled: h.pq_enabled != 0,
            embedded_keys: keys,
            embedded_verification: verification,
            device_acceptance: "unknown: depends on installed keys, revocations, lifecycle, anti-rollback, and PQ policy",
        },
    )
}

/// Inspects a canonical signed Baochip baremetal UF2 without predicting whether a device
/// accepts it: preflight first, then [`inspect_image`].
pub fn inspect_bytes(bytes: &[u8]) -> (r: Result<InspectionReport, ImageError>)
    requires
        preflight_spec(bytes@) matches Ok(blocks) ==> !trampoline_missing(image_payload(blocks)),
    ensures
        match preflight_spec(bytes@) {
            Ok(blocks) => inspection_of(r, blocks),
            Err(e) => match r {
                Err(err) => err@ == e.describe(),
                Ok(_) => false,
            },
        },
{
    match preflight_bytes(bytes) {
        Ok(image) => inspect_image(&image),
        Err(e) => Err(ImageError::from_preflight(&e)),
    }
}

/// Why an inspected image may not be copied to a boot volume: its header is not compatible
/// with current boot code, or no embedded key verifies its signature.
pub open spec fn copy_refusal(r: InspectionReport) -> Option<Seq<char>> {
    if !r.compatible_header {
        Some("refusing to copy: signed header is not compatible"@)
    } else if r.embedded_verification@ is Failed {
        Some("refusing to copy: no embedded key verifies the signature"@)
    } else {
        None
    }
}

/// Checks that an inspected image may be copied to a boot volume.
pub fn check_copy_eligible(report: &InspectionReport) -> (r: Result<(), ImageError>)
    ensures
        match r {
            Ok(()) => copy_refusal(*report) is None,
            Err(e) => copy_refusal(*report) == Some(e@),
        },
{
    if !report.compatible_header {
        return Err(error_str("refusing to copy: signed header is not compatible"));
    }
    match report.embedded_verification {
        EmbeddedVerification::Failed => Err(
            error_str("refusing to copy: no embedded key verifies the signature"),
        ),
        EmbeddedVerification::Verified { .. } => Ok(()),
    }
}

/// An inspection report gives the minimum version as the lower-case hexadecimal of bytes 156
/// to 172 of the signed image (the record's `min_semver`) and the image's own version as that
/// of bytes 172 to 188 (its `semver`), two digits per byte in order.
pub proof fn law_report_versions(r: InspectionReport, image: Seq<BlockView>)
    requires
        inspection_of(Ok(r), image),
    ensures
        r.minimum_version_hex@ == hex_bytes(image_payload(image).subrange(156, 172)),
        r.image_version_hex@ == hex_bytes(image_payload(image).subrange(172, 188)),
{
}

} // verus!
