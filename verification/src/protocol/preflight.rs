//! Parsing and validation of the canonical baremetal UF2 image.

use vstd::prelude::*;

use crate::text::{chars_to_string, dec_str, hex_fixed, push_dec, push_hex, push_str};

verus! {

/// Size in bytes of one UF2 block.
pub const BLOCK_SIZE: usize = 512;
/// UF2 family ID of the Baochip 1x.
pub const BAOCHIP_FAMILY_ID: u32 = 0xa7d7_6373;
/// First address of the baremetal slot.
pub const BAREMETAL_START: u32 = 0x6006_0000;
/// End (exclusive) of the region a baremetal UF2 may write.
pub const BAREMETAL_END: u32 = 0x6009_fd00;

/// First UF2 start magic word (offset 0).
pub const MAGIC_START0: u32 = 0x0a32_4655;
/// Second UF2 start magic word (offset 4).
pub const MAGIC_START1: u32 = 0x9e5d_5157;
/// UF2 end magic word (offset 508).
pub const MAGIC_END: u32 = 0x0ab1_6f30;
/// The only flag word accepted: "family ID present".
pub const FAMILY_ID_PRESENT: u32 = 0x0000_2000;
/// Payload bytes carried by every canonical block.
pub const CANONICAL_PAYLOAD: u32 = 256;

/// Abstract content of a validated UF2 block.
pub struct BlockView {
    pub number: u32,
    pub address: u32,
    pub payload_size: u32,
    pub bytes: Seq<u8>,
}

/// One validated 512-byte UF2 block.
#[derive(Debug, Clone, PartialEq, Eq)]
pub struct Uf2Block {
    number: u32,
    address: u32,
    payload_size: u32,
    bytes: [u8; BLOCK_SIZE],
}

impl View for Uf2Block {
    type V = BlockView;

    closed spec fn view(&self) -> BlockView {
        BlockView {
            number: self.number,
            address: self.address,
            payload_size: self.payload_size,
            bytes: self.bytes@,
        }
    }
}

impl Uf2Block {
    /// Every block has exactly [`BLOCK_SIZE`] bytes.
    pub proof fn lemma_len(&self)
        ensures
            self@.bytes.len() == BLOCK_SIZE,
    {
    }

    pub fn number(&self) -> (n: u32)
        ensures
            n == self@.number,
    {
        self.number
    }

    pub fn address(&self) -> (a: u32)
        ensures
            a == self@.address,
    {
        self.address
    }

    pub fn payload_size(&self) -> (p: u32)
        ensures
            p == self@.payload_size,
    {
        self.payload_size
    }

    pub fn bytes(&self) -> (b: &[u8; BLOCK_SIZE])
        ensures
            b@ == self@.bytes,
    {
        &self.bytes
    }

    /// The 256 payload bytes of the block (offsets 32 to 288).
    pub fn payload(&self) -> (p: &[u8])
        ensures
            p@ == self@.bytes.subrange(32, 288),
    {
        let p = &self.bytes[32..288];
        assert(p@ =~= self.bytes@.subrange(32, 288));
        p
    }
}

/// A preflighted UF2 image: blocks in transfer order.
#[derive(Debug, Clone, PartialEq, Eq)]
pub struct Uf2Image {
    blocks: Vec<Uf2Block>,
}

impl View for Uf2Image {
    type V = Seq<BlockView>;

    closed spec fn view(&self) -> Seq<BlockView> {
        self.blocks@.map_values(|b: Uf2Block| b@)
    }
}

impl Uf2Image {
    pub fn blocks(&self) -> (b: &[Uf2Block])
        ensures
            b@.map_values(|x: Uf2Block| x@) == self@,
    {
        self.blocks.as_slice()
    }

    pub fn iter(&self) -> (it: core::slice::Iter<'_, Uf2Block>)
        ensures
            vstd::std_specs::iter::IteratorSpec::remaining(&it).unref().map_values(|x: Uf2Block| x@) == self@,
    {
        let it = self.blocks.iter();
        assert(vstd::std_specs::iter::IteratorSpec::remaining(&it).unref() =~= self.blocks@);
        it
    }

    pub fn len(&self) -> (n: usize)
        ensures
            n == self@.len(),
    {
        self.blocks.len()
    }

    pub fn is_empty(&self) -> (e: bool)
        ensures
            e == (self@.len() == 0),
    {
        self.blocks.len() == 0
    }
}

/// Why [`preflight_bytes`] rejected an image.
#[derive(Debug, Clone, PartialEq, Eq)]
pub enum PreflightError {
    InvalidSize { actual: usize },
    TooManyBlocks,
    InvalidMagic { block: usize },
    NonCanonicalFlags { block: usize, actual: u32, expected: u32 },
    WrongFamily { block: usize, actual: u32, expected: u32 },
    WrongPayloadSize { block: usize, actual: u32 },
    WrongNumbering { block: usize, number: u32, total: u32, expected_total: u32 },
    NonContiguousAddress { block: usize, actual: u32, expected: u32 },
    AddressOverflow { block: usize },
    OutsideBaremetalSlot { block: usize, start: u32, end: u32 },
}

impl PreflightError {
    /// The human-readable description of the problem.
    pub open spec fn describe(self) -> Seq<char> {
        match self {
            PreflightError::InvalidSize { actual } => "UF2 size must be a non-zero multiple of 512, got "@
                + dec_str(actual as nat),
            PreflightError::TooManyBlocks => "UF2 has too many blocks"@,
            PreflightError::InvalidMagic { block } => "block "@ + dec_str(block as nat)
                + " has invalid UF2 magic"@,
            PreflightError::NonCanonicalFlags { block, actual, expected } => "block "@ + dec_str(
                block as nat,
            ) + " has non-canonical flags 0x"@ + hex_fixed(actual as nat, 8) + ", expected 0x"@
                + hex_fixed(expected as nat, 8),
            PreflightError::WrongFamily { block, actual, expected } => "block "@ + dec_str(
                block as nat,
            ) + " family is 0x"@ + hex_fixed(actual as nat, 8) + ", expected Baochip 0x"@
                + hex_fixed(expected as nat, 8),
            PreflightError::WrongPayloadSize { block, actual } => "block "@ + dec_str(block as nat)
                + " payload is "@ + dec_str(actual as nat) + " bytes, expected canonical 256"@,
            PreflightError::WrongNumbering { block, number, total, expected_total } => "block "@
                + dec_str(block as nat) + " numbering is "@ + dec_str(number as nat) + "/"@
                + dec_str(total as nat) + ", expected "@ + dec_str(block as nat) + "/"@ + dec_str(
                expected_total as nat,
            ),
            PreflightError::NonContiguousAddress { block, actual, expected } => "block "@
                + dec_str(block as nat) + " address is 0x"@ + hex_fixed(actual as nat, 8)
                + ", expected contiguous baremetal address 0x"@ + hex_fixed(expected as nat, 8),
            PreflightError::AddressOverflow { block } => "block "@ + dec_str(block as nat)
                + " address overflows"@,
            PreflightError::OutsideBaremetalSlot { block, start, end } => "block "@ + dec_str(
                block as nat,
            ) + " range 0x"@ + hex_fixed(start as nat, 8) + "..0x"@ + hex_fixed(end as nat, 8)
                + " is outside the baremetal slot"@,
        }
    }

    /// The human-readable description of the problem.
    pub fn to_string(&self) -> (s: String)
        ensures
            s@ == self.describe(),
    {
        let mut out: Vec<char> = Vec::new();
        match self {
            PreflightError::InvalidSize { actual } => {
                push_str(&mut out, "UF2 size must be a non-zero multiple of 512, got ");
                push_dec(&mut out, *actual as u64);
            },
            PreflightError::TooManyBlocks => {
                push_str(&mut out, "UF2 has too many blocks");
            },
            PreflightError::InvalidMagic { block } => {
                push_str(&mut out, "block ");
                push_dec(&mut out, *block as u64);
                push_str(&mut out, " has invalid UF2 magic");
            },
            PreflightError::NonCanonicalFlags { block, actual, expected } => {
                push_str(&mut out, "block ");
                push_dec(&mut out, *block as u64);
                push_str(&mut out, " has non-canonical flags 0x");
                push_hex(&mut out, *actual as u64, 8);
                push_str(&mut out, ", expected 0x");
                push_hex(&mut out, *expected as u64, 8);
            },
            PreflightError::WrongFamily { block, actual, expected } => {
                push_str(&mut out, "block ");
                push_dec(&mut out, *block as u64);
                push_str(&mut out, " family is 0x");
                push_hex(&mut out, *actual as u64, 8);
                push_str(&mut out, ", expected Baochip 0x");
                push_hex(&mut out, *expected as u64, 8);
            },
            PreflightError::WrongPayloadSize { block, actual } => {
                push_str(&mut out, "block ");
                push_dec(&mut out, *block as u64);
                push_str(&mut out, " payload is ");
                push_dec(&mut out, *actual as u64);
                push_str(&mut out, " bytes, expected canonical 256");
            },
            PreflightError::WrongNumbering { block, number, total, expected_total } => {
                push_str(&mut out, "block ");
                push_dec(&mut out, *block as u64);
                push_str(&mut out, " numbering is ");
                push_dec(&mut out, *number as u64);
                push_str(&mut out, "/");
                push_dec(&mut out, *total as u64);
                push_str(&mut out, ", expected ");
                push_dec(&mut out, *block as u64);
                push_str(&mut out, "/");
                push_dec(&mut out, *expected_total as u64);
            },
            PreflightError::NonContiguousAddress { block, actual, expected } => {
                push_str(&mut out, "block ");
                push_dec(&mut out, *block as u64);
                push_str(&mut out, " address is 0x");
                push_hex(&mut out, *actual as u64, 8);
                push_str(&mut out, ", expected contiguous baremetal address 0x");
                push_hex(&mut out, *expected as u64, 8);
            },
            PreflightError::AddressOverflow { block } => {
                push_str(&mut out, "block ");
                push_dec(&mut out, *block as u64);
                push_str(&mut out, " address overflows");
            },
            PreflightError::OutsideBaremetalSlot { block, start, end } => {
                push_str(&mut out, "block ");
                push_dec(&mut out, *block as u64);
                push_str(&mut out, " range 0x");
                push_hex(&mut out, *start as u64, 8);
                push_str(&mut out, "..0x");
                push_hex(&mut out, *end as u64, 8);
                push_str(&mut out, " is outside the baremetal slot");
            },
        }
        chars_to_string(&out)
    }
}

/// Little-endian 32-bit word of `s` at byte offset `off`.
pub open spec fn le_u32(s: Seq<u8>, off: int) -> u32 {
    (s[off] + 256 * s[off + 1] + 65536 * s[off + 2] + 16777216 * s[off + 3]) as u32
}

/// The bytes of the `i`th 512-byte block of `s`.
pub open spec fn block_bytes(s: Seq<u8>, i: int) -> Seq<u8> {
    s.subrange(i * 512, i * 512 + 512)
}

/// The address at which the `i`th block of an accepted image starts.
pub open spec fn slot_address(i: int) -> int {
    BAREMETAL_START + 256 * i
}

/// The first problem with block `i` (one of `total`) whose bytes are `b`, assuming every
/// earlier block was accepted; `None` when the block is acceptable.
#[verifier::opaque]
pub open spec fn block_problem(b: Seq<u8>, i: int, total: u32) -> Option<PreflightError> {
    let flags = le_u32(b, 8);
    let address = le_u32(b, 12);
    let payload_size = le_u32(b, 16);
    let number = le_u32(b, 20);
    let block_total = le_u32(b, 24);
    let family = le_u32(b, 28);
    if le_u32(b, 0) != MAGIC_START0 || le_u32(b, 4) != MAGIC_START1 || le_u32(b, 508) != MAGIC_END {
        Some(PreflightError::InvalidMagic { block: i as usize })
    } else if flags != FAMILY_ID_PRESENT {
        Some(
            PreflightError::NonCanonicalFlags {
                block: i as usize,
                actual: flags,
                expected: FAMILY_ID_PRESENT,
            },
        )
    } else if family != BAOCHIP_FAMILY_ID {
        Some(
            PreflightError::WrongFamily {
                block: i as usize,
                actual: family,
                expected: BAOCHIP_FAMILY_ID,
            },
        )
    } else if payload_size != CANONICAL_PAYLOAD {
        Some(PreflightError::WrongPayloadSize { block: i as usize, actual: payload_size })
    } else if number != i || block_total != total {
        Some(
            PreflightError::WrongNumbering {
                block: i as usize,
                number,
                total: block_total,
                expected_total: total,
            },
        )
    } else if address != slot_address(i) {
        Some(
            PreflightError::NonContiguousAddress {
                block: i as usize,
                actual: address,
                expected: slot_address(i) as u32,
            },
        )
    } else if address + CANONICAL_PAYLOAD > BAREMETAL_END {
        Some(
            PreflightError::OutsideBaremetalSlot {
                block: i as usize,
                start: address,
                end: (address + CANONICAL_PAYLOAD) as u32,
            },
        )
    } else {
        None
    }
}

/// The problem with the first rejected block among the first `n` blocks of `s`.
pub open spec fn first_problem(s: Seq<u8>, n: nat, total: u32) -> Option<PreflightError>
    decreases n,
{
    if n == 0 {
        None
    } else {
        match first_problem(s, (n - 1) as nat, total) {
            Some(e) => Some(e),
            None => block_problem(block_bytes(s, n - 1), n - 1, total),
        }
    }
}

/// The blocks of an accepted image made of the first `n` blocks of `s`.
pub open spec fn accepted_blocks(s: Seq<u8>, n: nat) -> Seq<BlockView> {
    Seq::new(n, |i: int| accepted_block(s, i))
}

/// What preflight makes of the bytes `s`: the accepted blocks, or the first problem found.
pub open spec fn preflight_spec(s: Seq<u8>) -> Result<Seq<BlockView>, PreflightError> {
    if s.len() == 0 || s.len() % 512 != 0 {
        Err(PreflightError::InvalidSize { actual: s.len() as usize })
    } else if s.len() / 512 > u32::MAX {
        Err(PreflightError::TooManyBlocks)
    } else {
        let n = s.len() / 512;
        match first_problem(s, n, n as u32) {
            Some(e) => Err(e),
            None => Ok(accepted_blocks(s, n)),
        }
    }
}

/// The view of a preflight result.
pub open spec fn image_result_view(r: Result<Uf2Image, PreflightError>) -> Result<
    Seq<BlockView>,
    PreflightError,
> {
    match r {
        Ok(img) => Ok(img@),
        Err(e) => Err(e),
    }
}

/// Once a problem is found, it stays the first problem however many more blocks follow.
proof fn lemma_first_problem_sticks(s: Seq<u8>, k: nat, n: nat, total: u32)
    requires
        k <= n,
        first_problem(s, k, total) is Some,
    ensures
        first_problem(s, n, total) == first_problem(s, k, total),
    decreases n - k,
{
    if k < n {
        lemma_first_problem_sticks(s, k, (n - 1) as nat, total);
    }
}

/// The little-endian word at `offset`.
pub(crate) fn word(bytes: &[u8], offset: usize) -> (w: u32)
    requires
        offset + 4 <= bytes@.len(),
    ensures
        w == le_u32(bytes@, offset as int),
{
    let b0 = bytes[offset] as u32;
    let b1 = bytes[offset + 1] as u32;
    let b2 = bytes[offset + 2] as u32;
    let b3 = bytes[offset + 3] as u32;
    b0 + 256 * b1 + 65536 * b2 + 16777216 * b3
}

/// Copies the 512 bytes of `bytes` starting at `base` into a block buffer.
fn copy_block(bytes: &[u8], base: usize) -> (out: [u8; BLOCK_SIZE])
    requires
        base + 512 <= bytes@.len(),
    ensures
        out@ == bytes@.subrange(base as int, base + 512),
{
    let n = bytes.len();
    let mut out = [0u8; BLOCK_SIZE];
    let mut i: usize = 0;
    while i < BLOCK_SIZE
        invariant
            i <= BLOCK_SIZE,
            base + 512 <= bytes@.len(),
            n == bytes@.len(),
            out@.len() == BLOCK_SIZE,
            forall|j: int| 0 <= j < i ==> out@[j] == bytes@[base + j],
        decreases BLOCK_SIZE - i,
    {
        out[i] = bytes[base + i];
        i = i + 1;
    }
    assert(out@ =~= bytes@.subrange(base as int, base + 512));
    out
}

/// The view of the block at `index` when it is accepted.
pub open spec fn accepted_block(s: Seq<u8>, i: int) -> BlockView {
    BlockView {
        number: i as u32,
        address: slot_address(i) as u32,
        payload_size: CANONICAL_PAYLOAD,
        bytes: block_bytes(s, i),
    }
}

/// Checks the block at `index`, whose expected address is `expected_address`.
fn check_block(bytes: &[u8], index: usize, expected_total: u32, expected_address: u32) -> (r: Result<
    Uf2Block,
    PreflightError,
>)
    requires
        (index + 1) * 512 <= bytes@.len(),
        index < expected_total,
        expected_address == slot_address(index as int),
        expected_address <= BAREMETAL_END,
    ensures
        match r {
            Ok(block) => block_problem(block_bytes(bytes@, index as int), index as int, expected_total)
                is None && block@ == accepted_block(bytes@, index as int) && expected_address + 256
                <= BAREMETAL_END,
            Err(e) => block_problem(block_bytes(bytes@, index as int), index as int, expected_total)
                == Some(e),
        },
{
    reveal(block_problem);
    let base = index * BLOCK_SIZE;
    let ghost s = bytes@;
    let ghost b = block_bytes(s, index as int);
    assert forall|k: int| 0 <= k < 512 implies b[k] == s[base + k] by {}
    let m0 = word(bytes, base);
    let m1 = word(bytes, base + 4);
    let m2 = word(bytes, base + 508);
    let flags = word(bytes, base + 8);
    let address = word(bytes, base + 12);
    let payload_size = word(bytes, base + 16);
    let number = word(bytes, base + 20);
    let total = word(bytes, base + 24);
    let family = word(bytes, base + 28);
    assert(m0 == le_u32(b, 0) && m1 == le_u32(b, 4) && m2 == le_u32(b, 508));
    assert(flags == le_u32(b, 8) && address == le_u32(b, 12) && payload_size == le_u32(b, 16));
    assert(number == le_u32(b, 20) && total == le_u32(b, 24) && family == le_u32(b, 28));
    if m0 != MAGIC_START0 || m1 != MAGIC_START1 || m2 != MAGIC_END {
        return Err(PreflightError::InvalidMagic { block: index });
    }
    if flags != FAMILY_ID_PRESENT {
        return Err(
            PreflightError::NonCanonicalFlags {
                block: index,
                actual: flags,
                expected: FAMILY_ID_PRESENT,
            },
        );
    }
    if family != BAOCHIP_FAMILY_ID {
        return Err(
            PreflightError::WrongFamily {
                block: index,
                actual: family,
                expected: BAOCHIP_FAMILY_ID,
            },
        );
    }
    if payload_size != CANONICAL_PAYLOAD {
        return Err(PreflightError::WrongPayloadSize { block: index, actual: payload_size });
    }
    if number != index as u32 || total != expected_total {
        return Err(
            PreflightError::WrongNumbering { block: index, number, total, expected_total },
        );
    }
    if address != expected_address {
        return Err(
            PreflightError::NonContiguousAddress {
                block: index,
                actual: address,
                expected: expected_address,
            },
        );
    }
    let end = match address.checked_add(payload_size) {
        None => {
            return Err(PreflightError::AddressOverflow { block: index });
        },
        Some(end) => end,
    };
    if address < BAREMETAL_START || end > BAREMETAL_END {
        return Err(PreflightError::OutsideBaremetalSlot { block: index, start: address, end });
    }
    Ok(Uf2Block { number, address, payload_size, bytes: copy_block(bytes, base) })
}

/// Parse and validate the canonical UF2 emitted for the baremetal slot.
///
/// The input is accepted exactly when it is a non-empty sequence of 512-byte blocks, each with
/// the UF2 magic words, the family-ID flag alone, the Baochip family, a 256-byte payload, block
/// number `i` of the right total, and address `BAREMETAL_START + 256 * i` with the payload
/// ending inside the slot. Otherwise the problem of the first rejected block is returned.
pub fn preflight_bytes(bytes: &[u8]) -> (r: Result<Uf2Image, PreflightError>)
    ensures
        image_result_view(r) == preflight_spec(bytes@),
{
    let len = bytes.len();
    if len == 0 || len % BLOCK_SIZE != 0 {
        return Err(PreflightError::InvalidSize { actual: len });
    }
    let count = len / BLOCK_SIZE;
    if count > 0xffff_ffff {
        return Err(PreflightError::TooManyBlocks);
    }
    let expected_total = count as u32;
    let ghost s = bytes@;
    let mut blocks: Vec<Uf2Block> = Vec::with_capacity(count);
    let mut expected_address: u32 = BAREMETAL_START;
    let mut index: usize = 0;
    while index < count
        invariant
            s == bytes@,
            len == s.len(),
            count == len / 512,
            len % 512 == 0,
            count <= u32::MAX,
            expected_total == count,
            index <= count,
            expected_address == slot_address(index as int),
            expected_address <= BAREMETAL_END,
            first_problem(s, index as nat, expected_total) is None,
            blocks@.map_values(|b: Uf2Block| b@) == accepted_blocks(s, index as nat),
        decreases count - index,
    {
        let checked = check_block(bytes, index, expected_total, expected_address);
        assert(first_problem(s, (index + 1) as nat, expected_total) == block_problem(
            block_bytes(s, index as int),
            index as int,
            expected_total,
        ));
        match checked {
            Err(e) => {
                proof {
                    lemma_first_problem_sticks(s, (index + 1) as nat, count as nat, expected_total);
                }
                return Err(e);
            },
            Ok(block) => {
                let ghost before = blocks@;
                blocks.push(block);
                assert(blocks@.map_values(|b: Uf2Block| b@) =~= accepted_blocks(
                    s,
                    (index + 1) as nat,
                )) by {
                    assert(blocks@ == before.push(block));
                    assert(before.map_values(|b: Uf2Block| b@).len() == index);
                    assert(before.len() == index);
                    assert(blocks@[index as int]@ == accepted_block(s, index as int));
                    assert(before.map_values(|b: Uf2Block| b@) == accepted_blocks(s, index as nat));
                    assert forall|j: int| 0 <= j < index + 1 implies #[trigger] blocks@[j]@
                        == accepted_block(s, j) by {
                        if j < index {
                            assert(before.map_values(|b: Uf2Block| b@)[j] == accepted_block(s, j));
                        }
                    }
                }
            },
        }
        expected_address = expected_address + CANONICAL_PAYLOAD;
        index = index + 1;
    }
    let image = Uf2Image { blocks };
    assert(image@ =~= accepted_blocks(s, count as nat));
    Ok(image)
}


/// The byte contents of the blocks `blocks`, in order.
pub open spec fn block_contents(blocks: Seq<BlockView>) -> Seq<Seq<u8>> {
    blocks.map_values(|b: BlockView| b.bytes)
}

proof fn lemma_contents_prefix(s: Seq<u8>, k: nat)
    requires
        k * 512 <= s.len(),
    ensures
        block_contents(accepted_blocks(s, k)).flatten_alt() == s.take(k * 512 as int),
    decreases k,
{
    if k > 0 {
        let c = block_contents(accepted_blocks(s, k));
        let prev = block_contents(accepted_blocks(s, (k - 1) as nat));
        assert(c.drop_last() =~= prev);
        lemma_contents_prefix(s, (k - 1) as nat);
        assert(c.last() == block_bytes(s, k - 1));
        assert(s.take((k - 1) * 512) + block_bytes(s, k - 1) =~= s.take(k * 512 as int));
    } else {
        assert(block_contents(accepted_blocks(s, k)) =~= Seq::<Seq<u8>>::empty());
        assert(s.take(0) =~= Seq::<u8>::empty());
    }
}

proof fn lemma_no_problem_before(s: Seq<u8>, n: nat, total: u32, i: nat)
    requires
        i < n,
        first_problem(s, n, total) is None,
    ensures
        block_problem(block_bytes(s, i as int), i as int, total) is None,
        first_problem(s, (i + 1) as nat, total) is None,
    decreases n,
{
    if i + 1 < n {
        lemma_no_problem_before(s, (n - 1) as nat, total, i);
    }
}

/// Preflight loses nothing: the blocks of an accepted image, concatenated, are exactly the
/// input bytes.
pub proof fn law_accepted_image_is_input(s: Seq<u8>)
    ensures
        preflight_spec(s) matches Ok(blocks) ==> block_contents(blocks).flatten() == s,
{
    if let Ok(blocks) = preflight_spec(s) {
        let n = s.len() / 512;
        lemma_contents_prefix(s, n);
        block_contents(blocks).lemma_flatten_and_flatten_alt_are_equivalent();
        assert(s.take(n * 512 as int) =~= s);
    }
}

/// An accepted image fits the baremetal slot: block `i` is numbered `i`, carries 256 bytes at
/// `BAREMETAL_START + 256 * i`, and the last block ends at or below `BAREMETAL_END`; so an
/// accepted image has at most 1021 blocks.
pub proof fn law_accepted_image_fits_slot(s: Seq<u8>)
    ensures
        preflight_spec(s) matches Ok(blocks) ==> {
            &&& blocks.len() > 0
            &&& BAREMETAL_START + 256 * blocks.len() <= BAREMETAL_END
            &&& blocks.len() <= 1021
            &&& forall|i: int|
                0 <= i < blocks.len() ==> #[trigger] blocks[i].number == i && blocks[i].address
                    == BAREMETAL_START + 256 * i && blocks[i].payload_size == CANONICAL_PAYLOAD
        },
{
    if let Ok(blocks) = preflight_spec(s) {
        let n = s.len() / 512;
        lemma_no_problem_before(s, n, n as u32, (n - 1) as nat);
        reveal(block_problem);
    }
}

} // verus!
