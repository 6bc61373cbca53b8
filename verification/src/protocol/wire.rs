//! The bytes the sender writes to boot1: REPL commands and encoded UF2 blocks.

use vstd::prelude::*;

use base64::engine::general_purpose::STANDARD;
use base64::Engine as _;

use super::ack::Protocol;
use crate::text::{hex_fixed, push_hex};

verus! {

/// Standard-alphabet, padded base64 encoding of `bytes`, as `base64`'s `STANDARD` engine
/// produces it.
pub uninterp spec fn base64_standard(bytes: Seq<u8>) -> Seq<u8>;

/// CRC-32 (IEEE) checksum of `bytes`, as `crc32fast::hash` computes it.
pub uninterp spec fn crc32_ieee(bytes: Seq<u8>) -> u32;

/// Calls `base64::engine::general_purpose::STANDARD.encode`; the contract claims that the
/// output bytes are a function of the input, named [`base64_standard`].
#[verifier::external_body]
fn base64_encode(bytes: &[u8]) -> (e: Vec<u8>)
    requires
        bytes@.len() <= 512,
    ensures
        e@ == base64_standard(bytes@),
{
    STANDARD.encode(bytes).into_bytes()
}

/// Calls `crc32fast::hash`; the contract claims that the checksum is a function of the
/// input, named [`crc32_ieee`].
#[verifier::external_body]
fn crc32(bytes: &[u8]) -> (c: u32)
    ensures
        c == crc32_ieee(bytes@),
{
    crc32fast::hash(bytes)
}

/// `localecho off\r`, sent byte by byte, twice, before the transfer.
pub open spec fn echo_off_command() -> Seq<u8> {
    seq![0x6c, 0x6f, 0x63, 0x61, 0x6c, 0x65, 0x63, 0x68, 0x6f, 0x20, 0x6f, 0x66, 0x66, 0x0d]
}

/// `localecho on\r`, restoring the REPL's local echo.
pub open spec fn echo_on_command() -> Seq<u8> {
    seq![0x6c, 0x6f, 0x63, 0x61, 0x6c, 0x65, 0x63, 0x68, 0x6f, 0x20, 0x6f, 0x6e, 0x0d]
}

/// `has-crc\r`, asking whether boot1 supports CRC acknowledgments.
pub open spec fn has_crc_command() -> Seq<u8> {
    seq![0x68, 0x61, 0x73, 0x2d, 0x63, 0x72, 0x63, 0x0d]
}

/// `uf2 `, the prefix of a block command.
pub open spec fn uf2_prefix() -> Seq<u8> {
    seq![0x75, 0x66, 0x32, 0x20]
}

/// Byte `i` of the echo-off sequence written twice (`localecho off\rlocalecho off\r`).
pub open spec fn echo_off_twice_byte(i: int) -> u8 {
    echo_off_command()[i % 14]
}

pub fn echo_off_byte(i: usize) -> (b: u8)
    requires
        i < 28,
    ensures
        b == echo_off_twice_byte(i as int),
{
    let table: [u8; 14] = [
        0x6c,
        0x6f,
        0x63,
        0x61,
        0x6c,
        0x65,
        0x63,
        0x68,
        0x6f,
        0x20,
        0x6f,
        0x66,
        0x66,
        0x0d,
    ];
    assert(table@ =~= echo_off_command());
    table[i % 14]
}

pub fn echo_on() -> (c: Vec<u8>)
    ensures
        c@ == echo_on_command(),
{
    let c = vec![0x6c, 0x6f, 0x63, 0x61, 0x6c, 0x65, 0x63, 0x68, 0x6f, 0x20, 0x6f, 0x6e, 0x0d];
    assert(c@ =~= echo_on_command());
    c
}

pub fn has_crc() -> (c: Vec<u8>)
    ensures
        c@ == has_crc_command(),
{
    let c = vec![0x68, 0x61, 0x73, 0x2d, 0x63, 0x72, 0x63, 0x0d];
    assert(c@ =~= has_crc_command());
    c
}

/// What the sender needs to know about one block: its base64 text, CRC and expected
/// acknowledgment.
pub struct BlockPlan {
    encoded: Vec<u8>,
    crc: u32,
    address: u32,
    payload_size: u32,
}

pub struct PlanView {
    pub encoded: Seq<u8>,
    pub crc: u32,
    pub address: u32,
    pub payload_size: u32,
}

impl View for BlockPlan {
    type V = PlanView;

    closed spec fn view(&self) -> PlanView {
        PlanView {
            encoded: self.encoded@,
            crc: self.crc,
            address: self.address,
            payload_size: self.payload_size,
        }
    }
}

/// The plan for a 512-byte block written at `address` with `payload_size` payload bytes.
pub open spec fn plan_of(bytes: Seq<u8>, address: u32, payload_size: u32) -> PlanView {
    PlanView {
        encoded: base64_standard(bytes),
        crc: crc32_ieee(bytes),
        address,
        payload_size,
    }
}

/// The command that sends a block: `uf2 <base64>\r`, or `uf2 <base64> <crc as 8 hex
/// digits>\r` under [`Protocol::Crc`].
pub open spec fn block_command(plan: PlanView, protocol: Protocol) -> Seq<u8> {
    let suffix = if protocol == Protocol::Crc {
        seq![0x20u8] + hex_fixed(plan.crc as nat, 8).map_values(|c: char| c as u8)
    } else {
        seq![]
    };
    uf2_prefix() + plan.encoded + suffix + seq![0x0du8]
}

impl BlockPlan {
    pub fn new(bytes: &[u8; 512], address: u32, payload_size: u32) -> (p: Self)
        ensures
            p@ == plan_of(bytes@, address, payload_size),
    {
        let b: &[u8] = bytes.as_slice();
        BlockPlan { encoded: base64_encode(b), crc: crc32(b), address, payload_size }
    }

    pub fn address(&self) -> (a: u32)
        ensures
            a == self@.address,
    {
        self.address
    }

    pub fn payload_size(&self) -> (p: u32)
        ensures
            p == self@.payload_size,
    {
        self.payload_size
    }

    pub fn crc(&self) -> (c: u32)
        ensures
            c == self@.crc,
    {
        self.crc
    }

    /// The command that sends this block under `protocol`.
    pub fn command(&self, protocol: Protocol) -> (c: Vec<u8>)
        ensures
            c@ == block_command(self@, protocol),
    {
        let mut c: Vec<u8> = vec![0x75, 0x66, 0x32, 0x20];
        assert(c@ =~= uf2_prefix());
        let n = self.encoded.len();
        let mut i: usize = 0;
        while i < n
            invariant
                n == self.encoded@.len(),
                i <= n,
                c@ == uf2_prefix() + self.encoded@.take(i as int),
            decreases n - i,
        {
            c.push(self.encoded[i]);
            i = i + 1;
            assert(c@ =~= uf2_prefix() + self.encoded@.take(i as int));
        }
        assert(self.encoded@.take(n as int) =~= self.encoded@);
        let ghost base = c@;
        match protocol {
            Protocol::Crc => {
                c.push(0x20);
                let mut digits: Vec<char> = Vec::new();
                push_hex(&mut digits, self.crc as u64, 8);
                let ghost hex = hex_fixed(self.crc as nat, 8);
                assert(digits@ =~= hex);
                let m = digits.len();
                let mut j: usize = 0;
                while j < m
                    invariant
                        m == digits@.len(),
                        j <= m,
                        digits@ == hex,
                        c@ == base + seq![0x20u8] + hex.take(j as int).map_values(|ch: char| ch as u8),
                    decreases m - j,
                {
                    c.push(digits[j] as u8);
                    j = j + 1;
                    assert(c@ =~= base + seq![0x20u8] + hex.take(j as int).map_values(
                        |ch: char| ch as u8,
                    ));
                }
                assert(hex.take(m as int) =~= hex);
            },
            Protocol::Legacy => {},
        }
        c.push(0x0d);
        assert(c@ =~= block_command(self@, protocol));
        c
    }
}

} // verus!
