//! The serial UF2 sender's library: the same canonical preflight and boot1 REPL transfer,
//! with plain data types and errors that carry only a message. Its sender probes `has-crc`
//! before disabling local echo and does not look for in-band write errors.

use vstd::prelude::*;

use crate::protocol::ack::Protocol as SessionProtocol;
use crate::protocol::preflight::{
    preflight_spec, BlockView, PreflightError, BLOCK_SIZE,
};
use crate::protocol::session::{
    start_spec, wf, AckFailure, Action, Handshake, SendError as Failure, Sender,
    TransferReport as SessionReport,
};
use crate::protocol::transfer::image_plans;
use crate::protocol::wire::BlockPlan;
use crate::text::{chars_to_string, dec_str, push_chars, push_dec, push_str};

pub use crate::protocol::preflight::{BAOCHIP_FAMILY_ID, BAREMETAL_END, BAREMETAL_START};

verus! {

/// One 512-byte UF2 block.
#[derive(Debug, Clone, PartialEq, Eq)]
pub struct Uf2Block {
    pub number: u32,
    pub address: u32,
    pub payload_size: u32,
    pub bytes: [u8; BLOCK_SIZE],
}

impl View for Uf2Block {
    type V = BlockView;

    open spec fn view(&self) -> BlockView {
        BlockView {
            number: self.number,
            address: self.address,
            payload_size: self.payload_size,
            bytes: self.bytes@,
        }
    }
}

/// UF2 blocks in transfer order.
#[derive(Debug, Clone, PartialEq, Eq)]
pub struct Uf2Image {
    pub blocks: Vec<Uf2Block>,
}

impl View for Uf2Image {
    type V = Seq<BlockView>;

    open spec fn view(&self) -> Seq<BlockView> {
        self.blocks@.map_values(|b: Uf2Block| b@)
    }
}

/// A failure, described by its message.
#[derive(Debug)]
pub struct SendError(String);

impl View for SendError {
    type V = Seq<char>;

    closed spec fn view(&self) -> Seq<char> {
        self.0@
    }
}

impl SendError {
    pub fn new(message: String) -> (e: Self)
        ensures
            e@ == message@,
    {
        SendError(message)
    }

    /// The message.
    pub fn to_string(&self) -> (s: String)
        ensures
            s@ == self@,
    {
        self.0.clone()
    }
}

/// Acknowledgment format negotiated with boot1.
#[derive(Debug, Clone, Copy, PartialEq, Eq, Structural)]
pub enum Protocol {
    Legacy,
    Crc,
}

/// Outcome of a transfer in which every block was acknowledged.
#[derive(Debug, Clone, PartialEq, Eq, Structural)]
pub struct TransferReport {
    pub protocol: Protocol,
    pub blocks: usize,
    pub retries: u32,
}

pub open spec fn protocol_of(p: SessionProtocol) -> Protocol {
    match p {
        SessionProtocol::Legacy => Protocol::Legacy,
        SessionProtocol::Crc => Protocol::Crc,
    }
}

/// The report of a finished transfer, in this module's types.
pub fn report_from(r: &SessionReport) -> (t: TransferReport)
    ensures
        t.protocol == protocol_of(r.protocol),
        t.blocks == r.blocks,
        t.retries == r.retries,
{
    let protocol = match r.protocol {
        SessionProtocol::Legacy => Protocol::Legacy,
        SessionProtocol::Crc => Protocol::Crc,
    };
    TransferReport { protocol, blocks: r.blocks, retries: r.retries }
}

/// Parse and validate the canonical UF2 emitted for the baremetal slot.
///
/// Accepts and rejects exactly what [`crate::protocol::preflight_bytes`] does; a rejection
/// carries the description of the first problem found.
pub fn preflight_bytes(bytes: &[u8]) -> (r: Result<Uf2Image, SendError>)
    ensures
        match r {
            Ok(image) => preflight_spec(bytes@) == Ok::<Seq<BlockView>, PreflightError>(image@),
            Err(e) => preflight_spec(bytes@) matches Err(p) && e@ == p.describe(),
        },
{
    match crate::protocol::preflight_bytes(bytes) {
        Err(e) => Err(SendError::new(e.to_string())),
        Ok(image) => {
            let src = image.blocks();
            let n = src.len();
            let mut blocks: Vec<Uf2Block> = Vec::new();
            let mut i: usize = 0;
            while i < n
                invariant
                    n == src@.len(),
                    i <= n,
                    blocks@.len() == i,
                    forall|j: int| 0 <= j < i ==> #[trigger] blocks@[j]@ == src@[j]@,
                decreases n - i,
            {
                let b = &src[i];
                proof {
                    b.lemma_len();
                }
                let copy = Uf2Block {
                    number: b.number(),
                    address: b.address(),
                    payload_size: b.payload_size(),
                    bytes: *b.bytes(),
                };
                assert(copy@ == b@);
                blocks.push(copy);
                i = i + 1;
            }
            let out = Uf2Image { blocks };
            proof {
                assert forall|j: int| 0 <= j < n implies #[trigger] out@[j] == image@[j] by {
                    assert(out@[j] == blocks@[j]@);
                }
                assert(out@ =~= image@);
            }
            Ok(out)
        },
    }
}

/// Starts sending `image` (probe first, then disable echo), allowing `retries` attempts per
/// block; returns the sender and its first action.
pub fn start_transfer(image: &Uf2Image, retries: u32) -> (r: (Sender, Action))
    requires
        (retries - 1) * image@.len() <= u32::MAX,
    ensures
        (r.0@, r.1@) == start_spec(Handshake::ProbeFirst, retries, image_plans(image@)),
        wf(r.0@),
{
    let n = image.blocks.len();
    let mut plans: Vec<BlockPlan> = Vec::new();
    let mut i: usize = 0;
    while i < n
        invariant
            n == image.blocks@.len(),
            i <= n,
            plans@.len() == i,
            forall|j: int|
                0 <= j < i ==> #[trigger] plans@[j]@ == image_plans(image@)[j],
        decreases n - i,
    {
        let block = &image.blocks[i];
        plans.push(BlockPlan::new(&block.bytes, block.address, block.payload_size));
        i = i + 1;
    }
    assert(plans@.map_values(|p: BlockPlan| p@) =~= image_plans(image@));
    Sender::new(Handshake::ProbeFirst, retries, plans)
}

/// The text of `AckFailure`'s reason.
pub open spec fn reason_text(reason: AckFailure) -> Seq<char> {
    match reason {
        AckFailure::Mismatch => "device returned a mismatched acknowledgment"@,
        AckFailure::Timeout => "timed out waiting for an exact acknowledgment"@,
    }
}

/// The message of a failure, up to the text of the transport error it carries.
pub open spec fn failure_prefix(f: Failure) -> Seq<char> {
    match f {
        Failure::InvalidRetries => "retries must be at least 1"@,
        Failure::DisableEcho(_) => "could not disable local echo: "@,
        Failure::ProbeWrite(_) => "CRC probe failed: "@,
        Failure::ProbeRead(_) => "CRC probe read failed: "@,
        Failure::BlockWrite { block, .. } => "block "@ + dec_str(block as nat) + " write failed: "@,
        Failure::BlockRead { block, .. } => "block "@ + dec_str(block as nat) + " read failed: "@,
        Failure::DeviceWrite { block, report } => "block "@ + dec_str(block as nat)
            + " device write failed: "@ + report@,
        Failure::BlockFailed { block, attempts, reason } => "block "@ + dec_str(block as nat)
            + " failed after "@ + dec_str(attempts as nat) + " attempts: "@ + reason_text(reason),
        Failure::RestoreEcho(_) => "could not restore local echo: "@,
    }
}

/// Whether the failure carries a transport error, whose text ends its message.
pub open spec fn has_io_detail(f: Failure) -> bool {
    f is DisableEcho || f is ProbeWrite || f is ProbeRead || f is BlockWrite || f is BlockRead
        || f is RestoreEcho
}

/// Renders the `Display` text of a transport error (`ToString::to_string`); nothing is
/// claimed of the text.
#[verifier::external_body]
fn io_error_text(e: &std::io::Error) -> Vec<char> {
    e.to_string().chars().collect()
}

/// The message-only error for a failed transfer: the failure's prefix, followed by the
/// transport error's text where the failure carries one.
pub fn describe_failure(f: &Failure) -> (e: SendError)
    ensures
        has_io_detail(*f) ==> exists|t: Seq<char>| e@ == failure_prefix(*f) + t,
        !has_io_detail(*f) ==> e@ == failure_prefix(*f),
{
    let mut out: Vec<char> = Vec::new();
    let ghost mut detail: Seq<char> = seq![];
    match f {
        Failure::InvalidRetries => {
            push_str(&mut out, "retries must be at least 1");
        },
        Failure::DisableEcho(err) => {
            push_str(&mut out, "could not disable local echo: ");
            let text = io_error_text(err);
            push_chars(&mut out, &text);
            proof {
                detail = text@;
            }
        },
        Failure::ProbeWrite(err) => {
            push_str(&mut out, "CRC probe failed: ");
            let text = io_error_text(err);
            push_chars(&mut out, &text);
            proof {
                detail = text@;
            }
        },
        Failure::ProbeRead(err) => {
            push_str(&mut out, "CRC probe read failed: ");
            let text = io_error_text(err);
            push_chars(&mut out, &text);
            proof {
                detail = text@;
            }
        },
        Failure::BlockWrite { block, source } => {
            push_str(&mut out, "block ");
            push_dec(&mut out, *block as u64);
            push_str(&mut out, " write failed: ");
            let text = io_error_text(source);
            push_chars(&mut out, &text);
            proof {
                detail = text@;
            }
        },
        Failure::BlockRead { block, source } => {
            push_str(&mut out, "block ");
            push_dec(&mut out, *block as u64);
            push_str(&mut out, " read failed: ");
            let text = io_error_text(source);
            push_chars(&mut out, &text);
            proof {
                detail = text@;
            }
        },
        Failure::DeviceWrite { block, report } => {
            push_str(&mut out, "block ");
            push_dec(&mut out, *block as u64);
            push_str(&mut out, " device write failed: ");
            push_str(&mut out, report.as_str());
        },
        Failure::BlockFailed { block, attempts, reason } => {
            push_str(&mut out, "block ");
            push_dec(&mut out, *block as u64);
            push_str(&mut out, " failed after ");
            push_dec(&mut out, *attempts as u64);
            push_str(&mut out, " attempts: ");
            match reason {
                AckFailure::Mismatch => push_str(
                    &mut out,
                    "device returned a mismatched acknowledgment",
                ),
                AckFailure::Timeout => push_str(
                    &mut out,
                    "timed out waiting for an exact acknowledgment",
                ),
            }
        },
        Failure::RestoreEcho(err) => {
            push_str(&mut out, "could not restore local echo: ");
            let text = io_error_text(err);
            push_chars(&mut out, &text);
            proof {
                detail = text@;
            }
        },
    }
    assert(has_io_detail(*f) ==> out@ == failure_prefix(*f) + detail);
    SendError::new(chars_to_string(&out))
}

} // verus!
