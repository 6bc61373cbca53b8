//! The decisions of a UF2 transfer over the boot1 REPL, as a state machine.
//!
//! A [`Sender`] never touches the transport itself. Each call hands back the next [`Action`]
//! (write bytes, clear pending input, read once, pause, report progress, or finish), and the
//! caller reports how the action went as an [`Event`]. The caller owns the transport, the
//! clock and the delays.

use vstd::prelude::*;

use super::ack::{ack_verdict, parse_ack, probe_reply, probe_verdict, Protocol};
use super::lines::{first_line, line_end_from, LineBuffer};
use super::wire::{
    block_command, echo_off_byte, echo_off_twice_byte, echo_on, echo_on_command, has_crc,
    has_crc_command, BlockPlan, PlanView,
};
use crate::text::{chars_to_string, has_prefix, starts_with, trim};

verus! {

#[verifier::external_type_specification]
#[verifier::external_body]
pub struct ExIoError(std::io::Error);

/// Successful command parsing reported by boot1 for every block.
///
/// A `Wrote` acknowledgment does not report RRAM persistence: stock boot1 can acknowledge a
/// failed RRAM write, because it reports that write error only on its DUART. Audit the device
/// and validate boot before treating the image as installed.
#[derive(Debug, Clone, PartialEq, Eq, Structural)]
pub struct TransferReport {
    pub protocol: Protocol,
    pub blocks: usize,
    pub retries: u32,
}

/// Why the last attempt at a block failed.
#[derive(Debug, Clone, Copy, PartialEq, Eq, Structural)]
pub enum AckFailure {
    Mismatch,
    Timeout,
}

impl AckFailure {
    /// The description of the failure.
    pub fn to_string(&self) -> (s: String)
        ensures
            s@ == (match self {
                AckFailure::Mismatch => "device returned a mismatched acknowledgment"@,
                AckFailure::Timeout => "timed out waiting for an exact acknowledgment"@,
            }),
    {
        match self {
            AckFailure::Mismatch => String::from_str("device returned a mismatched acknowledgment"),
            AckFailure::Timeout => String::from_str("timed out waiting for an exact acknowledgment"),
        }
    }
}

/// Why a transfer failed.
#[derive(Debug)]
pub enum SendError {
    InvalidRetries,
    DisableEcho(std::io::Error),
    ProbeWrite(std::io::Error),
    ProbeRead(std::io::Error),
    BlockWrite { block: usize, source: std::io::Error },
    BlockRead { block: usize, source: std::io::Error },
    /// A boot1 variant reported an in-band device write error. Stock boot1 does not report
    /// RRAM write errors on the REPL transport, so this cannot detect its persistence failures.
    DeviceWrite { block: usize, report: String },
    BlockFailed { block: usize, attempts: u32, reason: AckFailure },
    RestoreEcho(std::io::Error),
}

/// [`SendError`] with its report text as characters.
pub enum SendErrorView {
    InvalidRetries,
    DisableEcho(std::io::Error),
    ProbeWrite(std::io::Error),
    ProbeRead(std::io::Error),
    BlockWrite { block: usize, source: std::io::Error },
    BlockRead { block: usize, source: std::io::Error },
    DeviceWrite { block: usize, report: Seq<char> },
    BlockFailed { block: usize, attempts: u32, reason: AckFailure },
    RestoreEcho(std::io::Error),
}

impl View for SendError {
    type V = SendErrorView;

    open spec fn view(&self) -> SendErrorView {
        match self {
            SendError::InvalidRetries => SendErrorView::InvalidRetries,
            SendError::DisableEcho(e) => SendErrorView::DisableEcho(*e),
            SendError::ProbeWrite(e) => SendErrorView::ProbeWrite(*e),
            SendError::ProbeRead(e) => SendErrorView::ProbeRead(*e),
            SendError::BlockWrite { block, source } => SendErrorView::BlockWrite {
                block: *block,
                source: *source,
            },
            SendError::BlockRead { block, source } => SendErrorView::BlockRead {
                block: *block,
                source: *source,
            },
            SendError::DeviceWrite { block, report } => SendErrorView::DeviceWrite {
                block: *block,
                report: report@,
            },
            SendError::BlockFailed { block, attempts, reason } => SendErrorView::BlockFailed {
                block: *block,
                attempts: *attempts,
                reason: *reason,
            },
            SendError::RestoreEcho(e) => SendErrorView::RestoreEcho(*e),
        }
    }
}

/// The order in which a sender prepares the REPL.
#[derive(Debug, Clone, Copy, PartialEq, Eq, Structural)]
pub enum Handshake {
    /// Disable local echo, pause to let the port settle, then probe `has-crc`; a line starting
    /// `Write error` fails the transfer.
    EchoFirst,
    /// Probe `has-crc`, then disable local echo; probe failures leave echo untouched.
    ProbeFirst,
}

/// Which configured delay to wait.
#[derive(Debug, Clone, Copy, PartialEq, Eq, Structural)]
pub enum Delay {
    /// After disabling local echo, before negotiation.
    Settle,
    /// Between attempts at one block.
    Retry,
}

/// What the caller must do next.
#[derive(Debug)]
pub enum Action {
    /// Write all of these bytes, then flush.
    Write(Vec<u8>),
    /// Discard input the transport has already received.
    ClearInput,
    /// Read once, unless the response deadline has passed. `fresh` starts a new deadline.
    Read { fresh: bool },
    /// Wait for the given delay.
    Pause(Delay),
    /// Report that `done` of `total` blocks were acknowledged.
    Progress { done: usize, total: usize },
    /// The transfer is over.
    Finish(Result<TransferReport, SendError>),
}

/// What happened to the last action.
#[derive(Debug)]
pub enum Event {
    /// The action completed.
    Done,
    /// The transport failed.
    Failed(std::io::Error),
    /// A read returned these bytes.
    Received(Vec<u8>),
    /// A read returned nothing (no bytes, or a timed-out or would-block read).
    Quiet,
    /// The response deadline passed before the read.
    Expired,
}

pub enum ActionView {
    Write(Seq<u8>),
    ClearInput,
    Read { fresh: bool },
    Pause(Delay),
    Progress { done: usize, total: usize },
    Finish(Result<TransferReport, SendErrorView>),
}

pub open spec fn outcome_view(r: Result<TransferReport, SendError>) -> Result<
    TransferReport,
    SendErrorView,
> {
    match r {
        Ok(t) => Ok(t),
        Err(e) => Err(e@),
    }
}

impl View for Action {
    type V = ActionView;

    open spec fn view(&self) -> ActionView {
        match self {
            Action::Write(b) => ActionView::Write(b@),
            Action::ClearInput => ActionView::ClearInput,
            Action::Read { fresh } => ActionView::Read { fresh: *fresh },
            Action::Pause(d) => ActionView::Pause(*d),
            Action::Progress { done, total } => ActionView::Progress { done: *done, total: *total },
            Action::Finish(r) => ActionView::Finish(outcome_view(*r)),
        }
    }
}

/// Where a transfer stands: which action's outcome the sender waits for.
pub enum Phase {
    /// Writing byte `written` of the doubled `localecho off\r`.
    EchoOff { written: usize },
    /// Writing `localecho on\r` after disabling echo failed.
    EchoRecover { error: std::io::Error },
    Settle,
    ProbeClear,
    ProbeSend,
    ProbeRead,
    BlockClear { block: usize, attempt: u32 },
    BlockSend { block: usize, attempt: u32 },
    BlockRead { block: usize, attempt: u32 },
    RetryWait { block: usize, attempt: u32 },
    Progress { block: usize },
    /// Writing `localecho on\r` before finishing with `outcome`.
    Restore { outcome: Result<TransferReport, SendError> },
    Finished,
}

pub enum PhaseView {
    EchoOff { written: usize },
    EchoRecover { error: std::io::Error },
    Settle,
    ProbeClear,
    ProbeSend,
    ProbeRead,
    BlockClear { block: usize, attempt: u32 },
    BlockSend { block: usize, attempt: u32 },
    BlockRead { block: usize, attempt: u32 },
    RetryWait { block: usize, attempt: u32 },
    Progress { block: usize },
    Restore { outcome: Result<TransferReport, SendErrorView> },
    Finished,
}

impl View for Phase {
    type V = PhaseView;

    open spec fn view(&self) -> PhaseView {
        match self {
            Phase::EchoOff { written } => PhaseView::EchoOff { written: *written },
            Phase::EchoRecover { error } => PhaseView::EchoRecover { error: *error },
            Phase::Settle => PhaseView::Settle,
            Phase::ProbeClear => PhaseView::ProbeClear,
            Phase::ProbeSend => PhaseView::ProbeSend,
            Phase::ProbeRead => PhaseView::ProbeRead,
            Phase::BlockClear { block, attempt } => PhaseView::BlockClear {
                block: *block,
                attempt: *attempt,
            },
            Phase::BlockSend { block, attempt } => PhaseView::BlockSend {
                block: *block,
                attempt: *attempt,
            },
            Phase::BlockRead { block, attempt } => PhaseView::BlockRead {
                block: *block,
                attempt: *attempt,
            },
            Phase::RetryWait { block, attempt } => PhaseView::RetryWait {
                block: *block,
                attempt: *attempt,
            },
            Phase::Progress { block } => PhaseView::Progress { block: *block },
            Phase::Restore { outcome } => PhaseView::Restore { outcome: outcome_view(*outcome) },
            Phase::Finished => PhaseView::Finished,
        }
    }
}

/// The state of a transfer.
pub struct Sender {
    handshake: Handshake,
    retries: u32,
    plans: Vec<BlockPlan>,
    protocol: Protocol,
    retry_count: u32,
    lines: LineBuffer,
    phase: Phase,
}

pub struct SenderView {
    pub handshake: Handshake,
    pub retries: u32,
    pub plans: Seq<PlanView>,
    pub protocol: Protocol,
    pub retry_count: u32,
    pub pending: Seq<u8>,
    pub phase: PhaseView,
}

impl View for Sender {
    type V = SenderView;

    closed spec fn view(&self) -> SenderView {
        SenderView {
            handshake: self.handshake,
            retries: self.retries,
            plans: self.plans@.map_values(|p: BlockPlan| p@),
            protocol: self.protocol,
            retry_count: self.retry_count,
            pending: self.lines@,
            phase: self.phase@,
        }
    }
}

/// What a reply line says about a block.
pub enum Reply {
    Accepted,
    Mismatch,
    DeviceWrite(Seq<char>),
}

/// The verdict of one (trimmed, non-empty) reply line on the block planned as `plan`.
pub open spec fn block_line_verdict(
    handshake: Handshake,
    line: Seq<char>,
    plan: PlanView,
    protocol: Protocol,
) -> Option<Reply> {
    if handshake == Handshake::EchoFirst && has_prefix(line, "Write error"@) {
        Some(Reply::DeviceWrite(line))
    } else if has_prefix(line, "CRC error "@) {
        Some(Reply::Mismatch)
    } else {
        match ack_verdict(line, plan.payload_size, plan.address, protocol, plan.crc) {
            Some(true) => Some(Reply::Accepted),
            Some(false) => Some(Reply::Mismatch),
            None => None,
        }
    }
}

pub proof fn lemma_line_end_bounds(p: Seq<u8>, i: int)
    requires
        0 <= i,
    ensures
        line_end_from(p, i) == -1 || (i <= line_end_from(p, i) < p.len()),
    decreases p.len() - i,
{
    if i < p.len() {
        lemma_line_end_bounds(p, i + 1);
    }
}

/// Scans the complete lines of `p` for the first non-empty one with a probe verdict; returns
/// that verdict and the bytes after its line, or `None` and the unterminated rest.
pub open spec fn probe_scan(p: Seq<u8>) -> (Option<bool>, Seq<u8>)
    decreases p.len(),
{
    match first_line(p) {
        None => (None, p),
        Some((line, rest)) => {
            proof {
                lemma_line_end_bounds(p, 0);
            }
            if line.len() > 0 && probe_verdict(line) is Some {
                (probe_verdict(line), rest)
            } else {
                probe_scan(rest)
            }
        },
    }
}

/// Scans the complete lines of `p` for the first non-empty one with a verdict on the block.
pub open spec fn block_scan(handshake: Handshake, p: Seq<u8>, plan: PlanView, protocol: Protocol) -> (
    Option<Reply>,
    Seq<u8>,
)
    decreases p.len(),
{
    match first_line(p) {
        None => (None, p),
        Some((line, rest)) => {
            proof {
                lemma_line_end_bounds(p, 0);
            }
            if line.len() > 0 && block_line_verdict(handshake, line, plan, protocol) is Some {
                (block_line_verdict(handshake, line, plan, protocol), rest)
            } else {
                block_scan(handshake, rest, plan, protocol)
            }
        },
    }
}

/// Consumes the lines of `lines` until one answers the `has-crc` probe; returns its verdict,
/// leaving the bytes after that line, or `None`, leaving the unterminated rest.
pub fn scan_probe_lines(lines: &mut LineBuffer) -> (r: Option<bool>)
    ensures
        (r, final(lines)@) == probe_scan(old(lines)@),
{
    loop
        invariant
            probe_scan(lines@) == probe_scan(old(lines)@),
        decreases lines@.len(),
    {
        let ghost before = lines@;
        proof {
            lemma_line_end_bounds(before, 0);
        }
        match lines.take_line() {
            None => {
                return None;
            },
            Some(line) => {
                if line.len() > 0 {
                    let v = probe_reply(&line);
                    if v.is_some() {
                        return v;
                    }
                }
            },
        }
    }
}

/// The protocol chosen from the probe's answer: CRC acknowledgments only when boot1 answered
/// `true`; no answer or `false` keeps the legacy acknowledgments.
pub fn protocol_from_probe(answer: Option<bool>) -> (p: Protocol)
    ensures
        p == (if answer == Some(true) {
            Protocol::Crc
        } else {
            Protocol::Legacy
        }),
{
    match answer {
        Some(true) => Protocol::Crc,
        _ => Protocol::Legacy,
    }
}

/// The report of a transfer in which every block was acknowledged.
pub open spec fn report_of(s: SenderView) -> TransferReport {
    TransferReport { protocol: s.protocol, blocks: s.plans.len() as usize, retries: s.retry_count }
}

pub open spec fn with_phase(s: SenderView, phase: PhaseView) -> SenderView {
    SenderView { phase, ..s }
}

/// Writing `localecho on\r`, then finishing with `outcome`.
pub open spec fn restore(s: SenderView, outcome: Result<TransferReport, SendErrorView>) -> (
    SenderView,
    ActionView,
) {
    (with_phase(s, PhaseView::Restore { outcome }), ActionView::Write(echo_on_command()))
}

/// Starting the block at `block`, or finishing when there is none.
pub open spec fn start_block(s: SenderView, block: int) -> (SenderView, ActionView) {
    if block >= s.plans.len() {
        restore(s, Ok(report_of(s)))
    } else {
        (
            with_phase(s, PhaseView::BlockClear { block: block as usize, attempt: 1 }),
            ActionView::ClearInput,
        )
    }
}

/// Writing the first byte of the doubled `localecho off\r`.
pub open spec fn start_echo_off(s: SenderView) -> (SenderView, ActionView) {
    (
        with_phase(s, PhaseView::EchoOff { written: 0 }),
        ActionView::Write(seq![echo_off_twice_byte(0)]),
    )
}

/// After echo is off: settle (echo first), or start the blocks (probe first).
pub open spec fn after_echo_off(s: SenderView) -> (SenderView, ActionView) {
    if s.handshake == Handshake::EchoFirst {
        (with_phase(s, PhaseView::Settle), ActionView::Pause(Delay::Settle))
    } else {
        start_block(s, 0)
    }
}

/// The probe failed with `err`.
pub open spec fn probe_failed(s: SenderView, err: SendErrorView) -> (SenderView, ActionView) {
    if s.handshake == Handshake::EchoFirst {
        restore(s, Err(err))
    } else {
        (with_phase(s, PhaseView::Finished), ActionView::Finish(Err(err)))
    }
}

/// The probe chose `protocol`.
pub open spec fn negotiated(s: SenderView, protocol: Protocol) -> (SenderView, ActionView) {
    let t = SenderView { protocol, ..s };
    if s.handshake == Handshake::EchoFirst {
        start_block(t, 0)
    } else {
        start_echo_off(t)
    }
}

/// Attempt `attempt` at `block` was not acknowledged, for `reason`.
pub open spec fn attempt_failed(s: SenderView, block: usize, attempt: u32, reason: AckFailure) -> (
    SenderView,
    ActionView,
) {
    if attempt < s.retries {
        (with_phase(s, PhaseView::RetryWait { block, attempt }), ActionView::Pause(Delay::Retry))
    } else {
        restore(s, Err(SendErrorView::BlockFailed { block, attempts: attempt, reason }))
    }
}

pub open spec fn keep_reading(s: SenderView, pending: Seq<u8>) -> (SenderView, ActionView) {
    (SenderView { pending, ..s }, ActionView::Read { fresh: false })
}

/// The first state and action of a transfer.
pub open spec fn start_spec(handshake: Handshake, retries: u32, plans: Seq<PlanView>) -> (
    SenderView,
    ActionView,
) {
    let s = SenderView {
        handshake,
        retries,
        plans,
        protocol: Protocol::Legacy,
        retry_count: 0,
        pending: seq![],
        phase: PhaseView::Finished,
    };
    if retries == 0 {
        (s, ActionView::Finish(Err(SendErrorView::InvalidRetries)))
    } else if handshake == Handshake::EchoFirst {
        start_echo_off(s)
    } else {
        (with_phase(s, PhaseView::ProbeClear), ActionView::ClearInput)
    }
}

/// How the transfer moves on from `s` when the last action ended with `e`.
pub open spec fn step_spec(s: SenderView, e: Event) -> (SenderView, ActionView) {
    match s.phase {
        PhaseView::EchoOff { written } => match e {
            Event::Failed(err) => (
                with_phase(s, PhaseView::EchoRecover { error: err }),
                ActionView::Write(echo_on_command()),
            ),
            _ => if written + 1 < 28 {
                (
                    with_phase(s, PhaseView::EchoOff { written: (written + 1) as usize }),
                    ActionView::Write(seq![echo_off_twice_byte(written + 1)]),
                )
            } else {
                after_echo_off(s)
            },
        },
        PhaseView::EchoRecover { error } => (
            with_phase(s, PhaseView::Finished),
            ActionView::Finish(Err(SendErrorView::DisableEcho(error))),
        ),
        PhaseView::Settle => (with_phase(s, PhaseView::ProbeClear), ActionView::ClearInput),
        PhaseView::ProbeClear => match e {
            Event::Failed(err) => probe_failed(s, SendErrorView::ProbeWrite(err)),
            _ => (with_phase(s, PhaseView::ProbeSend), ActionView::Write(has_crc_command())),
        },
        PhaseView::ProbeSend => match e {
            Event::Failed(err) => probe_failed(s, SendErrorView::ProbeWrite(err)),
            _ => (
                SenderView { phase: PhaseView::ProbeRead, pending: seq![], ..s },
                ActionView::Read { fresh: true },
            ),
        },
        PhaseView::ProbeRead => match e {
            Event::Failed(err) => probe_failed(s, SendErrorView::ProbeRead(err)),
            Event::Expired => negotiated(s, Protocol::Legacy),
            Event::Received(bytes) => {
                let (verdict, rest) = probe_scan(s.pending + bytes@);
                match verdict {
                    Some(v) => negotiated(
                        SenderView { pending: rest, ..s },
                        if v {
                            Protocol::Crc
                        } else {
                            Protocol::Legacy
                        },
                    ),
                    None => keep_reading(s, rest),
                }
            },
            _ => keep_reading(s, s.pending),
        },
        PhaseView::BlockClear { block, attempt } => match e {
            Event::Failed(err) => restore(s, Err(SendErrorView::BlockWrite { block, source: err })),
            _ => (
                with_phase(s, PhaseView::BlockSend { block, attempt }),
                ActionView::Write(block_command(s.plans[block as int], s.protocol)),
            ),
        },
        PhaseView::BlockSend { block, attempt } => match e {
            Event::Failed(err) => restore(s, Err(SendErrorView::BlockWrite { block, source: err })),
            _ => (
                SenderView { phase: PhaseView::BlockRead { block, attempt }, pending: seq![], ..s },
                ActionView::Read { fresh: true },
            ),
        },
        PhaseView::BlockRead { block, attempt } => match e {
            Event::Failed(err) => restore(s, Err(SendErrorView::BlockRead { block, source: err })),
            Event::Expired => attempt_failed(s, block, attempt, AckFailure::Timeout),
            Event::Received(bytes) => {
                let (verdict, rest) = block_scan(
                    s.handshake,
                    s.pending + bytes@,
                    s.plans[block as int],
                    s.protocol,
                );
                let t = SenderView { pending: rest, ..s };
                match verdict {
                    Some(Reply::Accepted) => (
                        SenderView {
                            phase: PhaseView::Progress { block },
                            retry_count: (s.retry_count + attempt - 1) as u32,
                            ..t
                        },
                        ActionView::Progress { done: (block + 1) as usize, total: s.plans.len() as usize },
                    ),
                    Some(Reply::Mismatch) => attempt_failed(t, block, attempt, AckFailure::Mismatch),
                    Some(Reply::DeviceWrite(report)) => restore(
                        t,
                        Err(SendErrorView::DeviceWrite { block, report }),
                    ),
                    None => keep_reading(s, rest),
                }
            },
            _ => keep_reading(s, s.pending),
        },
        PhaseView::RetryWait { block, attempt } => (
            with_phase(s, PhaseView::BlockClear { block, attempt: (attempt + 1) as u32 }),
            ActionView::ClearInput,
        ),
        PhaseView::Progress { block } => start_block(s, block + 1),
        PhaseView::Restore { outcome } => (
            with_phase(s, PhaseView::Finished),
            ActionView::Finish(
                match e {
                    Event::Failed(err) => match outcome {
                        Ok(_) => Err(SendErrorView::RestoreEcho(err)),
                        Err(x) => Err(x),
                    },
                    _ => outcome,
                },
            ),
        ),
        PhaseView::Finished => (s, ActionView::ClearInput),
    }
}

/// The invariant of every live transfer state.
pub open spec fn wf(s: SenderView) -> bool {
    &&& s.phase !is Finished ==> s.retries >= 1
    &&& (s.retries - 1) * s.plans.len() <= u32::MAX
    &&& s.plans.len() <= usize::MAX
    &&& match s.phase {
        PhaseView::EchoOff { written } => written < 28 && s.retry_count == 0,
        PhaseView::Settle => s.retry_count == 0,
        PhaseView::ProbeClear => s.retry_count == 0,
        PhaseView::ProbeSend => s.retry_count == 0,
        PhaseView::ProbeRead => s.retry_count == 0,
        PhaseView::BlockClear { block, attempt } => block < s.plans.len() && 1 <= attempt
            <= s.retries && s.retry_count <= block * (s.retries - 1),
        PhaseView::BlockSend { block, attempt } => block < s.plans.len() && 1 <= attempt
            <= s.retries && s.retry_count <= block * (s.retries - 1),
        PhaseView::BlockRead { block, attempt } => block < s.plans.len() && 1 <= attempt
            <= s.retries && s.retry_count <= block * (s.retries - 1),
        PhaseView::RetryWait { block, attempt } => block < s.plans.len() && 1 <= attempt
            < s.retries && s.retry_count <= block * (s.retries - 1),
        PhaseView::Progress { block } => block < s.plans.len() && s.retry_count <= (block + 1) * (
        s.retries - 1),
        _ => true,
    }
}


/// What a reply line says about a block, with the device report as characters.
enum ReplyLine {
    Accepted,
    Mismatch,
    DeviceWrite(Vec<char>),
}

pub open spec fn bump_retries(retry_count: u32, block: int, attempt: u32, retries: u32) -> bool {
    retry_count + attempt - 1 <= (block + 1) * (retries - 1)
}

proof fn lemma_retry_budget(retry_count: u32, block: int, attempt: u32, retries: u32, n: int)
    requires
        retries >= 1,
        1 <= attempt <= retries,
        0 <= block < n,
        retry_count <= block * (retries - 1),
        (retries - 1) * n <= u32::MAX,
    ensures
        retry_count + attempt - 1 <= (block + 1) * (retries - 1),
        (block + 1) * (retries - 1) <= u32::MAX,
{
    assert(block * (retries - 1) + (retries - 1) == (block + 1) * (retries - 1)) by (nonlinear_arith);
    assert((block + 1) * (retries - 1) <= n * (retries - 1)) by (nonlinear_arith)
        requires
            block + 1 <= n,
            retries >= 1,
    ;
    assert(n * (retries - 1) == (retries - 1) * n) by (nonlinear_arith);
}

impl Sender {
    /// Starts a transfer of the blocks planned in `plans`, allowing `retries` attempts per
    /// block, and returns the first action.
    pub fn new(handshake: Handshake, retries: u32, plans: Vec<BlockPlan>) -> (r: (Sender, Action))
        requires
            (retries - 1) * plans@.len() <= u32::MAX,
        ensures
            (r.0@, r.1@) == start_spec(handshake, retries, plans@.map_values(|p: BlockPlan| p@)),
            wf(r.0@),
    {
        let count = plans.len();
        let mut s = Sender {
            handshake,
            retries,
            plans,
            protocol: Protocol::Legacy,
            retry_count: 0,
            lines: LineBuffer::new(),
            phase: Phase::Finished,
        };
        if retries == 0 {
            return (s, Action::Finish(Err(SendError::InvalidRetries)));
        }
        let a = match handshake {
            Handshake::EchoFirst => s.start_echo_off(),
            Handshake::ProbeFirst => {
                s.phase = Phase::ProbeClear;
                Action::ClearInput
            },
        };
        (s, a)
    }

    /// Whether the transfer has finished.
    pub fn is_finished(&self) -> (b: bool)
        ensures
            b == (self@.phase is Finished),
    {
        match self.phase {
            Phase::Finished => true,
            _ => false,
        }
    }

    fn restore(&mut self, outcome: Result<TransferReport, SendError>) -> (a: Action)
        ensures
            (final(self)@, a@) == restore(old(self)@, outcome_view(outcome)),
    {
        self.phase = Phase::Restore { outcome };
        Action::Write(echo_on())
    }

    fn report(&self) -> (r: TransferReport)
        ensures
            r == report_of(self@),
    {
        TransferReport { protocol: self.protocol, blocks: self.plans.len(), retries: self.retry_count }
    }

    fn start_block(&mut self, block: usize) -> (a: Action)
        ensures
            (final(self)@, a@) == start_block(old(self)@, block as int),
    {
        if block >= self.plans.len() {
            let report = self.report();
            self.restore(Ok(report))
        } else {
            self.phase = Phase::BlockClear { block, attempt: 1 };
            Action::ClearInput
        }
    }

    fn start_echo_off(&mut self) -> (a: Action)
        ensures
            (final(self)@, a@) == start_echo_off(old(self)@),
    {
        self.phase = Phase::EchoOff { written: 0 };
        let v = vec![echo_off_byte(0)];
        assert(v@ =~= seq![echo_off_twice_byte(0)]);
        Action::Write(v)
    }

    fn after_echo_off(&mut self) -> (a: Action)
        ensures
            (final(self)@, a@) == after_echo_off(old(self)@),
    {
        match self.handshake {
            Handshake::EchoFirst => {
                self.phase = Phase::Settle;
                Action::Pause(Delay::Settle)
            },
            Handshake::ProbeFirst => self.start_block(0),
        }
    }

    fn probe_failed(&mut self, err: SendError) -> (a: Action)
        ensures
            (final(self)@, a@) == probe_failed(old(self)@, err@),
    {
        match self.handshake {
            Handshake::EchoFirst => self.restore(Err(err)),
            Handshake::ProbeFirst => {
                self.phase = Phase::Finished;
                Action::Finish(Err(err))
            },
        }
    }

    fn negotiated(&mut self, protocol: Protocol) -> (a: Action)
        ensures
            (final(self)@, a@) == negotiated(old(self)@, protocol),
    {
        self.protocol = protocol;
        match self.handshake {
            Handshake::EchoFirst => self.start_block(0),
            Handshake::ProbeFirst => self.start_echo_off(),
        }
    }

    fn attempt_failed(&mut self, block: usize, attempt: u32, reason: AckFailure) -> (a: Action)
        ensures
            (final(self)@, a@) == attempt_failed(old(self)@, block, attempt, reason),
    {
        if attempt < self.retries {
            self.phase = Phase::RetryWait { block, attempt };
            Action::Pause(Delay::Retry)
        } else {
            self.restore(Err(SendError::BlockFailed { block, attempts: attempt, reason }))
        }
    }

    /// Consumes buffered lines until one answers the probe.
    fn scan_probe(&mut self) -> (r: Option<bool>)
        ensures
            (r, final(self)@.pending) == probe_scan(old(self)@.pending),
            final(self)@ == (SenderView { pending: final(self)@.pending, ..old(self)@ }),
    {
        scan_probe_lines(&mut self.lines)
    }

    /// The verdict of a reply line on block `block`.
    fn reply_verdict(&self, line: Vec<char>, block: usize) -> (r: Option<ReplyLine>)
        requires
            block < self@.plans.len(),
        ensures
            match block_line_verdict(self@.handshake, line@, self@.plans[block as int], self@.protocol) {
                None => r is None,
                Some(Reply::Accepted) => r matches Some(ReplyLine::Accepted),
                Some(Reply::Mismatch) => r matches Some(ReplyLine::Mismatch),
                Some(Reply::DeviceWrite(t)) => r matches Some(ReplyLine::DeviceWrite(l)) && l@ == t,
            },
    {
        let plan = &self.plans[block];
        proof {
            assert(self@.plans[block as int] == plan@);
        }
        let in_band = match self.handshake {
            Handshake::EchoFirst => starts_with(&line, "Write error"),
            Handshake::ProbeFirst => false,
        };
        if in_band {
            return Some(ReplyLine::DeviceWrite(line));
        }
        if starts_with(&line, "CRC error ") {
            return Some(ReplyLine::Mismatch);
        }
        match parse_ack(&line, plan.payload_size(), plan.address(), self.protocol, plan.crc()) {
            Some(true) => Some(ReplyLine::Accepted),
            Some(false) => Some(ReplyLine::Mismatch),
            None => None,
        }
    }

    /// Consumes buffered lines until one has a verdict on block `block`.
    fn scan_block(&mut self, block: usize) -> (r: Option<ReplyLine>)
        requires
            block < old(self)@.plans.len(),
        ensures
            final(self)@ == (SenderView { pending: final(self)@.pending, ..old(self)@ }),
            ({
                let (v, rest) = block_scan(
                    old(self)@.handshake,
                    old(self)@.pending,
                    old(self)@.plans[block as int],
                    old(self)@.protocol,
                );
                &&& final(self)@.pending == rest
                &&& match v {
                    None => r is None,
                    Some(Reply::Accepted) => r matches Some(ReplyLine::Accepted),
                    Some(Reply::Mismatch) => r matches Some(ReplyLine::Mismatch),
                    Some(Reply::DeviceWrite(t)) => r matches Some(ReplyLine::DeviceWrite(l)) && l@
                        == t,
                }
            }),
    {
        let ghost s0 = self@;
        loop
            invariant
                s0 == old(self)@,
                block < s0.plans.len(),
                self@ == (SenderView { pending: self@.pending, ..s0 }),
                block_scan(s0.handshake, self@.pending, s0.plans[block as int], s0.protocol)
                    == block_scan(s0.handshake, s0.pending, s0.plans[block as int], s0.protocol),
            decreases self@.pending.len(),
        {
            let ghost before = self@.pending;
            proof {
                lemma_line_end_bounds(before, 0);
            }
            match self.lines.take_line() {
                None => {
                    return None;
                },
                Some(line) => {
                    if line.len() > 0 {
                        let v = self.reply_verdict(line, block);
                        if v.is_some() {
                            return v;
                        }
                    }
                },
            }
        }
    }

    /// Moves the transfer on after the last action ended with `event`, and returns the next
    /// action.
    pub fn step(&mut self, event: Event) -> (a: Action)
        requires
            wf(old(self)@),
            !(old(self)@.phase is Finished),
        ensures
            (final(self)@, a@) == step_spec(old(self)@, event),
            wf(final(self)@),
    {
        let ghost s0 = self@;
        let n = self.plans.len();
        assert(n == s0.plans.len());
        let mut phase = Phase::Finished;
        core::mem::swap(&mut phase, &mut self.phase);
        let ghost s1 = self@;
        assert(s1 == with_phase(s0, PhaseView::Finished));
        match phase {
            Phase::EchoOff { written } => match event {
                Event::Failed(err) => {
                    self.phase = Phase::EchoRecover { error: err };
                    Action::Write(echo_on())
                },
                _ => {
                    if written + 1 < 28 {
                        self.phase = Phase::EchoOff { written: written + 1 };
                        let v = vec![echo_off_byte(written + 1)];
                        assert(v@ =~= seq![echo_off_twice_byte(written + 1)]);
                        Action::Write(v)
                    } else {
                        self.after_echo_off()
                    }
                },
            },
            Phase::EchoRecover { error } => {
                Action::Finish(Err(SendError::DisableEcho(error)))
            },
            Phase::Settle => {
                self.phase = Phase::ProbeClear;
                Action::ClearInput
            },
            Phase::ProbeClear => match event {
                Event::Failed(err) => self.probe_failed(SendError::ProbeWrite(err)),
                _ => {
                    self.phase = Phase::ProbeSend;
                    Action::Write(has_crc())
                },
            },
            Phase::ProbeSend => match event {
                Event::Failed(err) => self.probe_failed(SendError::ProbeWrite(err)),
                _ => {
                    self.lines.clear();
                    self.phase = Phase::ProbeRead;
                    Action::Read { fresh: true }
                },
            },
            Phase::ProbeRead => match event {
                Event::Failed(err) => self.probe_failed(SendError::ProbeRead(err)),
                Event::Expired => self.negotiated(Protocol::Legacy),
                Event::Received(bytes) => {
                    self.lines.extend(&bytes);
                    match self.scan_probe() {
                        Some(v) => self.negotiated(
                            if v {
                                Protocol::Crc
                            } else {
                                Protocol::Legacy
                            },
                        ),
                        None => {
                            self.phase = Phase::ProbeRead;
                            Action::Read { fresh: false }
                        },
                    }
                },
                _ => {
                    self.phase = Phase::ProbeRead;
                    Action::Read { fresh: false }
                },
            },
            Phase::BlockClear { block, attempt } => match event {
                Event::Failed(err) => self.restore(Err(SendError::BlockWrite { block, source: err })),
                _ => {
                    self.phase = Phase::BlockSend { block, attempt };
                    let command = self.plans[block].command(self.protocol);
                    Action::Write(command)
                },
            },
            Phase::BlockSend { block, attempt } => match event {
                Event::Failed(err) => self.restore(Err(SendError::BlockWrite { block, source: err })),
                _ => {
                    self.lines.clear();
                    self.phase = Phase::BlockRead { block, attempt };
                    Action::Read { fresh: true }
                },
            },
            Phase::BlockRead { block, attempt } => match event {
                Event::Failed(err) => self.restore(Err(SendError::BlockRead { block, source: err })),
                Event::Expired => self.attempt_failed(block, attempt, AckFailure::Timeout),
                Event::Received(bytes) => {
                    self.lines.extend(&bytes);
                    match self.scan_block(block) {
                        Some(ReplyLine::Accepted) => {
                            proof {
                                lemma_retry_budget(
                                    s0.retry_count,
                                    block as int,
                                    attempt,
                                    s0.retries,
                                    s0.plans.len() as int,
                                );
                            }
                            self.retry_count = self.retry_count + (attempt - 1);
                            self.phase = Phase::Progress { block };
                            Action::Progress { done: block + 1, total: self.plans.len() }
                        },
                        Some(ReplyLine::Mismatch) => self.attempt_failed(
                            block,
                            attempt,
                            AckFailure::Mismatch,
                        ),
                        Some(ReplyLine::DeviceWrite(report)) => {
                            let report = chars_to_string(&report);
                            self.restore(Err(SendError::DeviceWrite { block, report }))
                        },
                        None => {
                            self.phase = Phase::BlockRead { block, attempt };
                            Action::Read { fresh: false }
                        },
                    }
                },
                _ => {
                    self.phase = Phase::BlockRead { block, attempt };
                    Action::Read { fresh: false }
                },
            },
            Phase::RetryWait { block, attempt } => {
                self.phase = Phase::BlockClear { block, attempt: attempt + 1 };
                Action::ClearInput
            },
            Phase::Progress { block } => {
                assert(((block + 1) as usize) as int == block + 1);
                self.start_block(block + 1)
            },
            Phase::Restore { outcome } => {
                let result = match event {
                    Event::Failed(err) => match outcome {
                        Ok(_) => Err(SendError::RestoreEcho(err)),
                        Err(x) => Err(x),
                    },
                    _ => outcome,
                };
                Action::Finish(result)
            },
            Phase::Finished => Action::ClearInput,
        }
    }
}


/// Whether local echo may have been switched off in state `s`.
pub open spec fn echo_touched(s: SenderView) -> bool {
    match s.phase {
        PhaseView::ProbeClear => s.handshake == Handshake::EchoFirst,
        PhaseView::ProbeSend => s.handshake == Handshake::EchoFirst,
        PhaseView::ProbeRead => s.handshake == Handshake::EchoFirst,
        PhaseView::Finished => false,
        _ => true,
    }
}

/// Whether `phase` waits for the outcome of writing `localecho on\r`.
pub open spec fn restoring(phase: PhaseView) -> bool {
    phase is Restore || phase is EchoRecover
}

/// Local echo is restored on success and on failure: once echo may have been switched off, a
/// step finishes the transfer only from a state entered by writing `localecho on\r`, every step
/// into such a state writes exactly that, and every step out of it finishes.
pub proof fn law_echo_restored_before_finish(s: SenderView, e: Event)
    requires
        wf(s),
        !(s.phase is Finished),
    ensures
        (step_spec(s, e).1 is Finish && echo_touched(s)) ==> restoring(s.phase),
        (restoring(step_spec(s, e).0.phase) && !restoring(s.phase)) ==> step_spec(s, e).1
            == ActionView::Write(echo_on_command()),
        restoring(s.phase) ==> (step_spec(s, e).1 is Finish),
{
}

/// A transfer that is refused before it starts never touches echo: with zero retries the first
/// action finishes with [`SendError::InvalidRetries`], otherwise it never finishes at once.
pub proof fn law_start(handshake: Handshake, retries: u32, plans: Seq<PlanView>)
    ensures
        retries == 0 <==> (start_spec(handshake, retries, plans).1 is Finish),
        retries == 0 ==> start_spec(handshake, retries, plans).1 == ActionView::Finish(
            Err(SendErrorView::InvalidRetries),
        ),
        handshake == Handshake::EchoFirst && retries > 0 ==> start_spec(
            handshake,
            retries,
            plans,
        ).0.phase == (PhaseView::EchoOff { written: 0 }),
{
}

/// Every step keeps the transfer state well formed; in particular every attempt number stays
/// between 1 and `retries`, and a block is given up exactly at its `retries`th attempt.
pub proof fn law_attempts_bounded(s: SenderView, e: Event)
    requires
        wf(s),
        !(s.phase is Finished),
    ensures
        wf(step_spec(s, e).0),
        (step_spec(s, e).0.phase matches PhaseView::Restore {
            outcome: Err(SendErrorView::BlockFailed { attempts, .. }),
        } ==> attempts == s.retries),
{
    match s.phase {
        PhaseView::BlockRead { block, attempt } => {
            lemma_retry_budget(
                s.retry_count,
                block as int,
                attempt,
                s.retries,
                s.plans.len() as int,
            );
        },
        PhaseView::Progress { block } => {
            assert(((block + 1) as usize) as int == block + 1);
        },
        _ => {},
    }
}

/// A scan verdict comes from one of the scanned lines.
proof fn lemma_block_scan_source(handshake: Handshake, p: Seq<u8>, plan: PlanView, protocol: Protocol)
    ensures
        block_scan(handshake, p, plan, protocol).0 matches Some(v) ==> exists|line: Seq<char>|
            line.len() > 0 && #[trigger] block_line_verdict(handshake, line, plan, protocol) == Some(
                v,
            ),
    decreases p.len(),
{
    lemma_line_end_bounds(p, 0);
    match first_line(p) {
        None => {},
        Some((line, rest)) => {
            if !(line.len() > 0 && block_line_verdict(handshake, line, plan, protocol) is Some) {
                lemma_block_scan_source(handshake, rest, plan, protocol);
            }
        },
    }
}

/// Whether `line` acknowledges exactly the block planned as `plan`, and is neither a `CRC error`
/// line nor, under the echo-first handshake, a `Write error` line.
pub open spec fn exact_ack(line: Seq<char>, plan: PlanView, protocol: Protocol, handshake: Handshake) -> bool {
    &&& line.len() > 0
    &&& ack_verdict(line, plan.payload_size, plan.address, protocol, plan.crc) == Some(true)
    &&& !has_prefix(line, "CRC error "@)
    &&& handshake == Handshake::EchoFirst ==> !has_prefix(line, "Write error"@)
}

/// A block counts as delivered only on an exact acknowledgment: a step newly reaches
/// `Progress` only from reading that block, on a reply line that names exactly its payload
/// size and address (and its CRC under the CRC protocol) and is neither a `CRC error` nor,
/// under the echo-first handshake, a `Write error` line.
pub proof fn law_progress_only_on_exact_ack(s: SenderView, e: Event)
    requires
        wf(s),
        !(s.phase is Finished),
        (step_spec(s, e).0.phase is Progress),
        !(s.phase is Progress),
    ensures
        (s.phase is BlockRead),
        (e is Received),
        exists|line: Seq<char>| #[trigger]
            exact_ack(line, s.plans[s.phase->BlockRead_block as int], s.protocol, s.handshake),
{
    match s.phase {
        PhaseView::BlockRead { block, attempt } => {
            match e {
                Event::Received(bytes) => {
                    let plan = s.plans[block as int];
                    lemma_block_scan_source(s.handshake, s.pending + bytes@, plan, s.protocol);
                    let line = choose|line: Seq<char>|
                        line.len() > 0 && #[trigger] block_line_verdict(
                            s.handshake,
                            line,
                            plan,
                            s.protocol,
                        ) == Some(Reply::Accepted);
                    assert(exact_ack(line, plan, s.protocol, s.handshake));
                },
                _ => {},
            }
        },
        _ => {},
    }
}

/// A transfer succeeds only after its last block was acknowledged (or when there is no
/// block), and its report names the negotiated protocol and the number of blocks.
pub proof fn law_success_report(s: SenderView, e: Event)
    requires
        wf(s),
        !(s.phase is Finished),
        (step_spec(s, e).0.phase matches PhaseView::Restore { outcome: Ok(_) }),
        !(s.phase is Restore),
    ensures
        step_spec(s, e).0.phase == (PhaseView::Restore {
            outcome: Ok(report_of(step_spec(s, e).0)),
        }),
        report_of(step_spec(s, e).0).blocks == s.plans.len(),
        report_of(step_spec(s, e).0).protocol == step_spec(s, e).0.protocol,
        (s.plans.len() == 0 || (s.phase matches PhaseView::Progress { block } && block + 1
            == s.plans.len())),
{
}

/// The actions of a transfer in state `s` whose next action is `a`, when the action at each
/// position is answered by the event at the same position of `events`: `a`, then the actions
/// that follow, up to the finishing action or the last event.
pub open spec fn run_actions(s: SenderView, a: ActionView, events: Seq<Event>) -> Seq<ActionView>
    decreases events.len(),
{
    if a is Finish || events.len() == 0 {
        seq![a]
    } else {
        let (t, b) = step_spec(s, events[0]);
        seq![a] + run_actions(t, b, events.drop_first())
    }
}

/// The actions of a whole transfer answered by `events`, from its first action on.
pub open spec fn transfer_actions(
    handshake: Handshake,
    retries: u32,
    plans: Seq<PlanView>,
    events: Seq<Event>,
) -> Seq<ActionView> {
    let (s, a) = start_spec(handshake, retries, plans);
    run_actions(s, a, events)
}

/// Every write among `actions` succeeds: the event that answers it is no failure.
pub open spec fn writes_succeed(actions: Seq<ActionView>, events: Seq<Event>) -> bool {
    forall|j: int|
        0 <= j < actions.len() && j < events.len() && (#[trigger] actions[j]) is Write
            ==> !(events[j] is Failed)
}

/// What an echo-first transfer keeps at every step: a finishing action exactly in the
/// finished phase, and the phases that wait on `localecho on\r` entered by writing it.
pub open spec fn echo_framed(s: SenderView, a: ActionView) -> bool {
    &&& s.handshake == Handshake::EchoFirst
    &&& (a is Finish <==> s.phase is Finished)
    &&& restoring(s.phase) ==> a == ActionView::Write(echo_on_command())
}

proof fn lemma_step_echo_framed(s: SenderView, a: ActionView, e: Event)
    requires
        echo_framed(s, a),
        !(a is Finish),
    ensures
        echo_framed(step_spec(s, e).0, step_spec(s, e).1),
        step_spec(s, e).1 is Finish ==> a == ActionView::Write(echo_on_command()),
{
}

proof fn lemma_run_echo_framed(s: SenderView, a: ActionView, events: Seq<Event>)
    requires
        echo_framed(s, a),
    ensures
        run_actions(s, a, events).len() >= 1,
        run_actions(s, a, events)[0] == a,
        forall|i: int|
            1 <= i < run_actions(s, a, events).len() && (#[trigger] run_actions(
                s,
                a,
                events,
            )[i]) is Finish ==> run_actions(s, a, events)[i - 1] == ActionView::Write(
                echo_on_command(),
            ),
        forall|i: int|
            0 <= i < run_actions(s, a, events).len() - 1 ==> !((#[trigger] run_actions(
                s,
                a,
                events,
            )[i]) is Finish),
    decreases events.len(),
{
    let r = run_actions(s, a, events);
    if !(a is Finish) && events.len() > 0 {
        let (t, b) = step_spec(s, events[0]);
        lemma_step_echo_framed(s, a, events[0]);
        lemma_run_echo_framed(t, b, events.drop_first());
        let tail = run_actions(t, b, events.drop_first());
        assert(r == seq![a] + tail);
        assert forall|i: int| 1 <= i < r.len() && (#[trigger] r[i]) is Finish implies r[i - 1]
            == ActionView::Write(echo_on_command()) by {
            assert(r[i] == tail[i - 1]);
            if i >= 2 {
                assert(r[i - 1] == tail[i - 2]);
            }
        }
        assert forall|i: int| 0 <= i < r.len() - 1 implies !((#[trigger] r[i]) is Finish) by {
            if i >= 1 {
                assert(r[i] == tail[i - 1]);
            }
        }
    }
}

proof fn lemma_run_echo_off(s: SenderView, a: ActionView, events: Seq<Event>, w: int)
    requires
        0 <= w < 28,
        s.phase == (PhaseView::EchoOff { written: w as usize }),
        a == ActionView::Write(seq![echo_off_twice_byte(w)]),
        writes_succeed(run_actions(s, a, events), events),
    ensures
        forall|k: int|
            0 <= k < run_actions(s, a, events).len() && w + k < 28 ==> #[trigger] run_actions(
                s,
                a,
                events,
            )[k] == ActionView::Write(seq![echo_off_twice_byte(w + k)]),
    decreases events.len(),
{
    let r = run_actions(s, a, events);
    if events.len() > 0 {
        let (t, b) = step_spec(s, events[0]);
        let tail = run_actions(t, b, events.drop_first());
        assert(r == seq![a] + tail);
        assert(r[0] is Write);
        assert(!(events[0] is Failed));
        if w + 1 < 28 {
            assert(writes_succeed(tail, events.drop_first())) by {
                assert forall|j: int|
                    0 <= j < tail.len() && j < events.drop_first().len() && (
                    #[trigger] tail[j]) is Write implies !(events.drop_first()[j] is Failed) by {
                    assert(r[j + 1] == tail[j]);
                    assert(events.drop_first()[j] == events[j + 1]);
                }
            }
            lemma_run_echo_off(t, b, events.drop_first(), w + 1);
            assert forall|k: int| 0 <= k < r.len() && w + k < 28 implies #[trigger] r[k]
                == ActionView::Write(seq![echo_off_twice_byte(w + k)]) by {
                if k >= 1 {
                    assert(r[k] == tail[k - 1]);
                }
            }
        }
    }
}

/// Over a whole echo-first transfer (the boot1 sender), whatever the replies: when every write
/// succeeds, the first 28 actions write `localecho off\rlocalecho off\r` one byte per write,
/// before anything else (the `has-crc` probe included); and on every outcome, the transfer
/// finishes only as its last action and right after writing `localecho on\r`, so that write
/// comes after every `uf2` command.
pub proof fn law_transfer_echo_framing(retries: u32, plans: Seq<PlanView>, events: Seq<Event>)
    requires
        retries >= 1,
    ensures
        ({
            let t = transfer_actions(Handshake::EchoFirst, retries, plans, events);
            &&& writes_succeed(t, events) ==> forall|k: int|
                0 <= k < 28 && k < t.len() ==> #[trigger] t[k] == ActionView::Write(
                    seq![echo_off_twice_byte(k)],
                )
            &&& forall|i: int|
                0 <= i < t.len() && (#[trigger] t[i]) is Finish ==> i >= 1 && t[i - 1]
                    == ActionView::Write(echo_on_command())
            &&& forall|i: int| 0 <= i < t.len() - 1 ==> !((#[trigger] t[i]) is Finish)
        }),
{
    let (s, a) = start_spec(Handshake::EchoFirst, retries, plans);
    lemma_run_echo_framed(s, a, events);
    let t = run_actions(s, a, events);
    if writes_succeed(t, events) {
        lemma_run_echo_off(s, a, events, 0);
    }
    assert forall|i: int| 0 <= i < t.len() && (#[trigger] t[i]) is Finish implies i >= 1 && t[i
        - 1] == ActionView::Write(echo_on_command()) by {
        if i == 0 {
            assert(t[0] == a);
        }
    }
}

/// The retry count of a transfer only grows, and only on an acknowledged block: accepting
/// attempt `attempt` at a block adds `attempt - 1` to the count so far, every other step
/// leaves it as it was, and a transfer that completes reports the count it reached; so the
/// reported retries are the sum, over all blocks, of the attempts each took beyond its first.
pub proof fn law_retry_count_accumulates(s: SenderView, e: Event)
    requires
        wf(s),
        !(s.phase is Finished),
    ensures
        step_spec(s, e).0.retry_count >= s.retry_count,
        s.phase matches PhaseView::BlockRead { block, attempt } ==> (step_spec(s, e).1 is Progress
            ==> step_spec(s, e).0.retry_count == s.retry_count + attempt - 1),
        !(step_spec(s, e).1 is Progress) ==> step_spec(s, e).0.retry_count == s.retry_count,
        !(s.phase is Restore) ==> (step_spec(s, e).0.phase matches PhaseView::Restore {
            outcome: Ok(report),
        } ==> report.retries == step_spec(s, e).0.retry_count),
{
    if let PhaseView::BlockRead { block, attempt } = s.phase {
        lemma_retry_budget(s.retry_count, block as int, attempt, s.retries, s.plans.len() as int);
    }
}

/// The `has-crc` probe is decided by the first reply line whose trimmed text is `true` or
/// `false`: a complete line that is anything else (an echoed command, an empty line, an
/// error) is consumed and skipped, and a `true` or `false` line decides at once; without a
/// complete line there is no verdict yet and nothing is consumed.
pub proof fn law_probe_scan_skips_non_answers(p: Seq<u8>)
    ensures
        first_line(p) is None ==> probe_scan(p) == (None::<bool>, p),
        first_line(p) matches Some((line, rest)) ==> {
            &&& (trim(line) == "true"@ ==> probe_scan(p) == (Some(true), rest))
            &&& (trim(line) == "false"@ ==> probe_scan(p) == (Some(false), rest))
            &&& (trim(line) != "true"@ && trim(line) != "false"@ ==> probe_scan(p) == probe_scan(
                rest,
            ))
        },
{
    reveal_strlit("true");
    reveal_strlit("false");
    assert("true"@.len() != "false"@.len());
    if let Some((line, rest)) = first_line(p) {
        if trim(line) == "true"@ || trim(line) == "false"@ {
            assert(line.len() > 0) by {
                if line.len() == 0 {
                    assert(trim(line) =~= line);
                }
            }
        }
    }
}

} // verus!
