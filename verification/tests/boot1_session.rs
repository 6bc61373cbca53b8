use std::collections::VecDeque;
use std::io::{self, Read, Write};
use std::time::{Duration, Instant};

use base64::{engine::general_purpose::STANDARD, Engine as _};

use bao_tools::protocol::ack::Protocol;
use bao_tools::protocol::preflight::{FAMILY_ID_PRESENT, MAGIC_END, MAGIC_START0, MAGIC_START1};
use bao_tools::protocol::session::{Action, Event, SendError, TransferReport};
use bao_tools::protocol::transfer::{
    start_transfer, DEFAULT_RESPONSE_TIMEOUT_MS, DEFAULT_RETRIES, DEFAULT_RETRY_DELAY_MS,
    DEFAULT_SETTLE_DELAY_MS,
};
use bao_tools::protocol::{
    preflight_bytes, PreflightError, Uf2Image, BAOCHIP_FAMILY_ID, BAREMETAL_END, BAREMETAL_START,
    BLOCK_SIZE,
};

fn block(number: u32, total: u32, address: u32) -> [u8; BLOCK_SIZE] {
    let mut bytes = [0_u8; BLOCK_SIZE];
    for (offset, value) in [
        (0, MAGIC_START0),
        (4, MAGIC_START1),
        (8, FAMILY_ID_PRESENT),
        (12, address),
        (16, 256),
        (20, number),
        (24, total),
        (28, BAOCHIP_FAMILY_ID),
        (508, MAGIC_END),
    ] {
        bytes[offset..offset + 4].copy_from_slice(&value.to_le_bytes());
    }
    bytes
}

#[derive(Default)]
struct MockBoot1 {
    crc: bool,
    fail_first_block: bool,
    in_band_write_error: bool,
    duart_only_write_error: bool,
    block_attempts: usize,
    reads: VecDeque<u8>,
    writes: Vec<u8>,
    command: Vec<u8>,
}

impl MockBoot1 {
    fn respond(&mut self, command: &str) {
        let response = if command == "has-crc" {
            if self.crc {
                "true\r\n".to_owned()
            } else {
                "unknown command\r\n".to_owned()
            }
        } else if command.starts_with("uf2 ") {
            self.block_attempts += 1;
            if self.in_band_write_error {
                let parts: Vec<_> = command.split_whitespace().collect();
                if self.crc {
                    format!("Write error\r\nWrote 256 to 0x60060000 crc {}\r\n", parts[2])
                } else {
                    "Write error\r\nWrote 256 to 0x60060000\r\n".to_owned()
                }
            } else if self.fail_first_block && self.block_attempts == 1 {
                "Wrote 255 to 0x60060000\r\n".to_owned()
            } else {
                // Stock boot1's DUART-only write error is absent from the REPL response.
                let _ = self.duart_only_write_error;
                let parts: Vec<_> = command.split_whitespace().collect();
                if self.crc {
                    format!("Wrote 256 to 0x60060000 crc {}\r\n", parts[2])
                } else {
                    "Wrote 256 to 0x60060000\r\n".to_owned()
                }
            }
        } else {
            String::new()
        };
        self.reads.extend(response.bytes());
    }
}

impl Read for MockBoot1 {
    fn read(&mut self, output: &mut [u8]) -> io::Result<usize> {
        if self.reads.is_empty() {
            return Err(io::Error::new(io::ErrorKind::TimedOut, "mock timeout"));
        }
        let count = output.len().min(self.reads.len());
        for byte in &mut output[..count] {
            *byte = self.reads.pop_front().unwrap();
        }
        Ok(count)
    }
}

impl Write for MockBoot1 {
    fn write(&mut self, input: &[u8]) -> io::Result<usize> {
        self.writes.extend_from_slice(input);
        for byte in input {
            if *byte == b'\r' {
                let command = String::from_utf8(std::mem::take(&mut self.command)).unwrap();
                self.respond(&command);
            } else {
                self.command.push(*byte);
            }
        }
        Ok(input.len())
    }

    fn flush(&mut self) -> io::Result<()> {
        Ok(())
    }
}

struct TestOptions {
    response_timeout: Duration,
    retries: u32,
}

fn test_options() -> TestOptions {
    TestOptions { response_timeout: Duration::from_millis(500), retries: 3 }
}

/// Runs the sender against the mock, performing each action (delays are zero in tests).
fn send_image(
    mock: &mut MockBoot1,
    image: &Uf2Image,
    options: &TestOptions,
) -> Result<TransferReport, SendError> {
    let (mut sender, mut action) = start_transfer(image, options.retries);
    let mut deadline = Instant::now();
    let mut buffer = [0_u8; 256];
    loop {
        let event = match action {
            Action::Finish(result) => return result,
            Action::Write(bytes) => match mock.write_all(&bytes).and_then(|()| mock.flush()) {
                Ok(()) => Event::Done,
                Err(error) => Event::Failed(error),
            },
            Action::ClearInput => {
                mock.reads.clear();
                Event::Done
            }
            Action::Read { fresh } => {
                if fresh {
                    deadline = Instant::now() + options.response_timeout;
                }
                if Instant::now() >= deadline {
                    Event::Expired
                } else {
                    match mock.read(&mut buffer) {
                        Ok(0) => Event::Quiet,
                        Ok(count) => Event::Received(buffer[..count].to_vec()),
                        Err(error)
                            if matches!(
                                error.kind(),
                                io::ErrorKind::TimedOut | io::ErrorKind::WouldBlock
                            ) =>
                        {
                            Event::Quiet
                        }
                        Err(error) => Event::Failed(error),
                    }
                }
            }
            Action::Pause(_) => Event::Done,
            Action::Progress { .. } => Event::Done,
        };
        action = sender.step(event);
    }
}

fn image() -> Uf2Image {
    preflight_bytes(&block(0, 1, BAREMETAL_START)).unwrap()
}

#[test]
fn lib_preflight_rejects_wrong_family_and_noncontiguous_blocks() {
    let mut wrong_family = block(0, 1, BAREMETAL_START);
    wrong_family[28..32].copy_from_slice(&0_u32.to_le_bytes());
    assert!(matches!(
        preflight_bytes(&wrong_family),
        Err(PreflightError::WrongFamily { .. })
    ));

    let mut bytes = block(0, 2, BAREMETAL_START).to_vec();
    bytes.extend_from_slice(&block(1, 2, BAREMETAL_START + 512));
    assert!(matches!(
        preflight_bytes(&bytes),
        Err(PreflightError::NonContiguousAddress { .. })
    ));

    let blocks_in_slot = (BAREMETAL_END - BAREMETAL_START) / 256;
    let total = blocks_in_slot + 1;
    let mut outside_slot = Vec::with_capacity(total as usize * BLOCK_SIZE);
    for number in 0..total {
        outside_slot.extend_from_slice(&block(number, total, BAREMETAL_START + number * 256));
    }
    assert!(matches!(
        preflight_bytes(&outside_slot),
        Err(PreflightError::OutsideBaremetalSlot { .. })
    ));
}

#[test]
fn lib_negotiates_crc_and_sends_exact_crc_command() {
    let raw_block = block(0, 1, BAREMETAL_START);
    let image = preflight_bytes(&raw_block).unwrap();
    let mut mock = MockBoot1 { crc: true, ..Default::default() };
    let report = send_image(&mut mock, &image, &test_options()).unwrap();
    let encoded = STANDARD.encode(raw_block);
    let crc = crc32fast::hash(&raw_block);
    let expected =
        format!("localecho off\rlocalecho off\rhas-crc\ruf2 {encoded} {crc:08x}\rlocalecho on\r");

    assert_eq!(report.protocol, Protocol::Crc);
    assert_eq!(String::from_utf8(mock.writes).unwrap(), expected);
}

#[test]
fn lib_legacy_sender_retries_mismatch_and_restores_echo() {
    let mut mock = MockBoot1 { fail_first_block: true, ..Default::default() };
    let report = send_image(&mut mock, &image(), &test_options()).unwrap();
    assert_eq!(report.protocol, Protocol::Legacy);
    assert_eq!(report.retries, 1);
    assert!(mock.writes.ends_with(b"localecho on\r"));
}

#[test]
fn lib_restores_echo_after_bounded_failure() {
    let mut mock = MockBoot1 { fail_first_block: true, ..Default::default() };
    let options = TestOptions { retries: 1, response_timeout: Duration::from_millis(1) };
    assert!(send_image(&mut mock, &image(), &options).is_err());
    assert!(mock.writes.ends_with(b"localecho on\r"));
}

#[test]
fn stock_duart_only_write_error_is_indistinguishable_from_ack() {
    let mut mock = MockBoot1 { crc: true, duart_only_write_error: true, ..Default::default() };

    let report = send_image(&mut mock, &image(), &test_options()).unwrap();

    assert_eq!(report.blocks, 1);
    assert_eq!(mock.block_attempts, 1);
}

fn assert_in_band_device_write_error(crc: bool) {
    let mut mock = MockBoot1 { crc, in_band_write_error: true, ..Default::default() };
    let error = send_image(&mut mock, &image(), &test_options()).unwrap_err();

    assert!(matches!(
        error,
        SendError::DeviceWrite {
            block: 0,
            ref report
        } if report == "Write error"
    ));
    assert_eq!(mock.block_attempts, 1);
    assert!(mock.writes.ends_with(b"localecho on\r"));
}

#[test]
fn legacy_in_band_write_error_precedes_valid_ack() {
    assert_in_band_device_write_error(false);
}

#[test]
fn crc_in_band_write_error_precedes_valid_ack() {
    assert_in_band_device_write_error(true);
}

#[test]
fn zero_retries_are_refused_before_any_write() {
    let mut mock = MockBoot1::default();
    let options = TestOptions { retries: 0, ..test_options() };
    let error = send_image(&mut mock, &image(), &options).unwrap_err();
    assert!(matches!(error, SendError::InvalidRetries));
    assert!(mock.writes.is_empty());
}

#[test]
fn a_block_acknowledged_at_the_wrong_address_fails_after_its_retries() {
    let mut bytes = block(0, 2, BAREMETAL_START).to_vec();
    bytes.extend_from_slice(&block(1, 2, BAREMETAL_START + 256));
    let image = preflight_bytes(&bytes).unwrap();

    let mut mock = MockBoot1 { crc: false, ..Default::default() };
    // The mock acknowledges 0x60060000 only, so the second block must fail after its retries.
    let error = send_image(&mut mock, &image, &test_options()).unwrap_err();
    assert!(matches!(
        error,
        SendError::BlockFailed { block: 1, attempts: 3, .. }
    ));
    assert!(mock.writes.ends_with(b"localecho on\r"));
}

#[test]
fn send_defaults_are_half_a_second_three_attempts_and_short_pauses() {
    assert_eq!(DEFAULT_RESPONSE_TIMEOUT_MS, 500);
    assert_eq!(DEFAULT_RETRIES, 3);
    assert_eq!(DEFAULT_RETRY_DELAY_MS, 100);
    assert_eq!(DEFAULT_SETTLE_DELAY_MS, 100);
}

#[test]
fn echo_is_restored_last_even_when_the_probe_read_fails() {
    let mut mock = MockBoot1 { crc: true, ..Default::default() };
    let image = image();
    let (mut sender, mut action) = start_transfer(&image, 3);
    let mut finished = None;
    let mut last_write: Vec<u8> = Vec::new();
    for _ in 0..100 {
        let event = match action {
            Action::Finish(result) => {
                finished = Some(result);
                break;
            }
            Action::Write(bytes) => {
                mock.write_all(&bytes).unwrap();
                last_write = bytes;
                Event::Done
            }
            Action::Read { .. } => Event::Failed(io::Error::new(io::ErrorKind::Other, "unplugged")),
            _ => Event::Done,
        };
        action = sender.step(event);
    }
    assert!(matches!(finished, Some(Err(SendError::ProbeRead(_)))));
    assert_eq!(last_write, b"localecho on\r");
    assert!(mock.writes.starts_with(b"localecho off\rlocalecho off\rhas-crc\r"));
}
