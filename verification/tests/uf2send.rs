use std::collections::VecDeque;
use std::io::{self, Read, Write};
use std::time::{Duration, Instant};

use bao_tools::protocol::preflight::{FAMILY_ID_PRESENT, MAGIC_END, MAGIC_START0, MAGIC_START1};
use bao_tools::protocol::session::{Action, Event};
use bao_tools::uf2send::{
    describe_failure, preflight_bytes, report_from, start_transfer, Protocol, SendError,
    TransferReport, Uf2Image, BAOCHIP_FAMILY_ID, BAREMETAL_END, BAREMETAL_START,
};

const BLOCK_SIZE: usize = 512;

fn block(number: u32, total: u32, address: u32) -> [u8; BLOCK_SIZE] {
    let mut bytes = [0_u8; BLOCK_SIZE];
    for (offset, value) in [
        (0, MAGIC_START0),
        (4, MAGIC_START1),
        (8, FAMILY_ID_PRESENT),
        (12, address),
        (16, 256),
        (20, number),
        (24, total),
        (28, BAOCHIP_FAMILY_ID),
        (508, MAGIC_END),
    ] {
        bytes[offset..offset + 4].copy_from_slice(&value.to_le_bytes());
    }
    bytes
}

#[derive(Default)]
struct MockBoot1 {
    crc: bool,
    fail_first_block: bool,
    block_attempts: usize,
    reads: VecDeque<u8>,
    writes: Vec<u8>,
    command: Vec<u8>,
}

impl MockBoot1 {
    fn respond(&mut self, command: &str) {
        let response = if command == "has-crc" {
            if self.crc {
                "true\r\n".to_owned()
            } else {
                "unknown command\r\n".to_owned()
            }
        } else if command.starts_with("uf2 ") {
            self.block_attempts += 1;
            if self.fail_first_block && self.block_attempts == 1 {
                "Wrote 255 to 0x60060000\r\n".to_owned()
            } else {
                let parts: Vec<_> = command.split_whitespace().collect();
                if self.crc {
                    format!("Wrote 256 to 0x60060000 crc {}\r\n", parts[2])
                } else {
                    "Wrote 256 to 0x60060000\r\n".to_owned()
                }
            }
        } else {
            String::new()
        };
        self.reads.extend(response.bytes());
    }
}

impl Read for MockBoot1 {
    fn read(&mut self, output: &mut [u8]) -> io::Result<usize> {
        if self.reads.is_empty() {
            return Err(io::Error::new(io::ErrorKind::TimedOut, "mock timeout"));
        }
        let count = output.len().min(self.reads.len());
        for byte in &mut output[..count] {
            *byte = self.reads.pop_front().unwrap();
        }
        Ok(count)
    }
}

impl Write for MockBoot1 {
    fn write(&mut self, input: &[u8]) -> io::Result<usize> {
        self.writes.extend_from_slice(input);
        for byte in input {
            if *byte == b'\r' {
                let command = String::from_utf8(std::mem::take(&mut self.command)).unwrap();
                self.respond(&command);
            } else {
                self.command.push(*byte);
            }
        }
        Ok(input.len())
    }

    fn flush(&mut self) -> io::Result<()> {
        Ok(())
    }
}

struct SendOptions {
    response_timeout: Duration,
    retries: u32,
}

impl Default for SendOptions {
    fn default() -> Self {
        SendOptions { response_timeout: Duration::from_millis(500), retries: 3 }
    }
}

/// Runs the probe-first sender against the mock (delays are skipped).
fn send_image(
    mock: &mut MockBoot1,
    image: &Uf2Image,
    options: &SendOptions,
) -> Result<TransferReport, SendError> {
    let (mut sender, mut action) = start_transfer(image, options.retries);
    let mut deadline = Instant::now();
    let mut buffer = [0_u8; 256];
    loop {
        let event = match action {
            Action::Finish(Ok(report)) => return Ok(report_from(&report)),
            Action::Finish(Err(failure)) => return Err(describe_failure(&failure)),
            Action::Write(bytes) => match mock.write_all(&bytes).and_then(|()| mock.flush()) {
                Ok(()) => Event::Done,
                Err(error) => Event::Failed(error),
            },
            Action::ClearInput => {
                mock.reads.clear();
                Event::Done
            }
            Action::Read { fresh } => {
                if fresh {
                    deadline = Instant::now() + options.response_timeout;
                }
                if Instant::now() >= deadline {
                    Event::Expired
                } else {
                    match mock.read(&mut buffer) {
                        Ok(0) => Event::Quiet,
                        Ok(count) => Event::Received(buffer[..count].to_vec()),
                        Err(error)
                            if matches!(
                                error.kind(),
                                io::ErrorKind::TimedOut | io::ErrorKind::WouldBlock
                            ) =>
                        {
                            Event::Quiet
                        }
                        Err(error) => Event::Failed(error),
                    }
                }
            }
            Action::Pause(_) => Event::Done,
            Action::Progress { .. } => Event::Done,
        };
        action = sender.step(event);
    }
}

fn image() -> Uf2Image {
    preflight_bytes(&block(0, 1, BAREMETAL_START)).unwrap()
}

#[test]
fn preflight_rejects_wrong_family_and_noncontiguous_blocks() {
    let mut wrong_family = block(0, 1, BAREMETAL_START);
    wrong_family[28..32].copy_from_slice(&0_u32.to_le_bytes());
    assert!(
        preflight_bytes(&wrong_family)
            .unwrap_err()
            .to_string()
            .contains("family")
    );

    let mut bytes = block(0, 2, BAREMETAL_START).to_vec();
    bytes.extend_from_slice(&block(1, 2, BAREMETAL_START + 512));
    assert!(
        preflight_bytes(&bytes)
            .unwrap_err()
            .to_string()
            .contains("contiguous")
    );

    let blocks_in_slot = (BAREMETAL_END - BAREMETAL_START) / 256;
    let total = blocks_in_slot + 1;
    let mut outside_slot = Vec::with_capacity(total as usize * BLOCK_SIZE);
    for number in 0..total {
        outside_slot.extend_from_slice(&block(number, total, BAREMETAL_START + number * 256));
    }
    assert!(
        preflight_bytes(&outside_slot)
            .unwrap_err()
            .to_string()
            .contains("baremetal slot")
    );
}

#[test]
fn negotiates_crc_and_sends_exact_crc_command() {
    let mut mock = MockBoot1 { crc: true, ..Default::default() };
    let report = send_image(&mut mock, &image(), &SendOptions::default()).unwrap();
    let writes = String::from_utf8(mock.writes).unwrap();
    assert_eq!(report.protocol, Protocol::Crc);
    assert!(writes.contains("uf2 "));
    assert!(writes.ends_with("localecho on\r"));
}

#[test]
fn legacy_sender_retries_mismatch_and_restores_echo() {
    let mut mock = MockBoot1 { fail_first_block: true, ..Default::default() };
    let options = SendOptions::default();
    let report = send_image(&mut mock, &image(), &options).unwrap();
    assert_eq!(report.protocol, Protocol::Legacy);
    assert_eq!(report.retries, 1);
    assert!(mock.writes.ends_with(b"localecho on\r"));
}

#[test]
fn restores_echo_after_bounded_failure() {
    let mut mock = MockBoot1 { fail_first_block: true, ..Default::default() };
    let options = SendOptions { retries: 1, response_timeout: Duration::from_millis(1) };
    assert!(send_image(&mut mock, &image(), &options).is_err());
    assert!(mock.writes.ends_with(b"localecho on\r"));
}

#[test]
fn probe_comes_before_echo_is_disabled() {
    let mut mock = MockBoot1 { crc: true, ..Default::default() };
    send_image(&mut mock, &image(), &SendOptions::default()).unwrap();
    let writes = String::from_utf8(mock.writes).unwrap();
    assert!(writes.starts_with("has-crc\rlocalecho off\rlocalecho off\ruf2 "));
}

#[test]
fn bounded_failure_message_names_block_attempts_and_reason() {
    let mut mock = MockBoot1 { fail_first_block: true, ..Default::default() };
    let options = SendOptions { retries: 1, response_timeout: Duration::from_millis(1) };
    let error = send_image(&mut mock, &image(), &options).unwrap_err();
    assert_eq!(
        error.to_string(),
        "block 0 failed after 1 attempts: device returned a mismatched acknowledgment"
    );
}

#[test]
fn transport_error_text_ends_the_failure_message() {
    let failure = bao_tools::protocol::session::SendError::BlockWrite {
        block: 2,
        source: io::Error::new(io::ErrorKind::Other, "port vanished"),
    };
    assert_eq!(describe_failure(&failure).to_string(), "block 2 write failed: port vanished");
}

#[test]
fn preflight_keeps_block_fields_and_bytes() {
    let raw = block(0, 1, BAREMETAL_START);
    let image = preflight_bytes(&raw).unwrap();
    assert_eq!(image.blocks.len(), 1);
    assert_eq!(image.blocks[0].number, 0);
    assert_eq!(image.blocks[0].address, BAREMETAL_START);
    assert_eq!(image.blocks[0].payload_size, 256);
    assert_eq!(image.blocks[0].bytes, raw);
}
