# bao_tools

Host-side tooling for Baochip 1x baremetal boot images, verified with Verus.

- `src/protocol/` — canonical UF2 preflight (`preflight.rs`), the boot1 REPL wire format
  (`wire.rs`), acknowledgment parsing (`ack.rs`), line splitting (`lines.rs`) and the
  transfer itself as a state machine (`session.rs`, `transfer.rs`): the caller performs each
  action (write, clear input, read, pause, report progress) and reports how it went.
- `src/uf2send.rs` — the serial sender's variant: plain data types, message-only errors,
  probe before disabling local echo.
- `src/image/` — signed images: the signature record and its signature checks
  (`header.rs`, `inspect.rs`), packing of a Zephyr ELF into the presign format (`elf.rs`),
  boot-volume discovery and selection (`mounts.rs`), the copy decisions (`copy.rs`) and the
  checks made before signing (`sign.rs`).
- `src/text.rs` — the small text algebra the messages are built from.
- `app/` — the command lines and everything that touches files, serial ports, processes
  and clocks.
