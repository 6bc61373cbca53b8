//! Canonical UF2 preflight and the boot1 REPL transfer protocol.

pub mod ack;
pub mod lines;
pub mod preflight;
pub mod session;
pub mod transfer;
pub mod wire;

pub use preflight::{
    preflight_bytes, PreflightError, Uf2Block, Uf2Image, BAOCHIP_FAMILY_ID, BAREMETAL_END,
    BAREMETAL_START, BLOCK_SIZE,
};
