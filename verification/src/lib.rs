//! Host-side tooling for Baochip boot images: canonical UF2 preflight, the boot1 REPL
//! transfer protocol, and signed-image inspection and packing.

pub mod protocol;
pub mod text;
pub mod uf2send;
pub mod image;
