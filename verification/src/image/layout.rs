//! The boot contract of the Baochip baremetal slot: addresses and sizes of the signature
//! block and the image that follows it.

use vstd::prelude::*;

verus! {

/// Reserved space for the signature block at the start of the slot.
pub const SIGBLOCK_LEN: usize = 768;
/// Bytes of the signature block that the signature does not cover: the jump instruction, the
/// signature, the AAD length and the AAD.
pub const UNSIGNED_LEN: usize = 132;
/// Size of the signed header fields that follow the unsigned part.
pub const SEALED_FIELDS_LEN: usize = 372;
/// Size of the header record read from the start of the signature block.
pub const SIGNATURE_RECORD_LEN: usize = 504;
/// Size of the static-initialization record that begins the presign image.
pub const STATICS_IN_ROM_LEN: usize = 256;
/// Length of a post-quantum signature appended after the signed image.
pub const SIGNATURE_PQ_LENGTH: usize = 3856;
/// `jal x0, 256`: jumps over the static-initialization record.
pub const JUMP_INSTRUCTION: u32 = 0x1000_006f;
/// Jump at the start of the signature block, over the block itself.
pub const HEADER_JUMP: u32 = 0x3000_006f;
/// The two magic words of a signature record (`yumy`, `Bao3`, big-endian).
pub const MAGIC_WORD0: u32 = 0x7975_6d79;
pub const MAGIC_WORD1: u32 = 0x4261_6f33;
/// Function code of a baremetal image.
pub const FUNCTION_BAREMETAL: u32 = 6;
/// Signature record version accepted by current boot code.
pub const SIG_VERSION: u32 = 0x100;
/// First address of the baremetal slot.
pub const SLOT_START: u32 = 0x6006_0000;
/// First address of the kernel slot, which bounds the baremetal slot.
pub const KERNEL_START: u32 = 0x6009_fd00;
/// Load address of the first byte of code in the baremetal slot.
pub const BAREMETAL_CODE_ORIGIN: u64 = 0x6006_0400;
/// End (exclusive) of the code region of the baremetal slot.
pub const BAREMETAL_CODE_END: u64 = 0x6009_fc00;
/// Size of a post-quantum signature, as the signer appends it.
pub const PQ_SIGNATURE_SIZE: u64 = 3856;
/// RISC-V ELF machine number.
pub const EM_RISCV: u16 = 243;
/// ELF program header type of a loadable segment.
pub const PT_LOAD: u32 = 1;

/// Whether a signature record with these version fields is compatible with current boot
/// code: version `0x100`, and a corrected version that is either legacy (`0`) or `1.0.0`.
pub open spec fn compatible_versions(version: u32, corrected_version: u32) -> bool {
    version == SIG_VERSION && (corrected_version == 0 || corrected_version == 0x0100_0000)
}

pub fn is_compatible(version: u32, corrected_version: u32) -> (b: bool)
    ensures
        b == compatible_versions(version, corrected_version),
{
    version == SIG_VERSION && (corrected_version == 0 || corrected_version == 0x0100_0000)
}

} // verus!
