//! Signed Baochip baremetal images: inspection of signed UF2s, packing of Zephyr ELFs into the
//! presign format, boot-volume selection and copying, and the checks made before signing.

pub mod copy;
pub mod elf;
pub mod error;
pub mod header;
pub mod inspect;
pub mod layout;
pub mod mounts;
pub mod sign;

pub use copy::{CopyAction, CopyEvent, CopySession};
pub use elf::{pack_elf_bytes, PackedImage};
pub use error::ImageError;
pub use inspect::{inspect_bytes, EmbeddedKey, EmbeddedVerification, InspectionReport};
pub use layout::{BAREMETAL_CODE_END, BAREMETAL_CODE_ORIGIN};
pub use mounts::{collect_mounts, select_mount_index, BlockDevice, MountCandidate, TargetRequest};
pub use sign::{check_pq_fits, check_sign_request, parse_versions, SignRequest, SignVersions};
