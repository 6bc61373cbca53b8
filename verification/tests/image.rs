use std::mem::size_of;
use std::path::PathBuf;

use bao1x_api::signatures::{FunctionCode, SignatureInFlash, SIGBLOCK_LEN, UNSIGNED_LEN};
use bao1x_api::JUMP_INSTRUCTION;
use ed25519_dalek::{DigestSigner, Signature, Signer, SigningKey};
use goblin::elf::header::EM_RISCV;
use sha2::{Digest, Sha256, Sha512};

use bao_tools::image::copy::{CopyAction, CopyEvent, CopySession};
use bao_tools::image::elf::{pack_elf_bytes, PackedImage};
use bao_tools::image::inspect::{inspect_bytes, EmbeddedVerification};
use bao_tools::image::layout::{is_compatible, KERNEL_START, SLOT_START};
use bao_tools::image::mounts::{
    collect_mounts, select_mount_index, BlockDevice, MountCandidate, TargetRequest,
};
use bao_tools::image::sign::{
    check_pq_fits, check_sign_request, parse_versions, semver_parse_would_panic, SignRequest,
};
use bao_tools::image::{ImageError, BAREMETAL_CODE_END, BAREMETAL_CODE_ORIGIN};
use bao_tools::protocol::{BAOCHIP_FAMILY_ID, BAREMETAL_START};

const HEADER_JUMP: u32 = 0x3000_006f;

fn elf32(segments: &[(u32, u32, &[u8])], entry: u32) -> Vec<u8> {
    const HEADER_SIZE: usize = 52;
    const PROGRAM_HEADER_SIZE: usize = 32;

    let data_offset = HEADER_SIZE + PROGRAM_HEADER_SIZE * segments.len();
    let mut elf = vec![0; data_offset];
    let mut headers = Vec::new();

    for (virtual_address, physical_address, bytes) in segments {
        let offset = elf.len() as u32;
        elf.extend_from_slice(bytes);
        headers.extend_from_slice(&1_u32.to_le_bytes());
        headers.extend_from_slice(&offset.to_le_bytes());
        headers.extend_from_slice(&virtual_address.to_le_bytes());
        headers.extend_from_slice(&physical_address.to_le_bytes());
        headers.extend_from_slice(&(bytes.len() as u32).to_le_bytes());
        headers.extend_from_slice(&(bytes.len() as u32).to_le_bytes());
        headers.extend_from_slice(&5_u32.to_le_bytes());
        headers.extend_from_slice(&4_u32.to_le_bytes());
    }

    elf[0..4].copy_from_slice(b"\x7fELF");
    elf[4..7].copy_from_slice(&[1, 1, 1]);
    elf[16..18].copy_from_slice(&2_u16.to_le_bytes());
    elf[18..20].copy_from_slice(&EM_RISCV.to_le_bytes());
    elf[20..24].copy_from_slice(&1_u32.to_le_bytes());
    elf[24..28].copy_from_slice(&entry.to_le_bytes());
    elf[28..32].copy_from_slice(&(HEADER_SIZE as u32).to_le_bytes());
    elf[40..42].copy_from_slice(&(HEADER_SIZE as u16).to_le_bytes());
    elf[42..44].copy_from_slice(&(PROGRAM_HEADER_SIZE as u16).to_le_bytes());
    elf[44..46].copy_from_slice(&(segments.len() as u16).to_le_bytes());
    elf[HEADER_SIZE..data_offset].copy_from_slice(&headers);
    elf
}

fn pack(bytes: &[u8]) -> Result<Vec<u8>, ImageError> {
    let packed: PackedImage = pack_elf_bytes(bytes)?;
    Ok(packed.packed)
}

/// Wraps `image` (a signature block followed by the signed image) into canonical UF2 blocks.
fn uf2_of(image: &[u8]) -> Vec<u8> {
    let blocks = image.len().div_ceil(256) as u32;
    let mut uf2 = Vec::with_capacity(blocks as usize * 512);
    for number in 0..blocks {
        let mut block = [0; 512];
        block[0..4].copy_from_slice(&0x0a32_4655_u32.to_le_bytes());
        block[4..8].copy_from_slice(&0x9e5d_5157_u32.to_le_bytes());
        block[8..12].copy_from_slice(&0x2000_u32.to_le_bytes());
        block[12..16].copy_from_slice(&(BAREMETAL_START + number * 256).to_le_bytes());
        block[16..20].copy_from_slice(&256_u32.to_le_bytes());
        block[20..24].copy_from_slice(&number.to_le_bytes());
        block[24..28].copy_from_slice(&blocks.to_le_bytes());
        block[28..32].copy_from_slice(&BAOCHIP_FAMILY_ID.to_le_bytes());
        let start = number as usize * 256;
        let end = (start + 256).min(image.len());
        block[32..32 + end - start].copy_from_slice(&image[start..end]);
        block[508..512].copy_from_slice(&0x0ab1_6f30_u32.to_le_bytes());
        uf2.extend_from_slice(&block);
    }
    uf2
}

/// A signed image whose signature block holds the developer key in slot 3, signed as
/// Ed25519ph (`fido2` false) or as FIDO2 Ed25519 with a 37-byte AAD (`fido2` true).
fn signed_image(fido2: bool) -> Vec<u8> {
    let signing_key = SigningKey::from_bytes(&[7; 32]);
    let mut header = SignatureInFlash { _jal_instruction: HEADER_JUMP, ..SignatureInFlash::default() };
    header.sealed_data.function_code = FunctionCode::Baremetal as u32;
    header.sealed_data.anti_rollback = 1;
    header.sealed_data.pubkeys[3].pk = signing_key.verifying_key().to_bytes();
    header.sealed_data.pubkeys[3].tag = *b"dev ";

    let mut protected = header.sealed_data.as_ref().to_vec();
    protected.resize(SIGBLOCK_LEN - UNSIGNED_LEN, 0);
    protected.extend_from_slice(&JUMP_INSTRUCTION.to_le_bytes());
    protected.extend_from_slice(b"test payload");
    header.sealed_data.signed_len = protected.len() as u32;
    protected[..size_of::<bao1x_api::signatures::SealedFields>()]
        .copy_from_slice(header.sealed_data.as_ref());
    if fido2 {
        header.aad_len = 37;
        header.aad[..37].copy_from_slice(&[0x5a; 37]);
        let mut message = header.aad[..37].to_vec();
        message.extend_from_slice(&Sha256::digest(Sha512::digest(&protected)));
        let signature: Signature = signing_key.sign(&message);
        header.signature.copy_from_slice(&signature.to_bytes());
    } else {
        let signature: Signature = signing_key.sign_digest(Sha512::new().chain_update(&protected));
        header.signature.copy_from_slice(&signature.to_bytes());
    }

    let mut image = header.as_ref()[..UNSIGNED_LEN].to_vec();
    image.extend_from_slice(&protected);
    image
}

fn signed_uf2() -> Vec<u8> {
    uf2_of(&signed_image(false))
}

fn candidate(path: &str, label: &str) -> MountCandidate {
    MountCandidate { path: PathBuf::from(path), label: label.to_owned() }
}

#[test]
fn inspects_canonical_signed_uf2() {
    let report = inspect_bytes(&signed_uf2()).unwrap();
    assert_eq!(report.profile, "canonical_baochip_baremetal_uf2");
    assert_eq!(
        report.embedded_verification,
        EmbeddedVerification::Verified { key_slot: 3, key_tag: "dev".to_owned() }
    );
    assert!(report.device_acceptance.starts_with("unknown"));
}

#[test]
fn rejects_malformed_uf2_before_signed_header_parsing() {
    let mut uf2 = signed_uf2();
    uf2[0] ^= 1;
    assert!(inspect_bytes(&uf2).unwrap_err().to_string().contains("magic"));
}

#[test]
fn inspection_reports_the_header_fields() {
    let report = inspect_bytes(&signed_uf2()).unwrap();
    assert_eq!(report.blocks, 4);
    assert_eq!(report.signed_len, 652);
    assert_eq!(report.image_bytes, 784);
    assert_eq!(report.function, "baremetal");
    assert_eq!(report.signature_mode, "ed25519ph");
    assert_eq!(report.version, 0x100);
    assert_eq!(report.corrected_version, 0x0100_0000);
    assert!(report.compatible_header);
    assert_eq!(report.anti_rollback, 1);
    assert_eq!(report.minimum_version_hex, "0".repeat(32));
    assert_eq!(report.image_version_hex, "0".repeat(32));
    assert!(!report.pq_enabled);
    assert_eq!(report.embedded_keys.len(), 1);
    assert_eq!(report.embedded_keys[0].slot, 3);
    assert_eq!(report.embedded_keys[0].tag, "dev");
}

#[test]
fn inspection_verifies_fido2_signatures() {
    let report = inspect_bytes(&uf2_of(&signed_image(true))).unwrap();
    assert_eq!(report.signature_mode, "fido2_ed25519");
    assert_eq!(
        report.embedded_verification,
        EmbeddedVerification::Verified { key_slot: 3, key_tag: "dev".to_owned() }
    );
}

#[test]
fn a_corrupted_signature_fails_embedded_verification() {
    let mut image = signed_image(false);
    image[4] ^= 0x01;
    let report = inspect_bytes(&uf2_of(&image)).unwrap();
    assert_eq!(report.embedded_verification, EmbeddedVerification::Failed);
}

#[test]
fn a_changed_signed_byte_fails_embedded_verification() {
    let mut image = signed_image(false);
    let last = image.len() - 1;
    image[last] ^= 0x01;
    let report = inspect_bytes(&uf2_of(&image)).unwrap();
    assert_eq!(report.embedded_verification, EmbeddedVerification::Failed);
}

#[test]
fn rejects_a_wrong_signature_block_trampoline_with_its_value() {
    let mut image = signed_image(false);
    image[0..4].copy_from_slice(&0x1234_5678_u32.to_le_bytes());
    assert_eq!(
        inspect_bytes(&uf2_of(&image)).unwrap_err().to_string(),
        "signature-block trampoline is 0x12345678, expected 0x3000006f"
    );
}

#[test]
fn rejects_a_non_baremetal_function_code() {
    let mut image = signed_image(false);
    image[148..152].copy_from_slice(&2_u32.to_le_bytes());
    assert_eq!(
        inspect_bytes(&uf2_of(&image)).unwrap_err().to_string(),
        "signed header function is 2, expected baremetal (6)"
    );
}

#[test]
fn rejects_non_zero_reserved_padding() {
    let mut image = signed_image(false);
    image[600] = 1;
    assert_eq!(
        inspect_bytes(&uf2_of(&image)).unwrap_err().to_string(),
        "signature block has non-zero reserved padding"
    );
}

#[test]
fn rejects_a_signed_length_past_the_image() {
    let mut image = signed_image(false);
    image[144..148].copy_from_slice(&2000_u32.to_le_bytes());
    assert_eq!(
        inspect_bytes(&uf2_of(&image)).unwrap_err().to_string(),
        "signed length ends at byte 2132, outside the reconstructed image"
    );
}

#[test]
fn rejects_a_pq_signature_past_the_image() {
    let mut image = signed_image(false);
    image[356..360].copy_from_slice(&1_u32.to_le_bytes());
    assert_eq!(
        inspect_bytes(&uf2_of(&image)).unwrap_err().to_string(),
        "PQ signature extends beyond the reconstructed image"
    );
}

#[test]
fn rejects_data_after_the_signed_image() {
    let mut image = signed_image(false);
    image.push(0xff);
    assert_eq!(
        inspect_bytes(&uf2_of(&image)).unwrap_err().to_string(),
        "UF2 contains non-zero data after the signed image"
    );
}

#[test]
fn rejects_an_image_shorter_than_the_signature_block() {
    let image = signed_image(false);
    assert_eq!(
        inspect_bytes(&uf2_of(&image[..512])).unwrap_err().to_string(),
        "signed image is shorter than the 768-byte signature block"
    );
}

#[test]
fn compatible_versions_are_current_or_legacy() {
    assert!(is_compatible(0x100, 0));
    assert!(is_compatible(0x100, 0x0100_0000));
    assert!(!is_compatible(0x100, 0x0100_0001));
    assert!(!is_compatible(0x101, 0));
}

#[test]
fn refuses_altchip_even_when_explicit() {
    let error =
        select_mount_index(&[candidate("/media/ALTCHIP", "ALTCHIP")], TargetRequest::Matching(Some(0)))
            .unwrap_err();
    assert!(error.to_string().contains("ALTCHIP"));
}

#[test]
fn refuses_ambiguous_baochip_mounts() {
    let error = select_mount_index(
        &[candidate("/media/a", "BAOCHIP"), candidate("/media/b", "BAOCHIP")],
        TargetRequest::Any,
    )
    .unwrap_err();
    assert!(error.to_string().contains("multiple BAOCHIP"));
}

#[test]
fn selects_the_only_baochip_mount_among_altchip_ones() {
    let candidates = [candidate("/media/alt", "ALTCHIP"), candidate("/media/boot", "BAOCHIP")];
    assert_eq!(select_mount_index(&candidates, TargetRequest::Any).unwrap(), 1);
    assert_eq!(select_mount_index(&candidates, TargetRequest::Matching(Some(1))).unwrap(), 1);
}

#[test]
fn refuses_a_missing_or_unknown_target() {
    assert_eq!(
        select_mount_index(&[candidate("/media/alt", "ALTCHIP")], TargetRequest::Any)
            .unwrap_err()
            .to_string(),
        "no mounted BAOCHIP volume found"
    );
    assert_eq!(
        select_mount_index(&[candidate("/media/boot", "BAOCHIP")], TargetRequest::Matching(None))
            .unwrap_err()
            .to_string(),
        "explicit target is not a mounted BAOCHIP/ALTCHIP volume"
    );
}

#[test]
fn collects_boot_volumes_depth_first() {
    let device = BlockDevice {
        label: None,
        mountpoints: vec![Some(PathBuf::from("/"))],
        children: vec![
            BlockDevice {
                label: Some("BAOCHIP".to_owned()),
                mountpoints: vec![None, Some(PathBuf::from("/media/boot"))],
                children: vec![BlockDevice {
                    label: Some("ALTCHIP".to_owned()),
                    mountpoints: vec![Some(PathBuf::from("/media/alt"))],
                    children: Vec::new(),
                }],
            },
            BlockDevice {
                label: Some("DATA".to_owned()),
                mountpoints: vec![Some(PathBuf::from("/media/data"))],
                children: Vec::new(),
            },
        ],
    };
    let mut mounts = Vec::new();
    collect_mounts(device, &mut mounts);
    assert_eq!(mounts.len(), 2);
    assert_eq!(mounts[0].path, PathBuf::from("/media/boot"));
    assert_eq!(mounts[0].label, "BAOCHIP");
    assert_eq!(mounts[1].path, PathBuf::from("/media/alt"));
    assert_eq!(mounts[1].label, "ALTCHIP");
}

fn action_name(action: &CopyAction) -> &'static str {
    match action {
        CopyAction::CheckDestination => "check_destination",
        CopyAction::CheckTemporary => "check_temporary",
        CopyAction::WriteTemporary => "write_sync",
        CopyAction::Rename => "rename",
        CopyAction::RemoveTemporary => "remove_temporary",
        CopyAction::SyncDirectory => "sync_directory",
        CopyAction::Done => "done",
        CopyAction::Fail(_) => "fail",
    }
}

/// Drives a copy whose file operations all succeed and whose files are all absent; returns
/// the file operations it asked for.
fn run_copy(dry_run: bool) -> Vec<&'static str> {
    let (mut session, mut action) =
        CopySession::new(dry_run, "/media/boot/firmware.uf2".to_owned(), "/media/boot/.firmware.uf2.bao-image.tmp".to_owned());
    let mut events = Vec::new();
    loop {
        let event = match action {
            CopyAction::Done => return events,
            CopyAction::Fail(error) => panic!("copy failed: {}", error.to_string()),
            CopyAction::CheckDestination | CopyAction::CheckTemporary => CopyEvent::Exists(false),
            ref other => {
                events.push(action_name(other));
                CopyEvent::Succeeded
            }
        };
        action = session.step(event);
    }
}

#[test]
fn dry_run_does_not_open_target_files() {
    assert!(run_copy(true).is_empty());
}

#[test]
fn copy_writes_then_renames_then_syncs_directory() {
    assert_eq!(run_copy(false), ["write_sync", "rename", "sync_directory"]);
}

#[test]
fn copy_refuses_to_overwrite_and_removes_temporary_after_failed_rename() {
    let (mut session, _) = CopySession::new(false, "dest".to_owned(), "tmp".to_owned());
    match session.step(CopyEvent::Exists(true)) {
        CopyAction::Fail(error) => assert_eq!(error.to_string(), "refusing to overwrite dest"),
        other => panic!("unexpected {}", action_name(&other)),
    }

    let (mut session, _) = CopySession::new(false, "dest".to_owned(), "tmp".to_owned());
    assert_eq!(action_name(&session.step(CopyEvent::Exists(false))), "check_temporary");
    assert_eq!(action_name(&session.step(CopyEvent::Exists(false))), "write_sync");
    assert_eq!(action_name(&session.step(CopyEvent::Succeeded)), "rename");
    assert_eq!(
        action_name(&session.step(CopyEvent::Failed("File exists".to_owned()))),
        "remove_temporary"
    );
    match session.step(CopyEvent::Succeeded) {
        CopyAction::Fail(error) => assert_eq!(error.to_string(), "File exists"),
        other => panic!("unexpected {}", action_name(&other)),
    }
    assert!(session.is_finished());
}

#[test]
fn preserves_initialized_data_at_its_rom_load_address() {
    let elf = elf32(
        &[
            (BAREMETAL_CODE_ORIGIN as u32, BAREMETAL_CODE_ORIGIN as u32, b"TEXT"),
            (0x6100_0000, BAREMETAL_CODE_ORIGIN as u32 + 0x20, b"DATA"),
        ],
        BAREMETAL_CODE_ORIGIN as u32,
    );
    let packed = pack(&elf).unwrap();

    assert_eq!(&packed[..4], &JUMP_INSTRUCTION.to_le_bytes());
    assert_eq!(&packed[256..260], b"TEXT");
    assert_eq!(&packed[260..288], &[0; 28]);
    assert_eq!(&packed[288..292], b"DATA");
}

#[test]
fn rejects_wrong_entry_address() {
    let elf = elf32(
        &[(BAREMETAL_CODE_ORIGIN as u32, BAREMETAL_CODE_ORIGIN as u32, b"TEXT")],
        BAREMETAL_CODE_ORIGIN as u32 + 4,
    );
    assert!(pack(&elf).unwrap_err().to_string().contains("ELF entry"));
}

#[test]
fn rejects_overlapping_load_images() {
    let elf = elf32(
        &[
            (BAREMETAL_CODE_ORIGIN as u32, BAREMETAL_CODE_ORIGIN as u32, b"12345678"),
            (0x6100_0000, BAREMETAL_CODE_ORIGIN as u32 + 4, b"DATA"),
        ],
        BAREMETAL_CODE_ORIGIN as u32,
    );
    assert!(pack(&elf).unwrap_err().to_string().contains("overlapping"));
}

#[test]
fn rejects_file_backed_ram_without_rom_load_address() {
    let elf = elf32(
        &[
            (BAREMETAL_CODE_ORIGIN as u32, BAREMETAL_CODE_ORIGIN as u32, b"TEXT"),
            (0x6100_0000, 0x6100_0000, b"DATA"),
        ],
        BAREMETAL_CODE_ORIGIN as u32,
    );
    assert!(pack(&elf).unwrap_err().to_string().contains("initialized RAM sections"));
}

#[test]
fn rejects_slot_overflow() {
    let elf = elf32(
        &[
            (BAREMETAL_CODE_ORIGIN as u32, BAREMETAL_CODE_ORIGIN as u32, b"TEXT"),
            (0x6100_0000, BAREMETAL_CODE_END as u32 - 2, b"DATA"),
        ],
        BAREMETAL_CODE_ORIGIN as u32,
    );
    assert!(pack(&elf).unwrap_err().to_string().contains("outside the baremetal code slot"));
}

#[test]
fn packing_sorts_segments_by_load_address_and_reports_the_program_size() {
    let elf = elf32(
        &[
            (0x6100_0000, BAREMETAL_CODE_ORIGIN as u32 + 0x10, b"DATA"),
            (BAREMETAL_CODE_ORIGIN as u32, BAREMETAL_CODE_ORIGIN as u32, b"TEXT"),
        ],
        BAREMETAL_CODE_ORIGIN as u32,
    );
    let packed = pack_elf_bytes(&elf).unwrap();
    assert_eq!(packed.program_size, 0x14);
    assert_eq!(packed.packed.len(), 256 + 0x14);
    assert_eq!(&packed.packed[4..256], &[0; 252][..]);
    assert_eq!(&packed.packed[256..260], b"TEXT");
    assert_eq!(&packed.packed[272..276], b"DATA");
}

#[test]
fn packing_reports_exact_messages() {
    let slot_message = pack(&elf32(
        &[
            (BAREMETAL_CODE_ORIGIN as u32, BAREMETAL_CODE_ORIGIN as u32, b"TEXT"),
            (0x6100_0000, 0x6100_0000, b"DATA"),
        ],
        BAREMETAL_CODE_ORIGIN as u32,
    ))
    .unwrap_err()
    .to_string();
    assert_eq!(
        slot_message,
        "PT_LOAD LMA range 0x61000000..0x61000004 is outside the baremetal code slot \
         0x60060400..0x6009fc00; initialized RAM sections must use a ROM load address"
    );
    let first = pack(&elf32(
        &[(BAREMETAL_CODE_ORIGIN as u32, BAREMETAL_CODE_ORIGIN as u32 + 8, b"TEXT")],
        BAREMETAL_CODE_ORIGIN as u32,
    ))
    .unwrap_err()
    .to_string();
    assert_eq!(first, "first PT_LOAD LMA is 0x60060408, expected 0x60060400");
    let entry = pack(&elf32(
        &[(BAREMETAL_CODE_ORIGIN as u32, BAREMETAL_CODE_ORIGIN as u32, b"TEXT")],
        0x10,
    ))
    .unwrap_err()
    .to_string();
    assert_eq!(entry, "ELF entry is 0x00000010, expected 0x60060400");
    let empty = pack(&elf32(&[], BAREMETAL_CODE_ORIGIN as u32)).unwrap_err().to_string();
    assert_eq!(empty, "ELF has no file-backed PT_LOAD segments");
}

#[test]
fn packing_refuses_bytes_that_are_not_an_elf() {
    assert!(pack_elf_bytes(b"definitely not an ELF file at all, just text").is_err());
}

#[test]
fn rejects_signing_in_place() {
    let error = check_sign_request(&SignRequest {
        same_path: true,
        output_extension: Some("bin".to_owned()),
        pq_key: false,
        pq_key_cache: false,
    })
    .unwrap_err();

    assert!(error.to_string().contains("must differ"));
}

#[test]
fn rejects_pq_signature_that_exceeds_slot() {
    let input_len = (KERNEL_START - SLOT_START) as u64 - SIGBLOCK_LEN as u64;
    let error = check_pq_fits(input_len).unwrap_err();

    assert!(error.to_string().contains("PQ-signed image"));
    assert_eq!(
        error.to_string(),
        "PQ-signed image is 265232 bytes, exceeding the 261376-byte baremetal slot"
    );
}

#[test]
fn sign_request_checks_extension_and_pq_pairing() {
    let request = |extension: Option<&str>, pq_key: bool, pq_key_cache: bool| SignRequest {
        same_path: false,
        output_extension: extension.map(str::to_owned),
        pq_key,
        pq_key_cache,
    };
    assert!(check_sign_request(&request(Some("img"), false, false)).is_ok());
    assert!(check_sign_request(&request(Some("bin"), true, true)).is_ok());
    assert_eq!(
        check_sign_request(&request(Some("uf2"), false, false)).unwrap_err().to_string(),
        "signed output must end in .img or .bin"
    );
    assert_eq!(
        check_sign_request(&request(None, false, false)).unwrap_err().to_string(),
        "signed output must end in .img or .bin"
    );
    assert_eq!(
        check_sign_request(&request(Some("img"), true, false)).unwrap_err().to_string(),
        "PQ key and key cache must be supplied together"
    );
    assert!(check_pq_fits(1000).is_ok());
}

#[test]
fn parses_version_records() {
    let versions = parse_versions("v0.9.8-790", "v0.10.2-0-g00000000").unwrap().unwrap();
    assert_eq!(versions.minimum, [0, 0, 9, 0, 8, 0, 0x16, 0x03, 0, 0, 0, 0, 0, 0, 0, 0]);
    assert_eq!(versions.image, [0, 0, 10, 0, 2, 0, 0, 0, 0, 0, 0, 0, 1, 0, 0, 0]);
    assert_eq!(
        parse_versions("nonsense", "v0.10.2").unwrap().unwrap_err().to_string(),
        "invalid minimum Xous version: no major version"
    );
    assert_eq!(
        parse_versions("v0.9.8", "v1").unwrap().unwrap_err().to_string(),
        "invalid image version: no major version"
    );
}

#[test]
fn version_texts_that_cut_a_character_are_recognized() {
    assert!(semver_parse_would_panic("v0.10.2-0-g1234567\u{e9}"));
    assert!(semver_parse_would_panic("0.10.2-12-g1234567\u{e9}abc  "));
    assert!(!semver_parse_would_panic("v0.10.2-0-g00000000"));
    assert!(!semver_parse_would_panic("v0.9.8-790"));
    assert!(!semver_parse_would_panic("v0.10.2-0-g123456\u{e9}"));
    assert!(!semver_parse_would_panic("v0.10.2-x-g1234567\u{e9}"));
    assert!(!semver_parse_would_panic("v0.10.2-70000-g1234567\u{e9}"));
    assert!(!semver_parse_would_panic("v0.10.2-0-h1234567\u{e9}"));
}

#[test]
fn version_texts_that_do_not_cut_a_character_parse() {
    let error = parse_versions("v0.9.8-790", "v0.10.2-0-g123456\u{e9}").unwrap().unwrap_err();
    assert!(parse_versions("v0.9.8-790", "v0.10.2-0-g1234567\u{e9}").is_none());
    assert!(parse_versions("nonsense", "v0.10.2-0-g1234567\u{e9}").unwrap().is_err());
    assert_eq!(error.to_string(), "invalid image version: parsing commit");
}
