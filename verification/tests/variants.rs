use std::path::PathBuf;

use rusty_core::logger::NullLogger;
use rusty_core::options::Options;
use rusty_core::pe::{Buf, PeFile};
use rusty_core::variants::common::{decode_block, is_mov_mem_imm, is_mov_reg_imm, op1_immediate, Dumps};
use rusty_core::variants::var10::Variant10;
use rusty_core::variants::var20::HeaderOffsets;
use rusty_core::variants::var21::{get_drmp_offsets, get_drmp_offsets_dynamic, OFFSET_BLOCK_SIZE};
use rusty_core::variants::var_3x::{expected_size, is_v30_size, parse_header, Variant};
use rusty_core::variants::{next_unpacker, unpackers, Unpacker};
use rusty_core::Error;

#[test]
fn dispatch_order_matches_csharp_cli() {
    let names: Vec<String> = unpackers().iter().map(|u| u.name().to_string()).collect();
    assert!(names[0].contains("1.0"));
    assert!(names[1].contains("2.0"));
    assert!(names[2].contains("2.1"));
    assert!(names[3].contains("3.0") && names[3].contains("x64"));
    assert!(names[4].contains("3.0") && names[4].contains("x86"));
    assert!(names[5].contains("3.1") && names[5].contains("x64"));
    assert!(names[6].contains("3.1") && names[6].contains("x86"));
}

#[test]
fn decodes_mov_instructions() {
    // 60 81 EC 00 10 00 00 BE 78 56 34 12 B9 6A 00 00 00
    // pushad; sub esp,0x1000; mov esi,0x12345678; mov ecx,0x6a
    let code = [
        0x60u8, 0x81, 0xec, 0x00, 0x10, 0x00, 0x00, 0xbe, 0x78, 0x56, 0x34, 0x12, 0xb9, 0x6a,
        0x00, 0x00, 0x00,
    ];
    let insns = decode_block(&code, 0, code.len(), 0x1000);
    assert_eq!(insns.len(), 4);

    assert_eq!(is_mov_reg_imm(&insns[2]), Some(0x1234_5678));
    assert_eq!(is_mov_reg_imm(&insns[3]), Some(0x6a));
    assert_eq!(is_mov_mem_imm(&insns[0]), None);
}

#[test]
fn decodes_memory_and_immediate_operands() {
    // mov dword ptr [0x401000], 0x11223344; sub esp, 0x1000
    let code = [0xc7u8, 0x05, 0x00, 0x10, 0x40, 0x00, 0x44, 0x33, 0x22, 0x11, 0x81, 0xec, 0x00, 0x10, 0x00, 0x00];
    let insns = decode_block(&code, 0, code.len(), 0);
    assert_eq!(insns.len(), 2);
    assert_eq!(is_mov_mem_imm(&insns[0]), Some(0x1122_3344));
    assert_eq!(is_mov_reg_imm(&insns[0]), None);
    assert_eq!(insns[0].displacement, 0x401000);
    assert_eq!(op1_immediate(&insns[1]), Some(0x1000));
    // A window past the data decodes nothing.
    assert!(decode_block(&code, code.len(), 8, 0).is_empty());
}

/// A 1024-byte offset block with the primary layout.
fn offset_block() -> Vec<u8> {
    let mut data = vec![0u8; OFFSET_BLOCK_SIZE];
    // Flags @2, SteamAppId @14, OEP @26, CodeSectionVA @38, Size @50, Key @62, Iv @67.
    data[2..6].copy_from_slice(&1u32.to_le_bytes());
    data[14..18].copy_from_slice(&730i32.to_le_bytes());
    data[26..30].copy_from_slice(&0x14000i32.to_le_bytes());
    data[38..42].copy_from_slice(&0x401000i32.to_le_bytes());
    data[50..54].copy_from_slice(&0x8000u32.to_le_bytes());
    data[62..66].fill(0xAB);
    data[67..71].copy_from_slice(&0x100u32.to_le_bytes());
    data
}

#[test]
fn drmp_offsets_fallback_selection() {
    // Build a 1024 byte block with the primary layout at offset 2.
    let data = offset_block();
    let offsets = get_drmp_offsets(&data, false);
    assert_eq!(offsets.len(), 8);
    assert_eq!(offsets[0], 1);
    assert_eq!(offsets[1], 730);
    assert_eq!(offsets[2], 0x14000);
    assert_eq!(offsets[3], 0x401000);
    assert_eq!(offsets[4], 0x8000);
    assert_eq!(offsets[5], i32::from_le_bytes([0xAB, 0xAB, 0xAB, 0xAB]));
    assert_eq!(offsets[6], 0x100);
    assert_eq!(offsets[7], 0x110);
}

#[test]
fn drmp_offsets_use_the_fallback_positions() {
    let mut data = offset_block();
    data[72..76].copy_from_slice(&0x7fff_fff8i32.to_le_bytes());
    let offsets = get_drmp_offsets(&data, true);
    assert_eq!(offsets[0], 1);
    assert_eq!(offsets[6], 0x7fff_fff8);
    // The stolen bytes offset wraps like the 32-bit addition it is.
    assert_eq!(offsets[7], i32::MIN + 8);
}

#[test]
fn dynamic_drmp_offsets_follow_the_instructions() {
    // mov eax, [eax+0x10]; lea ecx, [eax+0x20]; add eax, 0x30 (sign-extended
    // imm8, not counted); add eax, 0x40 (imm32); mov eax, [eax+0x50] (after
    // a lea, not counted)
    let code = [
        0x8bu8, 0x40, 0x10, 0x8d, 0x48, 0x20, 0x83, 0xc0, 0x30, 0x05, 0x40, 0x00, 0x00, 0x00, 0x8b,
        0x40, 0x50,
    ];
    assert_eq!(get_drmp_offsets_dynamic(&code), vec![0x10, 0x20, 0x30, 0x40]);
}

fn build_v30_header() -> Vec<u8> {
    let mut h = vec![0u8; 0xD0];
    h[0..4].copy_from_slice(&0x1122_3344u32.to_le_bytes()); // xor key
    h[4..8].copy_from_slice(&0xC0DEC0DEu32.to_le_bytes()); // signature
    h[8..16].copy_from_slice(&0x400000u64.to_le_bytes()); // image base
    h[16..20].copy_from_slice(&0x1000u32.to_le_bytes()); // AEP
    h[20..24].copy_from_slice(&0x1000u32.to_le_bytes()); // bind section offset
    h[28..32].copy_from_slice(&0x1234u32.to_le_bytes()); // OEP
    h[36..40].copy_from_slice(&0u32.to_le_bytes()); // payload size
    h[40..44].copy_from_slice(&0x400u32.to_le_bytes()); // drmp offset
    h[44..48].copy_from_slice(&0u32.to_le_bytes()); // drmp size
    h[52..56].copy_from_slice(&0u32.to_le_bytes()); // flags
    h[64..68].copy_from_slice(&0x1000u32.to_le_bytes()); // code section va
    h[72..104].fill(0x01); // aes key
    h[120..136].fill(0x02); // aes iv
    h[136..152].fill(0x03); // stolen
    h[152..168].fill(0x04); // encryption keys
    h
}

#[test]
fn parses_v30_header() {
    let h = parse_header(&build_v30_header(), Variant::V30).unwrap();
    assert_eq!(h.signature, 0xC0DEC0DE);
    assert_eq!(h.code_section_virtual_address, 0x1000);
    assert_eq!(h.original_entry_point, 0x1234);
    assert_eq!(h.aes_key, [0x01; 32]);
    assert_eq!(h.encryption_keys, [0x0404_0404; 4]);
}

#[test]
fn short_headers_are_out_of_bounds() {
    let h = build_v30_header();
    assert!(matches!(parse_header(&h[..171], Variant::V30), Err(Error::OutOfBounds)));
    assert!(matches!(parse_header(&h, Variant::V31), Err(Error::OutOfBounds)));
    let mut long = h.clone();
    long.resize(0xF0, 0);
    long[32..36].copy_from_slice(&0x5678u32.to_le_bytes());
    let v31 = parse_header(&long, Variant::V31).unwrap();
    assert_eq!(v31.original_entry_point, 0x5678);
    assert_eq!(v31.has_tls_callback, 0);
}

#[test]
fn v30_header_sizes_are_known() {
    assert!(is_v30_size(0xB0));
    assert!(is_v30_size(0xD0));
    assert!(!is_v30_size(0xF0));
    assert_eq!(expected_size(Variant::V31), 0xF0);
}

#[test]
fn v20_header_layouts_by_size() {
    assert_eq!(HeaderOffsets::for_size(856).unwrap().oep, 40);
    assert_eq!(HeaderOffsets::for_size(884).unwrap().oep, 44);
    assert_eq!(HeaderOffsets::for_size(952).unwrap().code_section_xor_key, 56);
    assert!(HeaderOffsets::for_size(900).is_none());
}

const IMAGE_BASE: u32 = 0x400000;
const EP_RVA: u32 = 0x1000;
const BIND_VA: u32 = 0x2000;
const HEADER_RAW: u32 = 0xB00;
const HEADER_SIZE: usize = 0x6A * 4;

/// Assembles a minimal x86 PE32 carrying a synthetic SteamStub v1.0 stub.
///
/// `.bind` holds the unpacker code patterns; the XOR-obfuscated header sits
/// in the trailing bytes (`raw offset == RVA`, outside every section).
fn build_v10_pe() -> Vec<u8> {
    let text_raw = 0x300u32;
    let bind_raw = 0x500u32;
    let bind_size = 0x600u32;

    let mut bind = vec![0u8; bind_size as usize];
    bind[0..8].copy_from_slice(&[0x60, 0x81, 0xEC, 0x00, 0x10, 0x00, 0x00, 0xBE]);
    bind.wr_u32(8, IMAGE_BASE + HEADER_RAW);
    bind[12..14].copy_from_slice(&[0xB9, 0x6A]);

    let mut plain = vec![0u8; HEADER_SIZE];
    plain.wr_u32(8, IMAGE_BASE + EP_RVA);

    let oep_va = IMAGE_BASE + 0x1234;
    bind[0x200..0x202].copy_from_slice(&[0x61, 0xB8]);
    bind.wr_u32(0x202, oep_va);
    bind[0x206..0x208].copy_from_slice(&[0xFF, 0xE0]);

    let mut file = vec![0u8; (HEADER_RAW as usize) + HEADER_SIZE];
    file[0] = b'M';
    file[1] = b'Z';
    file.wr_u32(0x3C, 0x100); // e_lfanew
    file[0x100..0x104].copy_from_slice(b"PE\0\0");
    file.wr_u16(0x104, 0x014C); // IMAGE_FILE_MACHINE_I386
    file.wr_u16(0x106, 2); // number of sections
    file.wr_u16(0x114, 0xE0); // size of optional header
    file.wr_u16(0x118, 0x10B); // PE32 magic
    file.wr_u32(0x128, EP_RVA); // address of entry point
    file.wr_u32(0x12C, EP_RVA); // base of code
    file.wr_u64(0x134, IMAGE_BASE as u64);
    file.wr_u32(0x138, 0x1000); // section alignment
    file.wr_u32(0x13C, 0x200); // file alignment
    file.wr_u32(0x150, 0x3000); // size of image
    file.wr_u32(0x154, 0x300); // size of headers

    let sections = 0x118 + 0xE0;
    file[sections..sections + 8].copy_from_slice(b".text\0\0\0");
    file.wr_u32(sections + 12, EP_RVA);
    file.wr_u32(sections + 16, 0x200);
    file.wr_u32(sections + 20, text_raw);
    file[sections + 40..sections + 48].copy_from_slice(b".bind\0\0\0");
    file.wr_u32(sections + 52, BIND_VA);
    file.wr_u32(sections + 56, bind_size);
    file.wr_u32(sections + 60, bind_raw);

    file[text_raw as usize..(text_raw + 0x200) as usize].fill(0x90);
    file[bind_raw as usize..(bind_raw + bind_size) as usize].copy_from_slice(&bind);
    let obfuscated: Vec<u8> = plain.iter().enumerate().map(|(i, byte)| *byte ^ ((i * i) as u8)).collect();
    file[HEADER_RAW as usize..(HEADER_RAW as usize) + HEADER_SIZE].copy_from_slice(&obfuscated);
    file
}

#[test]
fn v10_round_trips_synthetic_packed_pe() {
    let mut pe = PeFile::from_bytes(build_v10_pe(), PathBuf::from("v10.exe")).unwrap();

    let unpacker = Variant10;
    assert!(unpacker.can_process(&pe), "synthetic file must be v1.0");
    let mut dumps = Dumps::new();
    let unpacked = unpacker.process(&mut pe, &Options::default(), &NullLogger, &mut dumps).unwrap();

    // Entry point rewritten to the original entry point.
    assert_eq!(unpacked.rd_u32(0x128), Some(0x1234));
    // .bind section removed.
    assert_eq!(unpacked.rd_u16(0x106), Some(1));
    assert!(dumps.payload.is_none() && dumps.drmp.is_none());
}

#[test]
fn v10_keeps_bind_and_recomputes_checksum_on_request() {
    let mut pe = PeFile::from_bytes(build_v10_pe(), PathBuf::from("v10.exe")).unwrap();
    let mut options = Options::default();
    options.keep_bind_section = true;
    options.recalculate_file_checksum = true;
    options.zero_dos_stub_data = false;
    let mut dumps = Dumps::new();
    let unpacked = Variant10.process(&mut pe, &options, &NullLogger, &mut dumps).unwrap();
    assert_eq!(unpacked.rd_u16(0x106), Some(2));
    let sum = unpacked.rd_u32(0x100 + 24 + 64).unwrap();
    assert_ne!(sum, 0);
    assert_eq!(rusty_core::pe::checksum::compute_checksum(&unpacked, 0x100 + 24 + 64), sum);
}

#[test]
fn v10_rejects_a_mismatched_entry_point() {
    let mut file = build_v10_pe();
    file.wr_u32(0x128, 0x1100);
    let mut pe = PeFile::from_bytes(file, PathBuf::from("v10.exe")).unwrap();
    let mut dumps = Dumps::new();
    match Variant10.process(&mut pe, &Options::default(), &NullLogger, &mut dumps) {
        Err(Error::Unpack(m)) => assert_eq!(m, "header does not match the file entry point"),
        _ => panic!("expected an entry point mismatch"),
    }
}

#[test]
fn other_variants_do_not_claim_a_v10_file() {
    let pe = PeFile::from_bytes(build_v10_pe(), PathBuf::from("v10.exe")).unwrap();
    let all = unpackers();
    assert!(all[0].can_process(&pe));
    for u in &all[1..] {
        assert!(!u.can_process(&pe));
    }
}

#[test]
fn v20_reports_a_missing_signature() {
    let mut pe = PeFile::from_bytes(build_v10_pe(), PathBuf::from("v10.exe")).unwrap();
    let mut dumps = Dumps::new();
    let all = unpackers();
    match all[1].process(&mut pe, &Options::default(), &NullLogger, &mut dumps) {
        Err(Error::Unpack(m)) => assert_eq!(m, "missing 0xC0DEC0DE signature"),
        _ => panic!("expected a signature error"),
    }
}

#[test]
fn v30_reports_the_missing_stub_signature() {
    let mut pe = PeFile::from_bytes(build_v10_pe(), PathBuf::from("v10.exe")).unwrap();
    let mut dumps = Dumps::new();
    let all = unpackers();
    match all[4].process(&mut pe, &Options::default(), &NullLogger, &mut dumps) {
        Err(Error::Unpack(m)) => assert_eq!(m, "v3.0 x86 signature not found"),
        _ => panic!("expected a signature error"),
    }
}

#[test]
fn checksum_of_a_broken_image_is_an_io_error() {
    let mut pe = PeFile::from_bytes(build_v10_pe(), PathBuf::from("v10.exe")).unwrap();
    // The image copies the NT headers from the data, which no longer hold
    // the PE signature.
    pe.data[0x100] = b'X';
    let mut options = Options::default();
    options.recalculate_file_checksum = true;
    let mut dumps = Dumps::new();
    assert!(matches!(
        Variant10.process(&mut pe, &options, &NullLogger, &mut dumps),
        Err(Error::Io(_))
    ));
}

#[test]
fn code_section_index_is_printed_in_decimal() {
    assert_eq!(rusty_core::variants::common::decimal(0), "0");
    assert_eq!(rusty_core::variants::common::decimal(4096), "4096");
    assert_eq!(rusty_core::variants::common::decimal(u64::MAX), "18446744073709551615");
}

/// A PE32 image with the given sections (name, RVA, raw pointer, raw data),
/// NT headers at 0x100 and the given entry point.
fn build_pe(sections: &[(&[u8; 8], u32, u32, Vec<u8>)], entry: u32, len: usize) -> Vec<u8> {
    let mut file = vec![0u8; len];
    file[0] = b'M';
    file[1] = b'Z';
    file.wr_u32(0x3C, 0x100);
    file[0x100..0x104].copy_from_slice(b"PE\0\0");
    file.wr_u16(0x104, 0x014C);
    file.wr_u16(0x106, sections.len() as u16);
    file.wr_u16(0x114, 0xE0);
    file.wr_u16(0x118, 0x10B);
    file.wr_u32(0x128, entry);
    file.wr_u32(0x12C, 0x1000);
    file.wr_u32(0x134, IMAGE_BASE);
    file.wr_u32(0x138, 0x1000);
    file.wr_u32(0x13C, 0x200);
    file.wr_u32(0x150, 0x4000);
    let table = 0x118 + 0xE0;
    for (i, (name, va, raw, data)) in sections.iter().enumerate() {
        let at = table + 40 * i;
        file[at..at + 8].copy_from_slice(*name);
        file.wr_u32(at + 8, data.len() as u32);
        file.wr_u32(at + 12, *va);
        file.wr_u32(at + 16, data.len() as u32);
        file.wr_u32(at + 20, *raw);
        file[*raw as usize..*raw as usize + data.len()].copy_from_slice(data);
    }
    file
}

/// Encodes dwords so that the SteamStub XOR stream (keyed by the first
/// dword) decodes them back.
fn xor_encode(plain: &[u8]) -> Vec<u8> {
    let mut out = plain.to_vec();
    let mut prev = u32::from_le_bytes([plain[0], plain[1], plain[2], plain[3]]);
    let mut x = 4;
    while x + 4 <= plain.len() {
        let p = u32::from_le_bytes([plain[x], plain[x + 1], plain[x + 2], plain[x + 3]]);
        let e = p ^ prev;
        out[x..x + 4].copy_from_slice(&e.to_le_bytes());
        prev = e;
        x += 4;
    }
    out
}

/// A synthetic SteamStub v3.0 x86 file: the stub signature at the entry
/// point, the header size prologue further on, and the encoded 0xD0-byte
/// header just before the entry point.
fn build_v30_pe() -> Vec<u8> {
    let mut bind = vec![0u8; 0x400];
    let stub = [
        0xE8u8, 0, 0, 0, 0, 0x50, 0x53, 0x51, 0x52, 0x56, 0x57, 0x55, 0x8B, 0x44, 0x24, 0x1C, 0x2D,
        0x05, 0, 0, 0, 0x8B, 0xCC, 0x83, 0xE4, 0xF0, 0x51, 0x51, 0x51, 0x50,
    ];
    bind[0x100..0x100 + stub.len()].copy_from_slice(&stub);
    let prologue = [0x55u8, 0x8B, 0xEC, 0x81, 0xEC, 1, 2, 3, 4, 0x53, 9, 9, 9, 9, 9, 0x68];
    bind[0x200..0x210].copy_from_slice(&prologue);
    bind.wr_u32(0x210, 0xD0);

    let mut header = build_v30_header();
    header.wr_u32(20, 0x1100); // bind section offset
    header.wr_u32(52, 0x04); // not encrypted
    bind[0x30..0x100].copy_from_slice(&xor_encode(&header));

    let text = vec![0x90u8; 0x200];
    build_pe(&[(b".text\0\0\0", 0x1000, 0x400, text), (b".bind\0\0\0", 0x2000, 0x600, bind)], 0x2100, 0xA00)
}

#[test]
fn v30_unpacks_a_synthetic_file() {
    let mut pe = PeFile::from_bytes(build_v30_pe(), PathBuf::from("v30.exe")).unwrap();
    let all = unpackers();
    let claims: Vec<bool> = all.iter().map(|u| u.can_process(&pe)).collect();
    assert_eq!(claims, vec![false, false, false, false, true, false, false]);
    let mut dumps = Dumps::new();
    let image = all[4].process(&mut pe, &Options::default(), &NullLogger, &mut dumps).unwrap();
    assert_eq!(image.rd_u32(0x128), Some(0x1234));
    assert_eq!(image.rd_u16(0x106), Some(1));
    // The DOS stub is zeroed by default.
    assert!(image[0x40..0x100].iter().all(|b| *b == 0));
    assert_eq!(pe.sections.len(), 1);
}

#[test]
fn v30_reports_a_bad_signature() {
    let mut file = build_v30_pe();
    // Corrupt the encoded signature dword.
    file[0x630 + 4] ^= 0xff;
    let mut pe = PeFile::from_bytes(file, PathBuf::from("v30.exe")).unwrap();
    let mut dumps = Dumps::new();
    match unpackers()[4].process(&mut pe, &Options::default(), &NullLogger, &mut dumps) {
        Err(Error::Unpack(m)) => assert_eq!(m, "header signature mismatch and no TLS callbacks"),
        _ => panic!("expected a signature mismatch"),
    }
}

#[test]
fn v30_dumps_the_decoded_payload() {
    let mut file = build_v30_pe();
    let mut header = build_v30_header();
    header.wr_u32(20, 0x1100);
    header.wr_u32(52, 0x04);
    header.wr_u32(36, 0x10); // payload size
    let encoded = xor_encode(&header);
    file[0x630..0x700].copy_from_slice(&encoded);
    let key = u32::from_le_bytes([encoded[0xCC], encoded[0xCD], encoded[0xCE], encoded[0xCF]]);

    let mut pe = PeFile::from_bytes(file, PathBuf::from("v30.exe")).unwrap();
    let mut options = Options::default();
    options.dump_payload_to_disk = true;
    let mut dumps = Dumps::new();
    unpackers()[4].process(&mut pe, &options, &NullLogger, &mut dumps).unwrap();
    // The payload lives at the entry point less the bind offset: the start
    // of .text, whose bytes are all 0x90.
    let payload = dumps.payload.unwrap();
    assert_eq!(payload.len(), 0x10);
    assert_eq!(payload.rd_u32(0), Some(0x9090_9090 ^ key));
    assert_eq!(payload.rd_u32(4), Some(0));
    assert!(dumps.drmp.is_none());
}

/// A synthetic SteamStub v2.0 file: the 2.0 stub signature in `.bind`, a
/// stub at the entry point that loads the header address and its dword
/// count, and the encoded 856-byte header.
fn build_v20_pe() -> Vec<u8> {
    let mut bind = vec![0u8; 0x800];
    let sig = [0x53u8, 0x51, 0x52, 0x56, 0x57, 0x55, 0x8B, 0xEC, 0x81, 0xEC, 0x00, 0x10, 0x00, 0x00, 0xBE];
    bind[0..sig.len()].copy_from_slice(&sig);
    bind.wr_u32(0xFC, 0xC0DEC0DE);
    // mov esi, 0x402300; mov ecx, 214; nop; nop
    let stub = [0xBEu8, 0x00, 0x23, 0x40, 0x00, 0xB9, 0xD6, 0x00, 0x00, 0x00, 0x90, 0x90];
    bind[0x100..0x100 + stub.len()].copy_from_slice(&stub);
    let mut header = vec![0u8; 856];
    header.wr_u32(0, 0x5555_aaaa);
    header.wr_u32(40, IMAGE_BASE + 0x1234);
    bind[0x300..0x300 + 856].copy_from_slice(&xor_encode(&header));
    let text = vec![0x90u8; 0x200];
    build_pe(&[(b".text\0\0\0", 0x1000, 0x400, text), (b".bind\0\0\0", 0x2000, 0x600, bind)], 0x2100, 0xE00)
}

#[test]
fn v20_unpacks_a_synthetic_file() {
    let mut pe = PeFile::from_bytes(build_v20_pe(), PathBuf::from("v20.exe")).unwrap();
    let all = unpackers();
    let claims: Vec<bool> = all.iter().map(|u| u.can_process(&pe)).collect();
    assert_eq!(claims, vec![false, true, false, false, false, false, false]);
    let mut dumps = Dumps::new();
    let image = all[1].process(&mut pe, &Options::default(), &NullLogger, &mut dumps).unwrap();
    assert_eq!(image.rd_u32(0x128), Some(0x1234));
    assert_eq!(image.rd_u16(0x106), Some(1));
}

#[test]
fn v20_rejects_an_unknown_header_size() {
    let mut file = build_v20_pe();
    file[0x700 + 6] = 0xD7; // 215 dwords: 860 bytes
    let mut pe = PeFile::from_bytes(file, PathBuf::from("v20.exe")).unwrap();
    let mut dumps = Dumps::new();
    match unpackers()[1].process(&mut pe, &Options::default(), &NullLogger, &mut dumps) {
        Err(Error::Unpack(m)) => assert_eq!(m, "invalid/unknown variant header size: 860"),
        _ => panic!("expected an unknown header size"),
    }
}

/// XTEA encryption, the inverse of the SteamDRMP.dll block decryption.
fn xtea_encrypt(keys: &[u32; 4], mut v1: u32, mut v2: u32) -> (u32, u32) {
    const DELTA: u32 = 0x9e37_79b9;
    let mut sum: u32 = 0;
    for _ in 0..32 {
        v1 = v1.wrapping_add(
            (((v2 << 4) ^ (v2 >> 5)).wrapping_add(v2)) ^ sum.wrapping_add(keys[(sum & 3) as usize]),
        );
        sum = sum.wrapping_add(DELTA);
        v2 = v2.wrapping_add(
            (((v1 << 4) ^ (v1 >> 5)).wrapping_add(v1))
                ^ sum.wrapping_add(keys[((sum >> 11) & 3) as usize]),
        );
    }
    (v1, v2)
}

/// Encrypts `plain` so that the chained SteamDRMP.dll decryption gives it back.
fn drmp_encrypt(keys: &[u32; 4], plain: &[u8]) -> Vec<u8> {
    let mut out = plain.to_vec();
    let (mut p1, mut p2) = (0x5555_5555u32, 0x5555_5555u32);
    let mut x = 0;
    while x + 8 <= plain.len() {
        let a = plain.rd_u32(x).unwrap() ^ p1;
        let b = plain.rd_u32(x + 4).unwrap() ^ p2;
        let (e1, e2) = xtea_encrypt(keys, a, b);
        out.wr_u32(x, e1);
        out.wr_u32(x + 4, e2);
        p1 = e1;
        p2 = e2;
        x += 8;
    }
    out
}

/// Encodes dwords for the SteamStub XOR stream with a given non-zero key.
fn xor_encode_with(plain: &[u8], key: u32) -> Vec<u8> {
    let mut out = plain.to_vec();
    let mut prev = key;
    let mut x = 0;
    while x + 4 <= plain.len() {
        let e = plain.rd_u32(x).unwrap() ^ prev;
        out.wr_u32(x, e);
        prev = e;
        x += 4;
    }
    out
}

/// A synthetic SteamStub v2.1 file with an AES-encrypted start of `.text`.
/// Returns the file, the plain payload and the plain SteamDRMP.dll.
fn build_v21_pe() -> (Vec<u8>, Vec<u8>, Vec<u8>) {
    let mut bind = vec![0u8; 0x800];
    let sig = [0x53u8, 0x51, 0x52, 0x56, 0x57, 0x55, 0x8B, 0xEC, 0x81, 0xEC, 0x00, 0x10, 0x00, 0x00, 0xC7];
    bind[0..sig.len()].copy_from_slice(&sig);
    bind.wr_u32(0xFC, 0xC0DEC0DE);
    // mov dword ptr [0], 0x402300; mov dword ptr [0], 0x12345678; mov ecx, 0x20; nop; nop
    let stub = [
        0xC7u8, 0x05, 0, 0, 0, 0, 0x00, 0x23, 0x40, 0x00, 0xC7, 0x05, 0, 0, 0, 0, 0x78, 0x56, 0x34,
        0x12, 0xB9, 0x20, 0x00, 0x00, 0x00, 0x90, 0x90,
    ];
    bind[0x100..0x100 + stub.len()].copy_from_slice(&stub);

    // The 0x80-byte header: payload address and size.
    let mut header = vec![0u8; 0x80];
    header.wr_u32(36, IMAGE_BASE + 0x2400);
    header.wr_u32(40, 0x100);
    let enc_header = xor_encode_with(&header, 0x1234_5678);
    let payload_key = enc_header.rd_u32(0x7C).unwrap();
    bind[0x300..0x380].copy_from_slice(&enc_header);

    // The payload: SteamDRMP.dll location, XTEA keys and the fields the
    // offset block points at.
    let keys = [1u32, 2, 3, 4];
    let mut payload = vec![0u8; 0x100];
    payload.wr_u32(60, IMAGE_BASE + 0x2500);
    payload.wr_u32(64, 0x100);
    for (i, k) in keys.iter().enumerate() {
        payload.wr_u32(68 + 4 * i, *k);
    }
    payload.wr_u32(100, 0); // flags: encrypted
    payload.wr_u32(104, IMAGE_BASE + 0x1234); // OEP
    payload.wr_u32(108, IMAGE_BASE + 0x1000); // code section
    payload.wr_u32(112, 0x20); // encrypted size
    payload[120..152].fill(0x11); // AES key
    payload[152..168].fill(0x22); // AES IV
    payload[168..184].fill(0x33); // stolen bytes
    bind[0x400..0x500].copy_from_slice(&xor_encode_with(&payload, payload_key));

    // The SteamDRMP.dll: the offset block pattern at 0x10 with the offsets.
    let mut drmp = vec![0u8; 0x100];
    let at = 0x10;
    for (g, op) in [0x8Bu8, 0x89, 0x8B, 0x89, 0x8B, 0x89, 0x8B, 0x89, 0x8D].iter().enumerate() {
        drmp[at + 6 * g] = *op;
    }
    drmp[at + 54] = 0x05;
    drmp.wr_u32(at + 2, 100);
    drmp.wr_u32(at + 26, 104);
    drmp.wr_u32(at + 38, 108);
    drmp.wr_u32(at + 50, 112);
    drmp.wr_u32(at + 62, 120);
    drmp.wr_u32(at + 67, 152);
    bind[0x500..0x600].copy_from_slice(&drmp_encrypt(&keys, &drmp));

    let text = vec![0x90u8; 0x200];
    let file = build_pe(
        &[(b".text\0\0\0", 0x1000, 0x400, text), (b".bind\0\0\0", 0x2000, 0x600, bind)],
        0x2100,
        0xE00,
    );
    (file, payload, drmp)
}

#[test]
fn v21_unpacks_a_synthetic_file() {
    let (file, payload, drmp) = build_v21_pe();
    let mut pe = PeFile::from_bytes(file, PathBuf::from("v21.exe")).unwrap();
    let all = unpackers();
    let claims: Vec<bool> = all.iter().map(|u| u.can_process(&pe)).collect();
    assert_eq!(claims, vec![false, false, true, false, false, false, false]);

    let mut options = Options::default();
    options.dump_payload_to_disk = true;
    options.dump_steam_drmp_to_disk = true;
    let mut dumps = Dumps::new();
    let image = all[2].process(&mut pe, &options, &NullLogger, &mut dumps).unwrap();
    assert_eq!(dumps.payload, Some(payload));
    assert_eq!(dumps.drmp, Some(drmp));
    assert_eq!(image.rd_u32(0x128), Some(0x1234));
    assert_eq!(image.rd_u16(0x106), Some(1));

    // The first 0x20 bytes of .text are the decryption of the stolen bytes
    // followed by the section's start; the rest is kept.
    let mut merged = vec![0x33u8; 16];
    merged.extend_from_slice(&[0x90u8; 0x20]);
    let mut aes = rusty_core::crypto::aes::AesHelper::new(&[0x11u8; 32], &[0x22u8; 16]);
    aes.rebuild_iv(Some(&[0x22u8; 16]));
    let plain = aes.decrypt(&merged, rusty_core::crypto::aes::AesMode::Cbc);
    assert_eq!(image[0x400..0x420], plain[..0x20]);
    assert_eq!(image[0x420..0x600], [0x90u8; 0x1E0]);
}

#[test]
fn v21_reports_a_missing_offset_block() {
    let (mut file, _, _) = build_v21_pe();
    // Break the SteamDRMP.dll so no offset block pattern decrypts out of it.
    for b in &mut file[0xB00..0xC00] {
        *b = 0;
    }
    let mut pe = PeFile::from_bytes(file, PathBuf::from("v21.exe")).unwrap();
    let mut dumps = Dumps::new();
    assert!(matches!(
        unpackers()[2].process(&mut pe, &Options::default(), &NullLogger, &mut dumps),
        Err(Error::PatternNotFound)
    ));
}

#[test]
fn v31_unpacks_a_synthetic_file() {
    let mut bind = vec![0u8; 0x400];
    let stub = [
        0xE8u8, 0, 0, 0, 0, 0x50, 0x53, 0x51, 0x52, 0x56, 0x57, 0x55, 0x8B, 0x44, 0x24, 0x1C, 0x2D,
        0x05, 0, 0, 0, 0x8B, 0xCC, 0x83, 0xE4, 0xF0, 0x51, 0x51, 0x51, 0x50,
    ];
    bind[0x100..0x100 + stub.len()].copy_from_slice(&stub);
    let prologue = [0x55u8, 0x8B, 0xEC, 0x81, 0xEC, 1, 2, 3, 4, 0x53, 9, 9, 9, 9, 9, 0x68];
    bind[0x200..0x210].copy_from_slice(&prologue);
    bind.wr_u32(0x210, 0xF0);
    // The 0xF0-byte v3.1 header, just before the entry point.
    let mut header = vec![0u8; 0xF0];
    header.wr_u32(0, 0x0bad_f00d);
    header.wr_u32(4, 0xC0DEC0DF);
    header.wr_u32(24, 0x1100); // bind section offset
    header.wr_u32(32, 0x1abc); // OEP
    header.wr_u32(60, 0x04); // not encrypted
    bind[0x10..0x100].copy_from_slice(&xor_encode(&header));
    let text = vec![0x90u8; 0x200];
    let file = build_pe(
        &[(b".text\0\0\0", 0x1000, 0x400, text), (b".bind\0\0\0", 0x2000, 0x600, bind)],
        0x2100,
        0xA00,
    );

    let mut pe = PeFile::from_bytes(file, PathBuf::from("v31.exe")).unwrap();
    let all = unpackers();
    let claims: Vec<bool> = all.iter().map(|u| u.can_process(&pe)).collect();
    assert_eq!(claims, vec![false, false, false, false, false, false, true]);
    let mut options = Options::default();
    options.keep_bind_section = true;
    let mut dumps = Dumps::new();
    let image = all[6].process(&mut pe, &options, &NullLogger, &mut dumps).unwrap();
    assert_eq!(image.rd_u32(0x128), Some(0x1abc));
    assert_eq!(image.rd_u16(0x106), Some(2));
}

#[test]
fn next_unpacker_skips_those_that_cannot_process() {
    let can = [false, true, false, true, false];
    assert_eq!(next_unpacker(&can, 0), Some(1));
    assert_eq!(next_unpacker(&can, 2), Some(3));
    assert_eq!(next_unpacker(&can, 4), None);
    assert_eq!(next_unpacker(&can, 9), None);
    assert_eq!(next_unpacker(&[], 0), None);
}

#[test]
fn dispatch_list_recognises_nothing_in_a_plain_file() {
    let mut file = vec![0u8; 0x400];
    file[0] = b'M';
    file[1] = b'Z';
    file.wr_u32(0x3c, 0x80);
    file[0x80..0x84].copy_from_slice(b"PE\0\0");
    file.wr_u16(0x84, 0x014c);
    file.wr_u16(0x94, 0xe0);
    file.wr_u16(0x98, 0x10b);
    let pe = PeFile::from_bytes(file, PathBuf::from("plain.exe")).unwrap();
    let can: Vec<bool> = unpackers().iter().map(|u| u.can_process(&pe)).collect();
    assert_eq!(can, vec![false; 7]);
    assert_eq!(next_unpacker(&can, 0), None);
}
