use std::path::PathBuf;

use rusty_core::pe::checksum::{checksum_argument_offset, compute_checksum};
use rusty_core::pe::{align_up, section_name, update_checksum_in_buffer, Buf, PeFile};
use rusty_core::Error;

#[test]
fn compute_folds_carries() {
    // Words: 0xbbaa, 0xddcc; checksum field lives at offset 4 (words at 4/6 zeroed).
    let data = vec![0xaau8, 0xbb, 0xcc, 0xdd, 0x00, 0x00, 0x00, 0x00];
    let sum = compute_checksum(&data, 4);
    // fold(0xbbaa + 0xddcc = 0x19976) = 0x9977, then + length (8) = 0x997f.
    assert_eq!(sum, 0x997f);
}

#[test]
fn rejects_truncated_dos_header() {
    assert!(checksum_argument_offset(&[0u8; 8]).is_none());
}

#[test]
fn rejects_non_pe() {
    let data = vec![0x4d, 0x5a, 0x00, 0x00];
    let path = PathBuf::from("x");
    assert!(PeFile::from_bytes(data, path).is_err());
}

#[test]
fn reads_le_values() {
    let data: Vec<u8> = vec![0x4d, 0x5a, 0x00, 0x01, 0xac, 0xde, 0x00, 0x00, 0xff];
    assert_eq!(data.rd_u16(0), Some(0x5a4d));
    assert_eq!(data.rd_u16(2), Some(0x0100));
    assert_eq!(data.rd_u32(0), Some(0x0100_5a4d));
    assert_eq!(data.rd_u32(4), Some(0x0000deac));
    assert_eq!(data.rd_u8(8), Some(0xff));
    assert_eq!(data.rd_u64(0), Some(0x0000_deac_0100_5a4d));
    assert_eq!(data.rd_u64(2), None);
}

#[test]
fn writes_le_values_in_place() {
    let mut data = [0u8; 8];
    data.wr_u16(0, 0x5a4d);
    data.wr_u32(2, 0x12345678);
    data.wr_u64(0, 0);
    data.wr_u64(0, 0x0102030405060708);
    assert_eq!(data.rd_u64(0), Some(0x0102030405060708));
}

#[test]
fn aligns_values() {
    assert_eq!(align_up(0x1000, 0x1000), 0x1000);
    assert_eq!(align_up(0x1001, 0x1000), 0x2000);
    assert_eq!(align_up(0xfff, 0x100), 0x1000);
    assert_eq!(align_up(5, 0), 5);
}

#[test]
fn trims_section_name() {
    let raw = [b'.', b't', b'e', b'x', b't', 0, 0, 0];
    assert_eq!(section_name(&raw), ".text");
}

#[test]
fn section_name_replaces_invalid_utf8() {
    let raw = [b'.', 0xff, b'a', 0, 0, 0, 0, 0];
    assert_eq!(section_name(&raw), ".\u{fffd}a");
    assert_eq!(section_name(&[b'x'; 8]), "xxxxxxxx");
}

#[test]
fn writes_past_the_end_are_ignored() {
    let mut data = [0u8; 4];
    data.wr_u32(2, 0xffff_ffff);
    data.wr_u16(3, 0xffff);
    assert_eq!(data, [0u8; 4]);
    assert_eq!(data.rd_i16(0), Some(0));
    assert_eq!(data.rd_bytes(1, 3), Some(&[0u8, 0, 0][..]));
    assert_eq!(data.rd_bytes(2, 3), None);
}

/// A minimal PE32 image: DOS header, NT headers at 0x80 with a 0xE0-byte
/// optional header and two sections, `.text` and `.bind`.
fn small_pe() -> Vec<u8> {
    let mut file = vec![0u8; 0x800];
    file[0] = b'M';
    file[1] = b'Z';
    file.wr_u32(0x3c, 0x80);
    file[0x80..0x84].copy_from_slice(b"PE\0\0");
    file.wr_u16(0x84, 0x014c);
    file.wr_u16(0x86, 2);
    file.wr_u16(0x94, 0xe0);
    file.wr_u16(0x98, 0x10b);
    file.wr_u32(0xa8, 0x1000); // entry point
    file.wr_u32(0xac, 0x1000); // base of code
    file.wr_u32(0xb4, 0x400000); // image base
    file.wr_u32(0xb8, 0x1000); // section alignment
    file.wr_u32(0xbc, 0x200); // file alignment
    file.wr_u32(0xd0, 0x3000); // size of image
    let sections = 0x98 + 0xe0;
    file[sections..sections + 8].copy_from_slice(b".text\0\0\0");
    file.wr_u32(sections + 8, 0x100); // virtual size
    file.wr_u32(sections + 12, 0x1000);
    file.wr_u32(sections + 16, 0x200);
    file.wr_u32(sections + 20, 0x400);
    file[sections + 40..sections + 48].copy_from_slice(b".BIND\0\0\0");
    file.wr_u32(sections + 52, 0x2000);
    file.wr_u32(sections + 56, 0x100);
    file.wr_u32(sections + 60, 0x600);
    file[0x400] = 0xc3;
    file.extend_from_slice(&[1, 2, 3]);
    file
}

#[test]
fn parses_sections_and_overlay() {
    let pe = PeFile::from_bytes(small_pe(), PathBuf::from("small.exe")).unwrap();
    assert!(!pe.is_file_64());
    assert_eq!(pe.nt_headers_offset, 0x80);
    assert_eq!(pe.sections.len(), 2);
    assert_eq!(pe.section_data[0].len(), 0x200);
    assert_eq!(pe.section_data[0][0], 0xc3);
    // 0x100 raw bytes, padded to the 0x200 file alignment.
    assert_eq!(pe.section_data[1].len(), 0x200);
    let overlay = pe.overlay.clone().unwrap();
    assert_eq!(overlay.len(), 0x103);
    assert_eq!(overlay[0x100..], [1, 2, 3]);
    assert_eq!(pe.dos_stub.len(), 0x40);
    // Section names are matched ignoring ASCII case.
    assert!(pe.has_section(".bind"));
    assert_eq!(pe.get_section_index(".bind"), Some(1));
    assert_eq!(pe.get_section(".text").unwrap().virtual_address, 0x1000);
    assert!(pe.get_section(".data").is_none());
    assert_eq!(pe.get_section_data_by_name(".bind").unwrap().len(), 0x200);
}

#[test]
fn resolves_addresses_through_sections() {
    let pe = PeFile::from_bytes(small_pe(), PathBuf::from("small.exe")).unwrap();
    assert_eq!(pe.get_rva_from_va(0x401234), 0x1234);
    assert_eq!(pe.get_rva_from_va(0x10), 0);
    assert_eq!(pe.get_section_index_by_rva(0x1050), Some(0));
    assert_eq!(pe.get_section_index_by_rva(0x2000), Some(1));
    assert_eq!(pe.get_section_index_by_rva(0x1100), None);
    assert_eq!(pe.get_file_offset_from_rva(0x1050), 0x450);
    assert_eq!(pe.get_file_offset_from_rva(0x5000), 0x5000);
    assert_eq!(pe.get_owner_section(0x2010).unwrap().pointer_to_raw_data, 0x600);
}

#[test]
fn removes_and_rebuilds_sections() {
    let mut pe = PeFile::from_bytes(small_pe(), PathBuf::from("small.exe")).unwrap();
    pe.remove_section(5);
    assert_eq!(pe.sections.len(), 2);
    pe.remove_section(1);
    assert_eq!(pe.sections.len(), 1);
    assert_eq!(pe.section_data.len(), 1);
    pe.rebuild_sections(true);
    assert_eq!(pe.sections[0].virtual_size, 0x1000);
    assert_eq!(pe.sections[0].size_of_raw_data, 0x200);
    assert_eq!(pe.optional.size_of_image, 0x2000);
}

#[test]
fn lays_out_the_unpacked_image() {
    let pe = PeFile::from_bytes(small_pe(), PathBuf::from("small.exe")).unwrap();
    let stub = [0u8; 0x40];
    let code = [0x90u8; 4];
    let params = rusty_core::pe::SaveParameters {
        dos_stub: Some(&stub),
        address_of_entry_point: 0x1234,
        checksum: 7,
        code_section: Some((0, &code)),
    };
    let image = pe.unpacked_image(&params);
    assert_eq!(image.rd_u32(0x80 + 24 + 16), Some(0x1234));
    assert_eq!(image.rd_u32(0x80 + 24 + 64), Some(7));
    assert_eq!(image.rd_u16(0x86), Some(2));
    assert_eq!(image[0x400..0x404], [0x90u8; 4]);
    assert_eq!(image[0x404], 0);
    // The overlay trails the last section.
    assert_eq!(image[image.len() - 3..], [1, 2, 3]);
    assert_eq!(image.len(), 0x800 + 0x103);
}

#[test]
fn checksum_update_is_read_back() {
    let mut data = small_pe();
    let sum = update_checksum_in_buffer(&mut data).unwrap();
    assert_eq!(data.rd_u32(0x80 + 24 + 64), Some(sum));
    assert_eq!(compute_checksum(&data, 0x80 + 24 + 64), sum);
    let mut bad = vec![0u8; 0x40];
    assert!(update_checksum_in_buffer(&mut bad).is_none());
}

#[test]
fn reports_why_an_image_is_invalid() {
    let mut data = small_pe();
    data[0x80] = b'X';
    match PeFile::from_bytes(data, PathBuf::from("x")) {
        Err(Error::InvalidPe(m)) => assert_eq!(m, "missing PE\\0\\0 signature"),
        _ => panic!("expected an invalid PE error"),
    }
    let mut data = small_pe();
    data[0] = b'X';
    assert!(matches!(PeFile::from_bytes(data, PathBuf::from("x")), Err(Error::InvalidPe(m)) if m == "missing MZ magic"));
    let data = small_pe()[..0x180].to_vec();
    assert!(matches!(PeFile::from_bytes(data, PathBuf::from("x")), Err(Error::InvalidPe(m)) if m == "truncated section header"));
}

#[test]
fn section_headers_read_back_as_written() {
    let h = rusty_core::pe::SectionHeader {
        name: *b".text\0\0\0",
        virtual_size: 0x1234,
        virtual_address: 0x1000,
        size_of_raw_data: 0x200,
        pointer_to_raw_data: 0x400,
        pointer_to_relocations: 5,
        pointer_to_linenumbers: 6,
        number_of_relocations: 7,
        number_of_linenumbers: 8,
        characteristics: 0x6000_0020,
    };
    let mut buf = [0xeeu8; 48];
    h.write_into(&mut buf, 4);
    assert_eq!(buf[0..4], [0xee; 4]);
    assert_eq!(buf[44..48], [0xee; 4]);
    let back = rusty_core::pe::SectionHeader::parse(&buf, 4).unwrap();
    assert_eq!(back.name, h.name);
    assert_eq!(back.virtual_size, h.virtual_size);
    assert_eq!(back.virtual_address, h.virtual_address);
    assert_eq!(back.size_of_raw_data, h.size_of_raw_data);
    assert_eq!(back.pointer_to_raw_data, h.pointer_to_raw_data);
    assert_eq!(back.pointer_to_relocations, 5);
    assert_eq!(back.pointer_to_linenumbers, 6);
    assert_eq!(back.number_of_relocations, 7);
    assert_eq!(back.number_of_linenumbers, 8);
    assert_eq!(back.characteristics, 0x6000_0020);
    assert_eq!(back.name_str(), ".text");
    assert!(back.is_valid());
    assert!(rusty_core::pe::SectionHeader::parse(&buf, 9).is_none());
}

#[test]
fn finds_a_section_by_identity() {
    let pe = PeFile::from_bytes(small_pe(), PathBuf::from("small.exe")).unwrap();
    let bind = pe.get_section(".bind").unwrap();
    assert_eq!(pe.section_index_of(bind), Some(1));
    // An equal copy is not one of the file's own headers.
    let copy = *bind;
    assert_eq!(pe.section_index_of(&copy), None);
}

#[test]
fn saved_image_keeps_entry_point_and_section_count() {
    let mut pe = PeFile::from_bytes(small_pe(), PathBuf::from("small.exe")).unwrap();
    let mut options = rusty_core::options::Options::default();
    options.recalculate_file_checksum = true;
    let image = rusty_core::variants::common::save(&mut pe, &options, 0x1abc).unwrap();
    assert_eq!(image.rd_u32(0x80 + 40), Some(0x1abc));
    assert_eq!(image.rd_u16(0x80 + 6), Some(2));
    let sum = image.rd_u32(0x80 + 88).unwrap();
    assert_eq!(compute_checksum(&image, 0x80 + 88), sum);
}

#[test]
fn checksum_adds_the_length_after_folding() {
    // 64 KiB of zeros: the word sum is 0 and the length 0x10000 is added unfolded.
    let data = vec![0u8; 0x10000];
    assert_eq!(compute_checksum(&data, 0), 0x10000);
    // Words 0xffff and 0x0001 fold to 0x0001; the length 0x10004 is added after.
    let mut big = vec![0u8; 0x10004];
    big[0] = 0xff;
    big[1] = 0xff;
    big[2] = 0x01;
    assert_eq!(compute_checksum(&big, 0x100), 0x0001 + 0x10004);
}

#[test]
fn realigning_twice_changes_nothing() {
    let mut pe = PeFile::from_bytes(small_pe(), PathBuf::from("small.exe")).unwrap();
    pe.rebuild_sections(true);
    let fields = |pe: &PeFile| -> Vec<(u32, u32, u32, u32)> {
        pe.sections
            .iter()
            .map(|s| (s.virtual_address, s.virtual_size, s.pointer_to_raw_data, s.size_of_raw_data))
            .collect()
    };
    let before = fields(&pe);
    let size = pe.optional.size_of_image;
    pe.rebuild_sections(true);
    assert_eq!(fields(&pe), before);
    assert_eq!(pe.optional.size_of_image, size);
    assert_eq!(pe.sections[0].name_str(), ".text");
}

#[test]
fn second_checksum_update_changes_nothing() {
    let mut data = small_pe();
    let first = update_checksum_in_buffer(&mut data).unwrap();
    let once = data.clone();
    let second = update_checksum_in_buffer(&mut data).unwrap();
    assert_eq!(first, second);
    assert_eq!(data, once);
}
