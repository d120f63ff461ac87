//! Portable Executable parsing, rebuilding and image assembly, for both
//! 32-bit and 64-bit images.

use vstd::prelude::*;

use super::reader;
use super::reader::{le_u16, le_u32, le_u64, in_bounds, Buf};
use crate::Error;

verus! {

/// The 32-bit and 64-bit optional header magics.
#[derive(Clone, Copy, Debug, PartialEq, Eq, Structural)]
pub enum ImageBits {
    Pe32,
    Pe32Plus,
}

/// IMAGE_DOS_HEADER
#[derive(Clone, Copy, Debug)]
pub struct DosHeader {
    pub e_magic: u16,
    pub e_cblp: u16,
    pub e_cp: u16,
    pub e_crlc: u16,
    pub e_cparhdr: u16,
    pub e_minalloc: u16,
    pub e_maxalloc: u16,
    pub e_ss: u16,
    pub e_sp: u16,
    pub e_csum: u16,
    pub e_ip: u16,
    pub e_cs: u16,
    pub e_lfarlc: u16,
    pub e_ovno: u16,
    pub e_oemid: u16,
    pub e_oeminfo: u16,
    pub e_lfanew: u32,
}

/// The DOS header stored at the start of `data`.
pub open spec fn spec_dos_header(data: Seq<u8>) -> DosHeader {
    DosHeader {
        e_magic: le_u16(data, 0x00),
        e_cblp: le_u16(data, 0x02),
        e_cp: le_u16(data, 0x04),
        e_crlc: le_u16(data, 0x06),
        e_cparhdr: le_u16(data, 0x08),
        e_minalloc: le_u16(data, 0x0a),
        e_maxalloc: le_u16(data, 0x0c),
        e_ss: le_u16(data, 0x0e),
        e_sp: le_u16(data, 0x10),
        e_csum: le_u16(data, 0x12),
        e_ip: le_u16(data, 0x14),
        e_cs: le_u16(data, 0x16),
        e_lfarlc: le_u16(data, 0x18),
        e_ovno: le_u16(data, 0x1a),
        e_oemid: le_u16(data, 0x24),
        e_oeminfo: le_u16(data, 0x26),
        e_lfanew: le_u32(data, 0x3c),
    }
}

impl DosHeader {
    /// Total size of the DOS header block on disk.
    pub const SIZE: usize = 64;

    /// Returns true if the DOS magic is 'MZ'.
    pub fn is_valid(&self) -> (r: bool)
        ensures
            r == (self.e_magic == 0x5a4d),
    {
        self.e_magic == 0x5a4d
    }

    pub fn parse(data: &[u8]) -> (r: Option<Self>)
        ensures
            data@.len() >= 64 ==> r == Some(spec_dos_header(data@)),
            data@.len() < 64 ==> r is None,
    {
        if data.len() < 64 {
            return None;
        }
        Some(
            Self {
                e_magic: data.rd_u16(0x00)?,
                e_cblp: data.rd_u16(0x02)?,
                e_cp: data.rd_u16(0x04)?,
                e_crlc: data.rd_u16(0x06)?,
                e_cparhdr: data.rd_u16(0x08)?,
                e_minalloc: data.rd_u16(0x0a)?,
                e_maxalloc: data.rd_u16(0x0c)?,
                e_ss: data.rd_u16(0x0e)?,
                e_sp: data.rd_u16(0x10)?,
                e_csum: data.rd_u16(0x12)?,
                e_ip: data.rd_u16(0x14)?,
                e_cs: data.rd_u16(0x16)?,
                e_lfarlc: data.rd_u16(0x18)?,
                e_ovno: data.rd_u16(0x1a)?,
                e_oemid: data.rd_u16(0x24)?,
                e_oeminfo: data.rd_u16(0x26)?,
                e_lfanew: data.rd_u32(0x3c)?,
            },
        )
    }
}

/// IMAGE_FILE_HEADER
#[derive(Clone, Copy, Debug)]
pub struct FileHeader {
    pub machine: u16,
    pub number_of_sections: u16,
    pub time_date_stamp: u32,
    pub pointer_to_symbol_table: u32,
    pub number_of_symbols: u32,
    pub size_of_optional_header: u16,
    pub characteristics: u16,
}

impl FileHeader {
    pub const SIZE: usize = 20;
}

/// The file header stored at `off` in `data`.
pub open spec fn spec_file_header(data: Seq<u8>, off: int) -> FileHeader {
    FileHeader {
        machine: le_u16(data, off),
        number_of_sections: le_u16(data, off + 2),
        time_date_stamp: le_u32(data, off + 4),
        pointer_to_symbol_table: le_u32(data, off + 8),
        number_of_symbols: le_u32(data, off + 12),
        size_of_optional_header: le_u16(data, off + 16),
        characteristics: le_u16(data, off + 18),
    }
}

/// IMAGE_DATA_DIRECTORY
#[derive(Clone, Copy, Debug, Default)]
pub struct DataDirectory {
    pub virtual_address: u32,
    pub size: u32,
}

/// IMAGE_OPTIONAL_HEADER (shared across PE32 and PE32+).
#[derive(Clone, Copy, Debug)]
pub struct OptionalHeader {
    pub magic: u16,
    pub major_linker_version: u8,
    pub minor_linker_version: u8,
    pub size_of_code: u32,
    pub size_of_initialized_data: u32,
    pub size_of_uninitialized_data: u32,
    pub address_of_entry_point: u32,
    pub base_of_code: u32,
    pub image_base: u64,
    pub section_alignment: u32,
    pub file_alignment: u32,
    pub major_operating_system_version: u16,
    pub minor_operating_system_version: u16,
    pub major_image_version: u16,
    pub minor_image_version: u16,
    pub major_subsystem_version: u16,
    pub minor_subsystem_version: u16,
    pub win32_version_value: u32,
    pub size_of_image: u32,
    pub size_of_headers: u32,
    pub checksum: u32,
    pub subsystem: u16,
    pub dll_characteristics: u16,
    pub size_of_stack_reserve: u64,
    pub size_of_stack_commit: u64,
    pub size_of_heap_reserve: u64,
    pub size_of_heap_commit: u64,
    pub loader_flags: u32,
    pub number_of_rva_and_sizes: u32,
    pub directories: [DataDirectory; 16],
}

/// The image kind named by an optional header magic.
pub open spec fn spec_bits(magic: u16) -> ImageBits {
    if magic == 0x10b {
        ImageBits::Pe32
    } else {
        ImageBits::Pe32Plus
    }
}

impl OptionalHeader {
    pub fn bits(&self) -> (r: ImageBits)
        ensures
            r == spec_bits(self.magic),
    {
        match self.magic {
            0x10b => ImageBits::Pe32,
            _ => ImageBits::Pe32Plus,
        }
    }

    pub fn tls_directory(&self) -> (r: &DataDirectory)
        ensures
            *r == self.directories@[9],
    {
        &self.directories[9]
    }
}

/// IMAGE_SECTION_HEADER
#[derive(Clone, Copy, Debug)]
pub struct SectionHeader {
    pub name: [u8; 8],
    pub virtual_size: u32,
    pub virtual_address: u32,
    pub size_of_raw_data: u32,
    pub pointer_to_raw_data: u32,
    pub pointer_to_relocations: u32,
    pub pointer_to_linenumbers: u32,
    pub number_of_relocations: u16,
    pub number_of_linenumbers: u16,
    pub characteristics: u32,
}

/// The section header stored at `off` in `data`.
pub open spec fn spec_section_header(data: Seq<u8>, off: int) -> SectionHeader {
    SectionHeader {
        name: arbitrary(),
        virtual_size: le_u32(data, off + 8),
        virtual_address: le_u32(data, off + 12),
        size_of_raw_data: le_u32(data, off + 16),
        pointer_to_raw_data: le_u32(data, off + 20),
        pointer_to_relocations: le_u32(data, off + 24),
        pointer_to_linenumbers: le_u32(data, off + 28),
        number_of_relocations: le_u16(data, off + 32),
        number_of_linenumbers: le_u16(data, off + 34),
        characteristics: le_u32(data, off + 36),
    }
}

/// Whether `h` is the section header stored at `off` in `data`.
pub open spec fn is_section_header_at(h: SectionHeader, data: Seq<u8>, off: int) -> bool {
    &&& h.name@ == data.subrange(off, off + 8)
    &&& h == SectionHeader { name: h.name, ..spec_section_header(data, off) }
}

/// The 40-byte on-disk form of a section header.
pub open spec fn section_header_bytes(h: SectionHeader) -> Seq<u8> {
    h.name@ + reader::le_bytes_u32(h.virtual_size) + reader::le_bytes_u32(h.virtual_address)
        + reader::le_bytes_u32(h.size_of_raw_data) + reader::le_bytes_u32(h.pointer_to_raw_data)
        + reader::le_bytes_u32(h.pointer_to_relocations) + reader::le_bytes_u32(
        h.pointer_to_linenumbers,
    ) + reader::le_bytes_u16(h.number_of_relocations) + reader::le_bytes_u16(
        h.number_of_linenumbers,
    ) + reader::le_bytes_u32(h.characteristics)
}

/// `b` with `v` written little-endian at `off` when it fits, unchanged otherwise.
pub open spec fn put_u32(b: Seq<u8>, off: int, v: u32) -> Seq<u8> {
    if in_bounds(b.len() as int, off, 4) {
        reader::splice(b, off, reader::le_bytes_u32(v))
    } else {
        b
    }
}

/// `b` with `v` written little-endian at `off` when it fits, unchanged otherwise.
pub open spec fn put_u16(b: Seq<u8>, off: int, v: u16) -> Seq<u8> {
    if in_bounds(b.len() as int, off, 2) {
        reader::splice(b, off, reader::le_bytes_u16(v))
    } else {
        b
    }
}

/// `b` after `write_into` stored `h` at `off`.
pub open spec fn spec_write_header(b: Seq<u8>, off: int, h: SectionHeader) -> Seq<u8> {
    let b1 = reader::splice(b, off, h.name@);
    let b2 = put_u32(b1, off + 8, h.virtual_size);
    let b3 = put_u32(b2, off + 12, h.virtual_address);
    let b4 = put_u32(b3, off + 16, h.size_of_raw_data);
    let b5 = put_u32(b4, off + 20, h.pointer_to_raw_data);
    let b6 = put_u32(b5, off + 24, h.pointer_to_relocations);
    let b7 = put_u32(b6, off + 28, h.pointer_to_linenumbers);
    let b8 = put_u16(b7, off + 32, h.number_of_relocations);
    let b9 = put_u16(b8, off + 34, h.number_of_linenumbers);
    put_u32(b9, off + 36, h.characteristics)
}

/// When all 40 bytes fit, writing a header stores its on-disk form.
#[verifier::rlimit(50)]
proof fn lemma_write_header_whole(b: Seq<u8>, off: int, h: SectionHeader)
    requires
        0 <= off,
        off + 40 <= b.len(),
    ensures
        spec_write_header(b, off, h) == reader::splice(b, off, section_header_bytes(h)),
{
    assert(spec_write_header(b, off, h) =~= reader::splice(b, off, section_header_bytes(h)));
}

/// The dword stored by `splice` reads back at its offset.
proof fn lemma_read_spliced_u32(b: Seq<u8>, off: int, bytes: Seq<u8>, at: int, v: u32)
    requires
        0 <= off,
        off + bytes.len() <= b.len(),
        off <= at,
        at + 4 <= off + bytes.len(),
        bytes.subrange(at - off, at - off + 4) == reader::le_bytes_u32(v),
    ensures
        le_u32(reader::splice(b, off, bytes), at) == v,
{
    let s = reader::splice(b, off, bytes);
    reader::lemma_le_u32_roundtrip(v);
    let e = reader::le_bytes_u32(v);
    assert(s[at] == e[0] && s[at + 1] == e[1] && s[at + 2] == e[2] && s[at + 3] == e[3]) by {
        assert(bytes.subrange(at - off, at - off + 4)[0] == e[0]);
        assert(bytes.subrange(at - off, at - off + 4)[1] == e[1]);
        assert(bytes.subrange(at - off, at - off + 4)[2] == e[2]);
        assert(bytes.subrange(at - off, at - off + 4)[3] == e[3]);
    }
}

/// The word stored by `splice` reads back at its offset.
proof fn lemma_read_spliced_u16(b: Seq<u8>, off: int, bytes: Seq<u8>, at: int, v: u16)
    requires
        0 <= off,
        off + bytes.len() <= b.len(),
        off <= at,
        at + 2 <= off + bytes.len(),
        bytes.subrange(at - off, at - off + 2) == reader::le_bytes_u16(v),
    ensures
        le_u16(reader::splice(b, off, bytes), at) == v,
{
    let s = reader::splice(b, off, bytes);
    reader::lemma_le_u16_roundtrip(v);
    let e = reader::le_bytes_u16(v);
    assert(s[at] == e[0] && s[at + 1] == e[1]) by {
        assert(bytes.subrange(at - off, at - off + 2)[0] == e[0]);
        assert(bytes.subrange(at - off, at - off + 2)[1] == e[1]);
    }
}

/// Reading back a section header written in its on-disk form gives the
/// same header: `parse` undoes `write_into`.
#[verifier::rlimit(40)]
pub proof fn lemma_section_header_round_trip(b: Seq<u8>, off: int, h: SectionHeader)
    requires
        0 <= off,
        off + 40 <= b.len(),
    ensures
        is_section_header_at(h, reader::splice(b, off, section_header_bytes(h)), off),
{
    let bytes = section_header_bytes(h);
    let s = reader::splice(b, off, bytes);
    assert(bytes.len() == 40);
    assert(bytes.subrange(0, 8) =~= h.name@);
    assert(s.subrange(off, off + 8) =~= h.name@);
    assert(bytes.subrange(8, 12) =~= reader::le_bytes_u32(h.virtual_size));
    assert(bytes.subrange(12, 16) =~= reader::le_bytes_u32(h.virtual_address));
    assert(bytes.subrange(16, 20) =~= reader::le_bytes_u32(h.size_of_raw_data));
    assert(bytes.subrange(20, 24) =~= reader::le_bytes_u32(h.pointer_to_raw_data));
    assert(bytes.subrange(24, 28) =~= reader::le_bytes_u32(h.pointer_to_relocations));
    assert(bytes.subrange(28, 32) =~= reader::le_bytes_u32(h.pointer_to_linenumbers));
    assert(bytes.subrange(32, 34) =~= reader::le_bytes_u16(h.number_of_relocations));
    assert(bytes.subrange(34, 36) =~= reader::le_bytes_u16(h.number_of_linenumbers));
    assert(bytes.subrange(36, 40) =~= reader::le_bytes_u32(h.characteristics));
    lemma_read_spliced_u32(b, off, bytes, off + 8, h.virtual_size);
    lemma_read_spliced_u32(b, off, bytes, off + 12, h.virtual_address);
    lemma_read_spliced_u32(b, off, bytes, off + 16, h.size_of_raw_data);
    lemma_read_spliced_u32(b, off, bytes, off + 20, h.pointer_to_raw_data);
    lemma_read_spliced_u32(b, off, bytes, off + 24, h.pointer_to_relocations);
    lemma_read_spliced_u32(b, off, bytes, off + 28, h.pointer_to_linenumbers);
    lemma_read_spliced_u16(b, off, bytes, off + 32, h.number_of_relocations);
    lemma_read_spliced_u16(b, off, bytes, off + 34, h.number_of_linenumbers);
    lemma_read_spliced_u32(b, off, bytes, off + 36, h.characteristics);
}

impl SectionHeader {
    pub const SIZE: usize = 40;

    pub fn name_str(&self) -> (r: String)
        ensures
            r@ == reader::spec_section_name(self.name@),
    {
        reader::section_name(self.name.as_slice())
    }

    /// Whether the section has raw data in the file.
    pub fn is_valid(&self) -> (r: bool)
        ensures
            r == (self.size_of_raw_data != 0 && self.pointer_to_raw_data != 0),
    {
        self.size_of_raw_data != 0 && self.pointer_to_raw_data != 0
    }

    pub fn parse(data: &[u8], off: usize) -> (r: Option<Self>)
        requires
            data@.len() <= isize::MAX,
        ensures
            in_bounds(data@.len() as int, off as int, 40) ==> (r matches Some(h)
                && is_section_header_at(h, data@, off as int)),
            !in_bounds(data@.len() as int, off as int, 40) ==> r is None,
    {
        if off > data.len() || data.len() - off < 40 {
            return None;
        }
        let raw = vstd::slice::slice_subrange(data, off, off + 8);
        let mut name = [0u8; 8];
        let mut i: usize = 0;
        while i < 8
            invariant
                off + 40 <= data@.len(),
                raw@ == data@.subrange(off as int, off + 8),
                i <= 8,
                forall|k: int| 0 <= k < i ==> name@[k] == raw@[k],
            decreases 8 - i,
        {
            name[i] = raw[i];
            i += 1;
        }
        assert(name@ =~= data@.subrange(off as int, off + 8));
        Some(
            Self {
                name,
                virtual_size: data.rd_u32(off + 8)?,
                virtual_address: data.rd_u32(off + 12)?,
                size_of_raw_data: data.rd_u32(off + 16)?,
                pointer_to_raw_data: data.rd_u32(off + 20)?,
                pointer_to_relocations: data.rd_u32(off + 24)?,
                pointer_to_linenumbers: data.rd_u32(off + 28)?,
                number_of_relocations: data.rd_u16(off + 32)?,
                number_of_linenumbers: data.rd_u16(off + 34)?,
                characteristics: data.rd_u32(off + 36)?,
            },
        )
    }

    /// Serializes the section header into its 40-byte on-disk layout at `off`.
    pub fn write_into(&self, buf: &mut [u8], off: usize)
        requires
            off + 8 <= old(buf)@.len(),
            old(buf)@.len() <= isize::MAX,
        ensures
            final(buf)@ == spec_write_header(old(buf)@, off as int, *self),
            off + 40 <= old(buf)@.len() ==> final(buf)@ == reader::splice(
                old(buf)@,
                off as int,
                section_header_bytes(*self),
            ),
    {
        let mut i: usize = 0;
        while i < 8
            invariant
                off + 8 <= buf@.len(),
                buf@.len() <= isize::MAX,
                buf@.len() == old(buf)@.len(),
                i <= 8,
                forall|k: int| 0 <= k < buf@.len() && !(off <= k < off + i) ==> buf@[k] == old(
                    buf,
                )@[k],
                forall|k: int| off <= k < off + i ==> buf@[k] == self.name@[k - off],
            decreases 8 - i,
        {
            buf[off + i] = self.name[i];
            i += 1;
        }
        assert(buf@ =~= reader::splice(old(buf)@, off as int, self.name@));
        let ghost b1 = buf@;
        buf.wr_u32(off + 8, self.virtual_size);
        let ghost b2 = buf@;
        buf.wr_u32(off + 12, self.virtual_address);
        let ghost b3 = buf@;
        buf.wr_u32(off + 16, self.size_of_raw_data);
        let ghost b4 = buf@;
        buf.wr_u32(off + 20, self.pointer_to_raw_data);
        let ghost b5 = buf@;
        buf.wr_u32(off + 24, self.pointer_to_relocations);
        let ghost b6 = buf@;
        buf.wr_u32(off + 28, self.pointer_to_linenumbers);
        let ghost b7 = buf@;
        buf.wr_u16(off + 32, self.number_of_relocations);
        let ghost b8 = buf@;
        buf.wr_u16(off + 34, self.number_of_linenumbers);
        let ghost b9 = buf@;
        buf.wr_u32(off + 36, self.characteristics);
        proof {
            assert(b2 == put_u32(b1, off + 8, self.virtual_size));
            assert(b3 == put_u32(b2, off + 12, self.virtual_address));
            assert(b4 == put_u32(b3, off + 16, self.size_of_raw_data));
            assert(b5 == put_u32(b4, off + 20, self.pointer_to_raw_data));
            assert(b6 == put_u32(b5, off + 24, self.pointer_to_relocations));
            assert(b7 == put_u32(b6, off + 28, self.pointer_to_linenumbers));
            assert(b8 == put_u16(b7, off + 32, self.number_of_relocations));
            assert(b9 == put_u16(b8, off + 34, self.number_of_linenumbers));
            assert(buf@ == put_u32(b9, off + 36, self.characteristics));
            if off + 40 <= old(buf)@.len() {
                lemma_write_header_whole(old(buf)@, off as int, *self);
            }
        }
    }
}

/// IMAGE_TLS_DIRECTORY
#[derive(Clone, Copy, Debug)]
pub struct TlsDirectory {
    pub start_address_of_raw_data: u64,
    pub end_address_of_raw_data: u64,
    pub address_of_index: u64,
    pub address_of_callbacks: u64,
    pub size_of_zero_fill: u32,
    pub characteristics: u32,
}

/// The on-disk size of a TLS directory.
pub open spec fn tls_directory_size(bits: ImageBits) -> int {
    match bits {
        ImageBits::Pe32 => 24,
        ImageBits::Pe32Plus => 40,
    }
}

/// The TLS directory stored at `off` in `data`.
pub open spec fn spec_tls_directory(data: Seq<u8>, off: int, bits: ImageBits) -> TlsDirectory {
    match bits {
        ImageBits::Pe32 => TlsDirectory {
            start_address_of_raw_data: le_u32(data, off) as u64,
            end_address_of_raw_data: le_u32(data, off + 4) as u64,
            address_of_index: le_u32(data, off + 8) as u64,
            address_of_callbacks: le_u32(data, off + 12) as u64,
            size_of_zero_fill: le_u32(data, off + 16),
            characteristics: le_u32(data, off + 20),
        },
        ImageBits::Pe32Plus => TlsDirectory {
            start_address_of_raw_data: le_u64(data, off),
            end_address_of_raw_data: le_u64(data, off + 8),
            address_of_index: le_u64(data, off + 16),
            address_of_callbacks: le_u64(data, off + 24),
            size_of_zero_fill: le_u32(data, off + 32),
            characteristics: le_u32(data, off + 36),
        },
    }
}

impl TlsDirectory {
    pub fn parse(data: &[u8], off: usize, bits: ImageBits) -> (r: Option<Self>)
        requires
            data@.len() <= isize::MAX,
        ensures
            in_bounds(data@.len() as int, off as int, tls_directory_size(bits)) ==> r == Some(
                spec_tls_directory(data@, off as int, bits),
            ),
            !in_bounds(data@.len() as int, off as int, tls_directory_size(bits)) ==> r is None,
    {
        let (r1, r2, r3, r4) = match bits {
            ImageBits::Pe32 => (
                data.rd_u32(off)? as u64,
                data.rd_u32(off + 4)? as u64,
                data.rd_u32(off + 8)? as u64,
                data.rd_u32(off + 12)? as u64,
            ),
            ImageBits::Pe32Plus => (
                data.rd_u64(off)?,
                data.rd_u64(off + 8)?,
                data.rd_u64(off + 16)?,
                data.rd_u64(off + 24)?,
            ),
        };
        let pe32 = match bits {
            ImageBits::Pe32 => true,
            ImageBits::Pe32Plus => false,
        };
        Some(
            Self {
                start_address_of_raw_data: r1,
                end_address_of_raw_data: r2,
                address_of_index: r3,
                address_of_callbacks: r4,
                size_of_zero_fill: data.rd_u32(
                    off + if pe32 {
                        16
                    } else {
                        32
                    },
                )?,
                characteristics: data.rd_u32(
                    off + if pe32 {
                        20
                    } else {
                        36
                    },
                )?,
            },
        )
    }
}

/// Offset of the data directories within the optional header.
pub open spec fn directories_offset(magic: u16) -> int {
    if magic == 0x10b {
        96
    } else {
        112
    }
}

/// How many data directories an optional header of `size` bytes holds.
pub open spec fn spec_directory_count(magic: u16, size: int) -> int {
    if size >= directories_offset(magic) + 16 * 8 {
        16
    } else if size >= directories_offset(magic) {
        (size - directories_offset(magic)) / 8
    } else {
        0
    }
}

/// Whether an optional header of `size` bytes at `off` lies within `len` bytes.
pub open spec fn optional_header_fits(data: Seq<u8>, off: int, size: int) -> bool {
    let magic = le_u16(data, off);
    &&& in_bounds(data.len() as int, off, 2)
    &&& (magic == 0x10b || magic == 0x20b)
    &&& in_bounds(
        data.len() as int,
        off,
        directories_offset(magic) + 8 * spec_directory_count(magic, size),
    )
}

/// The `i`-th data directory of the optional header at `off`.
pub open spec fn spec_directory(data: Seq<u8>, off: int, size: int, i: int) -> DataDirectory {
    let magic = le_u16(data, off);
    if i < spec_directory_count(magic, size) {
        DataDirectory {
            virtual_address: le_u32(data, off + directories_offset(magic) + 8 * i),
            size: le_u32(data, off + directories_offset(magic) + 8 * i + 4),
        }
    } else {
        DataDirectory { virtual_address: 0, size: 0 }
    }
}

/// The optional header stored at `off` in `data`, declared `size` bytes long.
pub open spec fn spec_optional_header(data: Seq<u8>, off: int, size: int) -> OptionalHeader {
    let magic = le_u16(data, off);
    let pe32 = magic == 0x10b;
    OptionalHeader {
        magic,
        major_linker_version: data[off + 2],
        minor_linker_version: data[off + 3],
        size_of_code: le_u32(data, off + 4),
        size_of_initialized_data: le_u32(data, off + 8),
        size_of_uninitialized_data: le_u32(data, off + 12),
        address_of_entry_point: le_u32(data, off + 16),
        base_of_code: le_u32(data, off + 20),
        image_base: if pe32 {
            le_u32(data, off + 28) as u64
        } else {
            le_u64(data, off + 24)
        },
        section_alignment: le_u32(data, off + 32),
        file_alignment: le_u32(data, off + 36),
        major_operating_system_version: le_u16(data, off + 40),
        minor_operating_system_version: le_u16(data, off + 42),
        major_image_version: le_u16(data, off + 44),
        minor_image_version: le_u16(data, off + 46),
        major_subsystem_version: le_u16(data, off + 48),
        minor_subsystem_version: le_u16(data, off + 50),
        win32_version_value: le_u32(data, off + 52),
        size_of_image: le_u32(data, off + 56),
        size_of_headers: le_u32(data, off + 60),
        checksum: le_u32(data, off + 64),
        subsystem: le_u16(data, off + 68),
        dll_characteristics: le_u16(data, off + 70),
        size_of_stack_reserve: if pe32 {
            le_u32(data, off + 72) as u64
        } else {
            le_u64(data, off + 72)
        },
        size_of_stack_commit: if pe32 {
            le_u32(data, off + 76) as u64
        } else {
            le_u64(data, off + 80)
        },
        size_of_heap_reserve: if pe32 {
            le_u32(data, off + 80) as u64
        } else {
            le_u64(data, off + 88)
        },
        size_of_heap_commit: if pe32 {
            le_u32(data, off + 84) as u64
        } else {
            le_u64(data, off + 96)
        },
        loader_flags: le_u32(data, off + if pe32 { 88int } else { 104int }),
        number_of_rva_and_sizes: le_u32(data, off + if pe32 { 92int } else { 108int }),
        directories: arbitrary(),
    }
}

/// Whether `h` is the optional header stored at `off` in `data`.
pub open spec fn is_optional_header_at(h: OptionalHeader, data: Seq<u8>, off: int, size: int) -> bool {
    &&& h == OptionalHeader { directories: h.directories, ..spec_optional_header(data, off, size) }
    &&& forall|i: int| 0 <= i < 16 ==> #[trigger] h.directories@[i] == spec_directory(data, off, size, i)
}

/// Parses the optional header at `off`, declared `size` bytes long.
pub fn parse_optional_header(data: &[u8], off: usize, size: usize) -> (r: Option<OptionalHeader>)
    requires
        data@.len() <= isize::MAX,
    ensures
        optional_header_fits(data@, off as int, size as int) ==> (r matches Some(h)
            && is_optional_header_at(h, data@, off as int, size as int)),
        !optional_header_fits(data@, off as int, size as int) ==> r is None,
{
    let magic = data.rd_u16(off)?;
    let pe32 = match magic {
        0x10b => true,
        0x20b => false,
        _ => return None,
    };

    let image_base = if pe32 {
        data.rd_u32(off + 28)? as u64
    } else {
        data.rd_u64(off + 24)?
    };
    let directories_off: usize = if pe32 {
        96
    } else {
        112
    };
    let mut directories = [DataDirectory { virtual_address: 0, size: 0 }; 16];
    let directory_count: usize = if size >= directories_off + 16 * 8 {
        16
    } else {
        (size.saturating_sub(directories_off)) / 8
    };
    assert(directory_count == spec_directory_count(magic, size as int));
    let mut i: usize = 0;
    while i < directory_count
        invariant
            data@.len() <= isize::MAX,
            magic == le_u16(data@, off as int),
            directories_off == directories_offset(magic),
            directory_count == spec_directory_count(magic, size as int),
            directory_count <= 16,
            in_bounds(data@.len() as int, off as int, 2),
            i <= directory_count,
            forall|k: int| 0 <= k < i ==> #[trigger] directories@[k] == spec_directory(data@, off as int, size as int, k),
            forall|k: int| i <= k < 16 ==> #[trigger] directories@[k] == (DataDirectory { virtual_address: 0, size: 0 }),
            i > 0 ==> in_bounds(data@.len() as int, off as int, directories_off + 8 * i),
        decreases directory_count - i,
    {
        let d = directories_off + i * 8;
        directories[i] = DataDirectory {
            virtual_address: data.rd_u32(off + d)?,
            size: data.rd_u32(off + d + 4)?,
        };
        i += 1;
    }

    Some(
        OptionalHeader {
            magic,
            major_linker_version: data.rd_u8(off + 2)?,
            minor_linker_version: data.rd_u8(off + 3)?,
            size_of_code: data.rd_u32(off + 4)?,
            size_of_initialized_data: data.rd_u32(off + 8)?,
            size_of_uninitialized_data: data.rd_u32(off + 12)?,
            address_of_entry_point: data.rd_u32(off + 16)?,
            base_of_code: data.rd_u32(off + 20)?,
            image_base,
            section_alignment: data.rd_u32(off + 32)?,
            file_alignment: data.rd_u32(off + 36)?,
            major_operating_system_version: data.rd_u16(off + 40)?,
            minor_operating_system_version: data.rd_u16(off + 42)?,
            major_image_version: data.rd_u16(off + 44)?,
            minor_image_version: data.rd_u16(off + 46)?,
            major_subsystem_version: data.rd_u16(off + 48)?,
            minor_subsystem_version: data.rd_u16(off + 50)?,
            win32_version_value: data.rd_u32(off + 52)?,
            size_of_image: data.rd_u32(off + 56)?,
            size_of_headers: data.rd_u32(off + 60)?,
            checksum: data.rd_u32(off + 64)?,
            subsystem: data.rd_u16(off + 68)?,
            dll_characteristics: data.rd_u16(off + 70)?,
            size_of_stack_reserve: if pe32 {
                data.rd_u32(off + 72)? as u64
            } else {
                data.rd_u64(off + 72)?
            },
            size_of_stack_commit: if pe32 {
                data.rd_u32(off + 76)? as u64
            } else {
                data.rd_u64(off + 80)?
            },
            size_of_heap_reserve: if pe32 {
                data.rd_u32(off + 80)? as u64
            } else {
                data.rd_u64(off + 88)?
            },
            size_of_heap_commit: if pe32 {
                data.rd_u32(off + 84)? as u64
            } else {
                data.rd_u64(off + 96)?
            },
            loader_flags: data.rd_u32(
                off + if pe32 {
                    88
                } else {
                    104
                },
            )?,
            number_of_rva_and_sizes: data.rd_u32(
                off + if pe32 {
                    92
                } else {
                    108
                },
            )?,
            directories,
        },
    )
}

/// ASCII lower-casing of one byte.
pub open spec fn ascii_lower(b: u8) -> u8 {
    if 0x41 <= b <= 0x5a {
        (b + 32) as u8
    } else {
        b
    }
}

/// Byte-wise equality up to ASCII case (`str::eq_ignore_ascii_case`).
pub open spec fn bytes_eq_ignore_ascii_case(a: Seq<u8>, b: Seq<u8>) -> bool {
    &&& a.len() == b.len()
    &&& forall|i: int| 0 <= i < a.len() ==> #[trigger] ascii_lower(a[i]) == ascii_lower(b[i])
}

/// Whether the text of `a` equals the text of `b` up to ASCII case.
pub fn str_eq_ignore_ascii_case(a: &str, b: &str) -> (r: bool)
    ensures
        r == bytes_eq_ignore_ascii_case(
            vstd::utf8::encode_utf8(a@),
            vstd::utf8::encode_utf8(b@),
        ),
{
    let x = a.as_bytes();
    let y = b.as_bytes();
    if x.len() != y.len() {
        return false;
    }
    let mut i: usize = 0;
    while i < x.len()
        invariant
            x@ == vstd::utf8::encode_utf8(a@),
            y@ == vstd::utf8::encode_utf8(b@),
            x@.len() == y@.len(),
            i <= x@.len(),
            forall|k: int| 0 <= k < i ==> #[trigger] ascii_lower(x@[k]) == ascii_lower(y@[k]),
        decreases x@.len() - i,
    {
        let p = if 0x41 <= x[i] && x[i] <= 0x5a {
            x[i] + 32
        } else {
            x[i]
        };
        let q = if 0x41 <= y[i] && y[i] <= 0x5a {
            y[i] + 32
        } else {
            y[i]
        };
        if p != q {
            assert(ascii_lower(x@[i as int]) != ascii_lower(y@[i as int]));
            return false;
        }
        i += 1;
    }
    true
}

/// Whether the section's name equals `name` up to ASCII case.
pub open spec fn section_named(h: SectionHeader, name: Seq<char>) -> bool {
    bytes_eq_ignore_ascii_case(
        vstd::utf8::encode_utf8(reader::spec_section_name(h.name@)),
        vstd::utf8::encode_utf8(name),
    )
}

/// The first index at or after `i` of a section named `name`.
pub open spec fn named_from(secs: Seq<SectionHeader>, name: Seq<char>, i: int) -> Option<int>
    decreases secs.len() - i,
{
    if i < 0 || i >= secs.len() {
        None
    } else if section_named(secs[i], name) {
        Some(i)
    } else {
        named_from(secs, name, i + 1)
    }
}

/// The index of the first section named `name`.
pub open spec fn spec_section_index(secs: Seq<SectionHeader>, name: Seq<char>) -> Option<int> {
    named_from(secs, name, 0)
}

/// The number of bytes of address space a section covers.
pub open spec fn section_span(s: SectionHeader) -> int {
    if s.virtual_size == 0 {
        s.size_of_raw_data as int
    } else {
        s.virtual_size as int
    }
}

/// Whether the section covers `rva`.
pub open spec fn section_contains(s: SectionHeader, rva: int) -> bool {
    s.virtual_address <= rva < s.virtual_address + section_span(s)
}

/// The first index at or after `i` of a section covering `rva`.
pub open spec fn owner_from(secs: Seq<SectionHeader>, rva: int, i: int) -> Option<int>
    decreases secs.len() - i,
{
    if i < 0 || i >= secs.len() {
        None
    } else if section_contains(secs[i], rva) {
        Some(i)
    } else {
        owner_from(secs, rva, i + 1)
    }
}

/// The index of the first section covering `rva`.
pub open spec fn spec_owner_index(secs: Seq<SectionHeader>, rva: int) -> Option<int> {
    owner_from(secs, rva, 0)
}

/// The file offset of `rva` relative to the section `s` that holds it; the
/// address arithmetic wraps on values that no real image produces.
pub open spec fn offset_in_section(s: SectionHeader, rva: u64) -> u64 {
    rva.wrapping_sub((s.virtual_address as u64).wrapping_sub(s.pointer_to_raw_data as u64))
}

/// The raw file offset of `rva`: through its owner section, or `rva` itself
/// when no section holds it.
pub open spec fn spec_file_offset(secs: Seq<SectionHeader>, rva: u64) -> u64 {
    match spec_owner_index(secs, rva as int) {
        Some(i) => offset_in_section(secs[i], rva),
        None => rva,
    }
}

/// Finds the first section covering `rva`.
pub fn owner_index(sections: &[SectionHeader], rva: u64) -> (r: Option<usize>)
    ensures
        r matches Some(i) ==> i < sections@.len() && spec_owner_index(sections@, rva as int) == Some(
            i as int,
        ),
        r is None ==> spec_owner_index(sections@, rva as int) is None,
{
    let mut i: usize = 0;
    while i < sections.len()
        invariant
            i <= sections@.len(),
            owner_from(sections@, rva as int, i as int) == spec_owner_index(sections@, rva as int),
        decreases sections@.len() - i,
    {
        let s = &sections[i];
        let size: u64 = if s.virtual_size == 0 {
            s.size_of_raw_data as u64
        } else {
            s.virtual_size as u64
        };
        if rva >= s.virtual_address as u64 && rva < s.virtual_address as u64 + size {
            return Some(i);
        }
        i += 1;
    }
    None
}

/// Finds the first section named `name` (up to ASCII case).
pub fn named_index(sections: &[SectionHeader], name: &str) -> (r: Option<usize>)
    ensures
        r matches Some(i) ==> i < sections@.len() && spec_section_index(sections@, name@) == Some(
            i as int,
        ),
        r is None ==> spec_section_index(sections@, name@) is None,
{
    let mut i: usize = 0;
    while i < sections.len()
        invariant
            i <= sections@.len(),
            named_from(sections@, name@, i as int) == spec_section_index(sections@, name@),
        decreases sections@.len() - i,
    {
        let n = sections[i].name_str();
        if str_eq_ignore_ascii_case(n.as_str(), name) {
            return Some(i);
        }
        i += 1;
    }
    None
}

/// Whether `a` and `b` are the same object in memory (`std::ptr::eq`).
///
/// Only the consequence that one object has one value is stated.
#[verifier::external_body]
fn same_object<T>(a: &T, b: &T) -> (r: bool)
    ensures
        r ==> a == b,
{
    std::ptr::eq(a, b)
}

/// The pointer size of an image.
pub open spec fn pointer_size(bits: ImageBits) -> int {
    match bits {
        ImageBits::Pe32 => 4,
        ImageBits::Pe32Plus => 8,
    }
}

/// The pointer-sized value stored at `off`.
pub open spec fn pointer_at(data: Seq<u8>, off: int, ps: int) -> u64 {
    if ps == 4 {
        le_u32(data, off) as u64
    } else {
        le_u64(data, off)
    }
}

/// The zero-terminated list of callback pointers stored from `off` on, or
/// `None` when the data ends before the terminating zero.
pub open spec fn spec_callbacks(data: Seq<u8>, off: int, ps: int) -> Option<Seq<u64>>
    decreases data.len() - off,
{
    if ps <= 0 || off < 0 || off + ps > data.len() {
        None
    } else {
        let v = pointer_at(data, off, ps);
        if v == 0 {
            Some(Seq::empty())
        } else {
            match spec_callbacks(data, off + ps, ps) {
                Some(rest) => Some(seq![v] + rest),
                None => None,
            }
        }
    }
}

/// The raw file offset of a TLS callback array at `rva`, through the section holding it.
pub open spec fn spec_callbacks_offset(secs: Seq<SectionHeader>, rva: u64) -> Option<usize> {
    match spec_owner_index(secs, rva as int) {
        Some(i) => Some(offset_in_section(secs[i], rva) as usize),
        None => None,
    }
}

/// The TLS directory and callback list of an image, `None` when it has none
/// (or its directory lies outside every section), or the error text.
pub open spec fn spec_read_tls(
    data: Seq<u8>,
    bits: ImageBits,
    opt: OptionalHeader,
    secs: Seq<SectionHeader>,
) -> Result<Option<(TlsDirectory, Seq<u64>)>, Seq<char>> {
    let tls = opt.directories@[9];
    if tls.virtual_address == 0 {
        Ok(None)
    } else {
        match spec_owner_index(secs, tls.virtual_address as int) {
            None => Ok(None),
            Some(i) => {
                let file_off = offset_in_section(secs[i], tls.virtual_address as u64) as usize;
                if !in_bounds(data.len() as int, file_off as int, tls_directory_size(bits)) {
                    Err("truncated TLS directory"@)
                } else {
                    let d = spec_tls_directory(data, file_off as int, bits);
                    if d.address_of_callbacks == 0 {
                        Ok(Some((d, Seq::empty())))
                    } else {
                        let crva = d.address_of_callbacks.wrapping_sub(opt.image_base);
                        match spec_callbacks_offset(secs, crva) {
                            None => Err("TLS callbacks outside mapped sections"@),
                            Some(coff) => match spec_callbacks(
                                data,
                                coff as int,
                                pointer_size(bits),
                            ) {
                                None => Err("TLS callback list truncated"@),
                                Some(c) => Ok(Some((d, c))),
                            },
                        }
                    }
                }
            },
        }
    }
}

/// The TLS callback list is found through the callbacks' virtual address
/// less the image base: when the TLS directory lies in a section, its
/// `AddressOfCallbacks` is at or above `ImageBase`, and the section holding
/// that difference (as an RVA) stores a zero-terminated pointer list at the
/// matching file offset, the TLS data read is that directory with exactly
/// the pointers stored there.
pub proof fn lemma_tls_callbacks_at_rva(
    data: Seq<u8>,
    bits: ImageBits,
    opt: OptionalHeader,
    secs: Seq<SectionHeader>,
    dir_section: int,
    cb_section: int,
    callbacks: Seq<u64>,
)
    requires
        opt.directories@[9].virtual_address != 0,
        spec_owner_index(secs, opt.directories@[9].virtual_address as int) == Some(dir_section),
        ({
            let file_off = offset_in_section(
                secs[dir_section],
                opt.directories@[9].virtual_address as u64,
            ) as usize;
            let d = spec_tls_directory(data, file_off as int, bits);
            let cb_rva = d.address_of_callbacks - opt.image_base;
            &&& in_bounds(data.len() as int, file_off as int, tls_directory_size(bits))
            &&& d.address_of_callbacks != 0
            &&& d.address_of_callbacks >= opt.image_base
            &&& spec_owner_index(secs, cb_rva) == Some(cb_section)
            &&& spec_callbacks(
                data,
                offset_in_section(secs[cb_section], cb_rva as u64) as usize as int,
                pointer_size(bits),
            ) == Some(callbacks)
        }),
    ensures
        ({
            let file_off = offset_in_section(
                secs[dir_section],
                opt.directories@[9].virtual_address as u64,
            ) as usize;
            spec_read_tls(data, bits, opt, secs) == Ok::<
                Option<(TlsDirectory, Seq<u64>)>,
                Seq<char>,
            >(Some((spec_tls_directory(data, file_off as int, bits), callbacks)))
        }),
{
    let file_off = offset_in_section(
        secs[dir_section],
        opt.directories@[9].virtual_address as u64,
    ) as usize;
    let d = spec_tls_directory(data, file_off as int, bits);
    assert(d.address_of_callbacks.wrapping_sub(opt.image_base) as int == d.address_of_callbacks
        - opt.image_base);
}

/// Resolves the file offset of a TLS callback array through the section holding it.
pub fn callbacks_rva_to_file_offset(rva: u64, sections: &[SectionHeader]) -> (r: Option<usize>)
    ensures
        r == spec_callbacks_offset(sections@, rva),
{
    match owner_index(sections, rva) {
        Some(i) => {
            let s = &sections[i];
            Some(
                rva.wrapping_sub(
                    (s.virtual_address as u64).wrapping_sub(s.pointer_to_raw_data as u64),
                ) as usize,
            )
        },
        None => None,
    }
}

/// Reads the TLS directory and its callback list.
pub fn read_tls(
    data: &[u8],
    bits: ImageBits,
    optional: &OptionalHeader,
    sections: &[SectionHeader],
) -> (r: Result<Option<(TlsDirectory, Vec<u64>)>, Error>)
    requires
        data@.len() <= isize::MAX,
    ensures
        match spec_read_tls(data@, bits, *optional, sections@) {
            Ok(None) => r matches Ok(None),
            Ok(Some((d, c))) => r matches Ok(Some((d2, c2))) && d2 == d && c2@ == c,
            Err(m) => r matches Err(Error::InvalidPe(s)) && s@ == m,
        },
{
    let tls = optional.tls_directory();
    if tls.virtual_address == 0 {
        return Ok(None);
    }

    // Resolve the TLS directory file offset.
    let tls_rva = tls.virtual_address as u64;
    let owner = match owner_index(sections, tls_rva) {
        Some(i) => &sections[i],
        None => return Ok(None),
    };
    let file_off = tls_rva.wrapping_sub(
        (owner.virtual_address as u64).wrapping_sub(owner.pointer_to_raw_data as u64),
    ) as usize;

    let directory = match TlsDirectory::parse(data, file_off, bits) {
        Some(d) => d,
        None => return Err(Error::InvalidPe("truncated TLS directory".to_owned())),
    };
    if directory.address_of_callbacks == 0 {
        return Ok(Some((directory, Vec::new())));
    }

    // Resolve the callbacks array file offset.
    let callbacks_rva = directory.address_of_callbacks.wrapping_sub(optional.image_base);
    let callbacks_off = match callbacks_rva_to_file_offset(callbacks_rva, sections) {
        Some(o) => o,
        None => return Err(Error::InvalidPe("TLS callbacks outside mapped sections".to_owned())),
    };

    let ptr_size: usize = match bits {
        ImageBits::Pe32 => 4,
        ImageBits::Pe32Plus => 8,
    };

    let mut callbacks: Vec<u64> = Vec::new();
    let mut cursor = callbacks_off;
    let ghost outcome = match spec_callbacks(data@, callbacks_off as int, ptr_size as int) {
        None => Err("TLS callback list truncated"@),
        Some(c) => Ok(Some((directory, c))),
    };
    assert(spec_read_tls(data@, bits, *optional, sections@) == outcome);
    loop
        invariant
            spec_read_tls(data@, bits, *optional, sections@) == outcome,
            outcome == match spec_callbacks(data@, callbacks_off as int, ptr_size as int) {
                None => Err("TLS callback list truncated"@),
                Some(c) => Ok(Some((directory, c))),
            },
            data@.len() <= isize::MAX,
            ptr_size == pointer_size(bits),
            match spec_callbacks(data@, cursor as int, ptr_size as int) {
                Some(rest) => spec_callbacks(data@, callbacks_off as int, ptr_size as int) == Some(
                    callbacks@ + rest,
                ),
                None => spec_callbacks(data@, callbacks_off as int, ptr_size as int) is None,
            },
        ensures
            spec_read_tls(data@, bits, *optional, sections@) == outcome,
            spec_callbacks(data@, callbacks_off as int, ptr_size as int) == Some(callbacks@),
        decreases data@.len() - cursor,
    {
        let value = if ptr_size == 4 {
            match data.rd_u32(cursor) {
                Some(v) => v as u64,
                None => return Err(Error::InvalidPe("TLS callback list truncated".to_owned())),
            }
        } else {
            match data.rd_u64(cursor) {
                Some(v) => v,
                None => return Err(Error::InvalidPe("TLS callback list truncated".to_owned())),
            }
        };
        assert(value == pointer_at(data@, cursor as int, ptr_size as int));
        if value == 0 {
            assert(callbacks@ + Seq::<u64>::empty() =~= callbacks@);
            break;
        }
        proof {
            let rest = spec_callbacks(data@, cursor + ptr_size, ptr_size as int);
            if rest is Some {
                assert(callbacks@ + (seq![value] + rest->0) =~= callbacks@.push(value) + rest->0);
            }
        }
        callbacks.push(value);
        cursor += ptr_size;
    }

    Ok(Some((directory, callbacks)))
}

/// A parsed portable executable file.
#[derive(Debug)]
pub struct PeFile {
    pub path: std::path::PathBuf,
    pub data: Vec<u8>,
    pub bits: ImageBits,
    pub dos_header: DosHeader,
    pub dos_stub_offset: usize,
    pub dos_stub_size: usize,
    pub dos_stub: Vec<u8>,
    pub nt_headers_offset: usize,
    pub signature: u32,
    pub file_header: FileHeader,
    pub optional: OptionalHeader,
    pub sections: Vec<SectionHeader>,
    pub section_data: Vec<Vec<u8>>,
    pub overlay: Option<Vec<u8>>,
    pub tls_directory: Option<TlsDirectory>,
    pub tls_callbacks: Vec<u64>,
}

/// The offset of the NT headers named by the DOS header.
pub open spec fn spec_nt_offset(data: Seq<u8>) -> int {
    spec_dos_header(data).e_lfanew as int
}

/// The file offset of the first section header.
pub open spec fn spec_sections_start(data: Seq<u8>) -> int {
    let nt = spec_nt_offset(data);
    nt + 24 + spec_file_header(data, nt + 4).size_of_optional_header
}

/// Why `data` is not a parseable PE image, or `None` when it is.
pub open spec fn pe_parse_error(data: Seq<u8>) -> Option<Seq<char>> {
    let nt = spec_nt_offset(data);
    let fh = spec_file_header(data, nt + 4);
    if data.len() < 64 {
        Some("truncated DOS header"@)
    } else if spec_dos_header(data).e_magic != 0x5a4d {
        Some("missing MZ magic"@)
    } else if nt + 24 > data.len() {
        Some("truncated NT headers"@)
    } else if le_u32(data, nt) != 0x4550 {
        Some("missing PE\\0\\0 signature"@)
    } else if !optional_header_fits(data, nt + 24, fh.size_of_optional_header as int) {
        Some("invalid optional header"@)
    } else if fh.number_of_sections > 0 && spec_sections_start(data) + 40 * fh.number_of_sections
        > data.len() {
        Some("truncated section header"@)
    } else {
        None
    }
}

/// The raw data of section `h`, as loaded: the bytes it names (nothing when
/// they lie outside the file), cut or zero-padded to the aligned size.
pub open spec fn spec_section_data(data: Seq<u8>, h: SectionHeader, file_alignment: u32) -> Seq<u8> {
    let raw_len = h.size_of_raw_data as int;
    let ptr = h.pointer_to_raw_data as int;
    let raw = if in_bounds(data.len() as int, ptr, raw_len) {
        data.subrange(ptr, ptr + raw_len)
    } else {
        Seq::empty()
    };
    let n = (reader::spec_align_up(raw_len, file_alignment as int) as usize) as int;
    if n <= raw.len() {
        raw.take(n)
    } else {
        raw + Seq::new((n - raw.len()) as nat, |i: int| 0u8)
    }
}

/// The data trailing the last section, if the file extends past it.
pub open spec fn spec_overlay(data: Seq<u8>, secs: Seq<SectionHeader>) -> Option<Seq<u8>> {
    if secs.len() > 0 {
        let l = secs.last();
        let end = l.pointer_to_raw_data as int + l.size_of_raw_data as int;
        if end < data.len() {
            Some(data.skip(end))
        } else {
            None
        }
    } else {
        None
    }
}

/// Whether `pe` is what parsing `data` yields.
pub open spec fn parsed_image(pe: PeFile, data: Seq<u8>) -> bool {
    let nt = spec_nt_offset(data);
    let fh = spec_file_header(data, nt + 4);
    let start = spec_sections_start(data);
    &&& pe.data@ == data
    &&& pe.dos_header == spec_dos_header(data)
    &&& pe.nt_headers_offset == nt
    &&& pe.signature == 0x4550
    &&& pe.file_header == fh
    &&& is_optional_header_at(pe.optional, data, nt + 24, fh.size_of_optional_header as int)
    &&& pe.bits == spec_bits(pe.optional.magic)
    &&& pe.dos_stub_offset == 64
    &&& pe.dos_stub_size == (if nt > 64 { nt - 64 } else { 0 })
    &&& pe.dos_stub@ == (if nt > 64 { data.subrange(64, nt) } else { Seq::empty() })
    &&& pe.sections@.len() == fh.number_of_sections
    &&& forall|x: int|
        0 <= x < pe.sections@.len() ==> is_section_header_at(
            #[trigger] pe.sections@[x],
            data,
            start + 40 * x,
        )
    &&& pe.section_data@.len() == pe.sections@.len()
    &&& forall|x: int|
        0 <= x < pe.section_data@.len() ==> #[trigger] pe.section_data@[x]@ == spec_section_data(
            data,
            pe.sections@[x],
            pe.optional.file_alignment,
        )
    &&& match spec_overlay(data, pe.sections@) {
        Some(o) => pe.overlay matches Some(v) && v@ == o,
        None => pe.overlay is None,
    }
    &&& match spec_read_tls(data, pe.bits, pe.optional, pe.sections@) {
        Ok(Some((d, c))) => pe.tls_directory == Some(d) && pe.tls_callbacks@ == c,
        _ => pe.tls_directory is None && pe.tls_callbacks@.len() == 0,
    }
}

/// Copies the raw data of a section, cut or zero-padded to its aligned size.
fn load_section_data(data: &[u8], sec: &SectionHeader, file_alignment: u32) -> (r: Vec<u8>)
    requires
        data@.len() <= isize::MAX,
    ensures
        r@ == spec_section_data(data@, *sec, file_alignment),
{
    let raw_len = sec.size_of_raw_data as usize;
    proof {
        if file_alignment > 0 {
            reader::lemma_align_up(raw_len as int, file_alignment as int);
        }
    }
    let aligned_len = reader::align_up(raw_len as u64, file_alignment as u64) as usize;
    let mut aligned: Vec<u8> = match data.rd_bytes(sec.pointer_to_raw_data as usize, raw_len) {
        Some(b) => vstd::slice::slice_to_vec(b),
        None => Vec::new(),
    };
    if aligned_len <= aligned.len() {
        aligned.truncate(aligned_len);
    } else {
        let ghost raw = aligned@;
        while aligned.len() < aligned_len
            invariant
                raw.len() < aligned_len,
                raw.len() <= aligned@.len() <= aligned_len,
                aligned@ == raw + Seq::new((aligned@.len() - raw.len()) as nat, |i: int| 0u8),
            decreases aligned_len - aligned@.len(),
        {
            aligned.push(0);
            assert(aligned@ =~= raw + Seq::new((aligned@.len() - raw.len()) as nat, |i: int| 0u8));
        }
    }
    aligned
}

/// Parses `nsec` consecutive section headers starting at `start`, with
/// each section's raw data.
fn parse_sections(d: &[u8], start: usize, nsec: usize, file_alignment: u32) -> (r: Option<
    (Vec<SectionHeader>, Vec<Vec<u8>>),
>)
    requires
        d@.len() <= isize::MAX,
        start <= d@.len() + 24 + 0x1_0000,
        nsec <= 0xffff,
    ensures
        nsec > 0 && start + 40 * nsec > d@.len() ==> r is None,
        !(nsec > 0 && start + 40 * nsec > d@.len()) ==> (r matches Some((secs, datas)) && {
            &&& secs@.len() == nsec
            &&& datas@.len() == nsec
            &&& forall|k: int|
                0 <= k < nsec ==> is_section_header_at(#[trigger] secs@[k], d@, start + 40 * k)
            &&& forall|k: int|
                0 <= k < nsec ==> #[trigger] datas@[k]@ == spec_section_data(
                    d@,
                    secs@[k],
                    file_alignment,
                )
        }),
{
    let mut sections: Vec<SectionHeader> = Vec::new();
    let mut section_data: Vec<Vec<u8>> = Vec::new();
    let mut x: usize = 0;
    while x < nsec
        invariant
            d@.len() <= isize::MAX,
            start <= d@.len() + 24 + 0x1_0000,
            nsec <= 0xffff,
            x <= nsec,
            sections@.len() == x,
            section_data@.len() == x,
            x > 0 ==> start + 40 * x <= d@.len(),
            forall|k: int|
                0 <= k < x ==> is_section_header_at(#[trigger] sections@[k], d@, start + 40 * k),
            forall|k: int|
                0 <= k < x ==> #[trigger] section_data@[k]@ == spec_section_data(
                    d@,
                    sections@[k],
                    file_alignment,
                ),
        decreases nsec - x,
    {
        let off = start + x * 40;
        let sec = match SectionHeader::parse(d, off) {
            Some(s) => s,
            None => {
                assert(40 * nsec >= 40 * x + 40) by (nonlinear_arith)
                    requires
                        x < nsec,
                ;
                return None;
            },
        };
        section_data.push(load_section_data(d, &sec, file_alignment));
        sections.push(sec);
        x += 1;
    }
    if nsec > 0 {
        assert(start + 40 * nsec <= d@.len());
    }
    Some((sections, section_data))
}

/// The data trailing the last section, if the file extends past it.
fn overlay_of(d: &[u8], sections: &[SectionHeader]) -> (r: Option<Vec<u8>>)
    ensures
        match spec_overlay(d@, sections@) {
            Some(o) => r matches Some(v) && v@ == o,
            None => r is None,
        },
{
    if sections.len() > 0 {
        let last = &sections[sections.len() - 1];
        let end = last.pointer_to_raw_data as u64 + last.size_of_raw_data as u64;
        if end < d.len() as u64 {
            Some(vstd::slice::slice_to_vec(vstd::slice::slice_subrange(d, end as usize, d.len())))
        } else {
            None
        }
    } else {
        None
    }
}

impl PeFile {
    /// The parsed image keeps one data buffer per section header, and its
    /// data fits in memory.
    pub open spec fn wf(&self) -> bool {
        &&& self.sections@.len() == self.section_data@.len()
        &&& self.data@.len() <= isize::MAX
    }

    /// Parses PE data that has already been loaded into memory.
    #[verifier::rlimit(40)]
    pub fn from_bytes(data: Vec<u8>, path: std::path::PathBuf) -> (r: Result<Self, Error>)
        requires
            data@.len() <= isize::MAX,
        ensures
            match pe_parse_error(data@) {
                Some(m) => r matches Err(Error::InvalidPe(s)) && s@ == m,
                None => r matches Ok(pe) && parsed_image(pe, data@) && pe.path == path && pe.wf(),
            },
    {
        proof {
            reveal_strlit("truncated section header");
        }
        // DOS header.
        let dos_header = match DosHeader::parse(data.as_slice()) {
            Some(h) => h,
            None => return Err(Error::InvalidPe("truncated DOS header".to_owned())),
        };
        if !dos_header.is_valid() {
            return Err(Error::InvalidPe("missing MZ magic".to_owned()));
        }

        let nt_headers_offset = dos_header.e_lfanew as usize;
        if nt_headers_offset > data.len() || data.len() - nt_headers_offset < 24 {
            return Err(Error::InvalidPe("truncated NT headers".to_owned()));
        }

        // Signature (PE\0\0).
        let signature = match data.as_slice().rd_u32(nt_headers_offset) {
            Some(s) => s,
            None => return Err(Error::InvalidPe("missing PE signature".to_owned())),
        };
        if signature != 0x0000_4550 {
            return Err(Error::InvalidPe("missing PE\\0\\0 signature".to_owned()));
        }

        // File header.
        let fh_off = nt_headers_offset + 4;
        let d = data.as_slice();
        let file_header = FileHeader {
            machine: match d.rd_u16(fh_off) { Some(v) => v, None => 0 },
            number_of_sections: match d.rd_u16(fh_off + 2) { Some(v) => v, None => 0 },
            time_date_stamp: match d.rd_u32(fh_off + 4) { Some(v) => v, None => 0 },
            pointer_to_symbol_table: match d.rd_u32(fh_off + 8) { Some(v) => v, None => 0 },
            number_of_symbols: match d.rd_u32(fh_off + 12) { Some(v) => v, None => 0 },
            size_of_optional_header: match d.rd_u16(fh_off + 16) { Some(v) => v, None => 0 },
            characteristics: match d.rd_u16(fh_off + 18) { Some(v) => v, None => 0 },
        };
        assert(file_header == spec_file_header(data@, nt_headers_offset + 4));

        // Optional header.
        let oh_off = fh_off + FileHeader::SIZE;
        let optional = match parse_optional_header(
            d,
            oh_off,
            file_header.size_of_optional_header as usize,
        ) {
            Some(o) => o,
            None => return Err(Error::InvalidPe("invalid optional header".to_owned())),
        };
        let bits = optional.bits();

        // DOS stub (data between the DOS header and the NT headers).
        let dos_stub_offset = DosHeader::SIZE;
        let dos_stub_size = nt_headers_offset.saturating_sub(DosHeader::SIZE);
        let dos_stub = if dos_stub_size > 0 {
            match d.rd_bytes(dos_stub_offset, dos_stub_size) {
                Some(b) => vstd::slice::slice_to_vec(b),
                None => Vec::new(),
            }
        } else {
            Vec::new()
        };

        // Sections.
        let sections_start = oh_off + file_header.size_of_optional_header as usize;
        let nsec = file_header.number_of_sections as usize;
        assert(pe_parse_error(data@) == (if nsec > 0 && sections_start + 40 * nsec > data@.len() {
            Some("truncated section header"@)
        } else {
            None::<Seq<char>>
        }));
        let (sections, section_data) = match parse_sections(
            d,
            sections_start,
            nsec,
            optional.file_alignment,
        ) {
            Some(p) => p,
            None => return Err(Error::InvalidPe("truncated section header".to_owned())),
        };

        // Overlay data.
        let overlay = overlay_of(d, sections.as_slice());

        // TLS information.
        let mut tls_directory = None;
        let mut tls_callbacks = Vec::new();
        match read_tls(d, bits, &optional, sections.as_slice()) {
            Ok(Some(tls)) => {
                tls_directory = Some(tls.0);
                tls_callbacks = tls.1;
            },
            _ => {},
        }

        Ok(
            Self {
                path,
                data,
                bits,
                dos_header,
                dos_stub_offset,
                dos_stub_size,
                dos_stub,
                nt_headers_offset,
                signature,
                file_header,
                optional,
                sections,
                section_data,
                overlay,
                tls_directory,
                tls_callbacks,
            },
        )
    }
}


/// `s` with its addresses and sizes rounded up to the image's alignments.
pub open spec fn realigned(s: SectionHeader, section_alignment: u32, file_alignment: u32) -> SectionHeader {
    SectionHeader {
        virtual_address: reader::spec_align_up(
            s.virtual_address as int,
            section_alignment as int,
        ) as u32,
        virtual_size: reader::spec_align_up(s.virtual_size as int, section_alignment as int) as u32,
        pointer_to_raw_data: reader::spec_align_up(
            s.pointer_to_raw_data as int,
            file_alignment as int,
        ) as u32,
        size_of_raw_data: reader::spec_align_up(
            s.size_of_raw_data as int,
            file_alignment as int,
        ) as u32,
        ..s
    }
}

/// The `SizeOfImage` implied by the last section: its end, aligned to the
/// section alignment; `current` when there are no sections.
pub open spec fn spec_size_of_image(secs: Seq<SectionHeader>, section_alignment: u32, current: u32) -> u32 {
    if secs.len() > 0 {
        let last = secs.last();
        reader::spec_align_up(
            last.virtual_address as int + last.virtual_size as int,
            section_alignment as int,
        ) as u32
    } else {
        current
    }
}

/// Aligning a 33-bit value to a 32-bit alignment stays within 64 bits.
proof fn lemma_align_fits(value: int, align: int)
    requires
        0 <= value < 0x2_0000_0000,
        0 <= align < 0x1_0000_0000,
    ensures
        0 <= reader::spec_align_up(value, align) <= u64::MAX,
{
    if align > 0 {
        reader::lemma_align_up(value, align);
    }
}

/// `b` has every field of `a` but the section table and the optional header.
pub open spec fn same_but_layout(a: PeFile, b: PeFile) -> bool {
    &&& b.path == a.path
    &&& b.data == a.data
    &&& b.bits == a.bits
    &&& b.dos_header == a.dos_header
    &&& b.dos_stub_offset == a.dos_stub_offset
    &&& b.dos_stub_size == a.dos_stub_size
    &&& b.dos_stub == a.dos_stub
    &&& b.nt_headers_offset == a.nt_headers_offset
    &&& b.signature == a.signature
    &&& b.file_header == a.file_header
    &&& b.overlay == a.overlay
    &&& b.tls_directory == a.tls_directory
    &&& b.tls_callbacks == a.tls_callbacks
}

/// `b` is `a` after its sections were (optionally) realigned and its image
/// size recomputed from the last section.
pub open spec fn is_rebuilt(a: PeFile, b: PeFile, realign: bool) -> bool {
    &&& b.sections@.len() == a.sections@.len()
    &&& realign ==> forall|i: int|
        0 <= i < a.sections@.len() ==> #[trigger] b.sections@[i] == realigned(
            a.sections@[i],
            a.optional.section_alignment,
            a.optional.file_alignment,
        )
    &&& !realign ==> b.sections@ == a.sections@
    &&& b.optional == (OptionalHeader {
        size_of_image: spec_size_of_image(
            b.sections@,
            a.optional.section_alignment,
            a.optional.size_of_image,
        ),
        ..a.optional
    })
    &&& b.section_data == a.section_data
    &&& same_but_layout(a, b)
}

/// Every value that realigning `s` produces fits in 32 bits.
pub open spec fn realign_fits(s: SectionHeader, section_alignment: u32, file_alignment: u32) -> bool {
    &&& reader::spec_align_up(s.virtual_address as int, section_alignment as int) <= u32::MAX
    &&& reader::spec_align_up(s.virtual_size as int, section_alignment as int) <= u32::MAX
    &&& reader::spec_align_up(s.pointer_to_raw_data as int, file_alignment as int) <= u32::MAX
    &&& reader::spec_align_up(s.size_of_raw_data as int, file_alignment as int) <= u32::MAX
}

/// Aligning an aligned value again keeps it.
proof fn lemma_align_twice(value: u32, align: u32)
    requires
        reader::spec_align_up(value as int, align as int) <= u32::MAX,
    ensures
        reader::spec_align_up(
            reader::spec_align_up(value as int, align as int) as u32 as int,
            align as int,
        ) == reader::spec_align_up(value as int, align as int),
{
    if align > 0 {
        reader::lemma_align_up(value as int, align as int);
    }
}

/// Realigning a realigned section header changes nothing.
proof fn lemma_realigned_twice(s: SectionHeader, section_alignment: u32, file_alignment: u32)
    requires
        realign_fits(s, section_alignment, file_alignment),
    ensures
        realigned(realigned(s, section_alignment, file_alignment), section_alignment, file_alignment)
            == realigned(s, section_alignment, file_alignment),
{
    lemma_align_twice(s.virtual_address, section_alignment);
    lemma_align_twice(s.virtual_size, section_alignment);
    lemma_align_twice(s.pointer_to_raw_data, file_alignment);
    lemma_align_twice(s.size_of_raw_data, file_alignment);
}

/// Rebuilding with realignment a second time changes nothing, as long as
/// every realigned value of the first rebuild fits in 32 bits.
pub proof fn lemma_rebuild_idempotent(a: PeFile, b: PeFile, c: PeFile)
    requires
        is_rebuilt(a, b, true),
        is_rebuilt(b, c, true),
        forall|i: int|
            0 <= i < a.sections@.len() ==> realign_fits(
                #[trigger] a.sections@[i],
                a.optional.section_alignment,
                a.optional.file_alignment,
            ),
    ensures
        c.sections@ == b.sections@,
        c.optional == b.optional,
        c.section_data == b.section_data,
        same_but_layout(b, c),
{
    let sa = a.optional.section_alignment;
    let fa = a.optional.file_alignment;
    assert forall|i: int| 0 <= i < b.sections@.len() implies #[trigger] c.sections@[i]
        == b.sections@[i] by {
        assert(b.sections@[i] == realigned(a.sections@[i], sa, fa));
        lemma_realigned_twice(a.sections@[i], sa, fa);
    }
    assert(c.sections@ =~= b.sections@);
}

impl PeFile {
    /// True if the machine type marks the image as 64-bit (AMD64).
    pub fn is_file_64(&self) -> (r: bool)
        ensures
            r == (self.file_header.machine == 0x8664),
    {
        self.file_header.machine == 0x8664
    }

    /// Whether the file contains a section with the given name (ASCII case
    /// ignored).
    pub fn has_section(&self, name: &str) -> (r: bool)
        ensures
            r == spec_section_index(self.sections@, name@) is Some,
    {
        named_index(self.sections.as_slice(), name).is_some()
    }

    /// Returns the first section with the given name, if present.
    pub fn get_section(&self, name: &str) -> (r: Option<&SectionHeader>)
        ensures
            match spec_section_index(self.sections@, name@) {
                Some(i) => r matches Some(s) && *s == self.sections@[i],
                None => r is None,
            },
    {
        match named_index(self.sections.as_slice(), name) {
            Some(i) => Some(&self.sections[i]),
            None => None,
        }
    }

    /// Returns the index of the first section that covers `rva`, if any.
    pub fn get_section_index_by_rva(&self, rva: u64) -> (r: Option<usize>)
        ensures
            r matches Some(i) ==> i < self.sections@.len() && spec_owner_index(
                self.sections@,
                rva as int,
            ) == Some(i as int),
            match spec_owner_index(self.sections@, rva as int) {
                Some(i) => r == Some(i as usize),
                None => r is None,
            },
    {
        owner_index(self.sections.as_slice(), rva)
    }

    /// Returns the first section that covers `rva`, if any.
    pub fn get_owner_section(&self, rva: u64) -> (r: Option<&SectionHeader>)
        ensures
            match spec_owner_index(self.sections@, rva as int) {
                Some(i) => r matches Some(s) && *s == self.sections@[i],
                None => r is None,
            },
    {
        match owner_index(self.sections.as_slice(), rva) {
            Some(i) => Some(&self.sections[i]),
            None => None,
        }
    }

    /// Returns a section's data by index.
    pub fn get_section_data(&self, index: usize) -> (r: Option<&[u8]>)
        ensures
            index < self.section_data@.len() ==> (r matches Some(d) && d@
                == self.section_data@[index as int]@),
            index >= self.section_data@.len() ==> r is None,
    {
        if index < self.section_data.len() {
            Some(self.section_data[index].as_slice())
        } else {
            None
        }
    }

    /// Returns the data of the first section with the given name.
    pub fn get_section_data_by_name(&self, name: &str) -> (r: Option<&[u8]>)
        ensures
            match spec_section_index(self.sections@, name@) {
                Some(i) => if i < self.section_data@.len() {
                    r matches Some(d) && d@ == self.section_data@[i]@
                } else {
                    r is None
                },
                None => r is None,
            },
    {
        match named_index(self.sections.as_slice(), name) {
            Some(i) => self.get_section_data(i),
            None => None,
        }
    }

    /// Returns the index of the first section with the given name.
    pub fn get_section_index(&self, name: &str) -> (r: Option<usize>)
        ensures
            r matches Some(i) ==> i < self.sections@.len() && spec_section_index(
                self.sections@,
                name@,
            ) == Some(i as int),
            match spec_section_index(self.sections@, name@) {
                Some(i) => r == Some(i as usize),
                None => r is None,
            },
    {
        named_index(self.sections.as_slice(), name)
    }

    /// Returns the index of `section` when it is one of this file's own
    /// section headers (the same object, not merely an equal one).
    ///
    /// Whether a header is the same object is a question of addresses, which
    /// the contract does not state: it states only that a header found equals
    /// `section`, so that no index is returned when no header equals it.
    pub fn section_index_of(&self, section: &SectionHeader) -> (r: Option<usize>)
        ensures
            r matches Some(i) ==> i < self.sections@.len() && self.sections@[i as int] == *section,
    {
        let mut i: usize = 0;
        while i < self.sections.len()
            invariant
                i <= self.sections@.len(),
            decreases self.sections@.len() - i,
        {
            if same_object(&self.sections[i], section) {
                return Some(i);
            }
            i += 1;
        }
        None
    }

    /// Removes a section header and its data by index; an index past the end
    /// leaves the file unchanged.
    pub fn remove_section(&mut self, index: usize)
        requires
            old(self).wf(),
        ensures
            final(self).wf(),
            index < old(self).sections@.len() ==> {
                &&& final(self).sections@ == old(self).sections@.remove(index as int)
                &&& final(self).section_data@ == old(self).section_data@.remove(index as int)
            },
            index >= old(self).sections@.len() ==> {
                &&& final(self).sections@ == old(self).sections@
                &&& final(self).section_data@ == old(self).section_data@
            },
            final(self).optional == old(self).optional,
            same_but_layout(*old(self), *final(self)),
    {
        if index < self.sections.len() {
            self.sections.remove(index);
            self.section_data.remove(index);
        }
    }

    /// Aligns the section values (optionally) and recomputes SizeOfImage from
    /// the last section.
    pub fn rebuild_sections(&mut self, realign: bool)
        ensures
            is_rebuilt(*old(self), *final(self), realign),
    {
        let sa = self.optional.section_alignment as u64;
        let fa = self.optional.file_alignment as u64;
        if realign {
            let mut i: usize = 0;
            while i < self.sections.len()
                invariant
                    i <= self.sections@.len(),
                    self.sections@.len() == old(self).sections@.len(),
                    sa == old(self).optional.section_alignment,
                    fa == old(self).optional.file_alignment,
                    self.optional == old(self).optional,
                    self.section_data == old(self).section_data,
                    same_but_layout(*old(self), *self),
                    forall|k: int|
                        0 <= k < i ==> #[trigger] self.sections@[k] == realigned(
                            old(self).sections@[k],
                            old(self).optional.section_alignment,
                            old(self).optional.file_alignment,
                        ),
                    forall|k: int|
                        i <= k < self.sections@.len() ==> #[trigger] self.sections@[k]
                            == old(self).sections@[k],
                decreases self.sections@.len() - i,
            {
                let mut s = self.sections[i];
                proof {
                    lemma_align_fits(s.virtual_address as int, sa as int);
                    lemma_align_fits(s.virtual_size as int, sa as int);
                    lemma_align_fits(s.pointer_to_raw_data as int, fa as int);
                    lemma_align_fits(s.size_of_raw_data as int, fa as int);
                }
                s.virtual_address = reader::align_up(s.virtual_address as u64, sa) as u32;
                s.virtual_size = reader::align_up(s.virtual_size as u64, sa) as u32;
                s.pointer_to_raw_data = reader::align_up(s.pointer_to_raw_data as u64, fa) as u32;
                s.size_of_raw_data = reader::align_up(s.size_of_raw_data as u64, fa) as u32;
                self.sections.set(i, s);
                i += 1;
            }
            assert(self.sections@.len() == old(self).sections@.len());
        }
        if self.sections.len() > 0 {
            let last = self.sections[self.sections.len() - 1];
            let end = last.virtual_address as u64 + last.virtual_size as u64;
            proof {
                lemma_align_fits(end as int, sa as int);
            }
            self.optional.size_of_image = reader::align_up(end, sa) as u32;
        }
        proof {
            if !realign {
                assert(self.sections@ =~= old(self).sections@);
            }
        }
    }

    /// Converts a virtual address to a relative virtual address (saturating
    /// at zero).
    pub fn get_rva_from_va(&self, va: u64) -> (r: u64)
        ensures
            r == (if va >= self.optional.image_base {
                va - self.optional.image_base
            } else {
                0
            }),
    {
        if va >= self.optional.image_base {
            va - self.optional.image_base
        } else {
            0
        }
    }

    /// Resolves an RVA to its raw file offset through the section that owns
    /// it; an RVA outside every section is returned as it is.
    pub fn get_file_offset_from_rva(&self, rva: u64) -> (r: u64)
        ensures
            r == spec_file_offset(self.sections@, rva),
    {
        match owner_index(self.sections.as_slice(), rva) {
            Some(i) => {
                let sec = &self.sections[i];
                rva.wrapping_sub(
                    (sec.virtual_address as u64).wrapping_sub(sec.pointer_to_raw_data as u64),
                )
            },
            None => rva,
        }
    }
}

} // verus!
