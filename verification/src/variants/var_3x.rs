//! Shared implementation for the SteamStub 3.x variants.
//!
//! Variants 3.0 and 3.1 (x86 and x64) differ only in the header layout and a
//! handful of per-variant behaviors; everything else is shared here.

use vstd::prelude::*;

use crate::crypto::xtea::{steam_xor, xor_count, xor_decode, xor_key_at};
use crate::pattern::{
    find_pattern, lemma_ascii_pattern_completes, pattern_offset, pattern_parse_completes,
    spec_parse_pattern,
};
use crate::pe::pe_file::{
    section_named, spec_file_offset, spec_owner_index, spec_section_index, str_eq_ignore_ascii_case,
};
use crate::pe::reader::{in_bounds, le_bytes_u64, le_i32, le_u32, le_u64, read_u32_at, splice, Buf};
use crate::pe::PeFile;
use crate::crypto::aes::{aes256_decrypt, pad_to, spec_decrypt, AesHelper, AesMode};
use crate::crypto::xtea::{drmp_decode, lemma_four_keys_fit, steam_drmp_pass1, DELTA};
use crate::logger::{Level, Logger};
use crate::options::Options;
use crate::pe::pe_file::is_rebuilt;
use crate::variants::common::{
    message, read_range, remove_bind_section, save_full, saved_image, spec_read_range, bind_removal,
    Dumps, DRM_FLAG_NO_ENCRYPTION,
};
use crate::{failure, outcome, Error, Failure};

verus! {

/// Which Variant 3.x family a file belongs to.
#[derive(Clone, Copy, Debug, PartialEq, Eq, Structural)]
pub enum Variant {
    V30,
    V31,
}

/// The decoded SteamStub 3.x DRM header.
pub struct Var3xHeader {
    /// Key dword stored at header offset 0 (after XOR decode).
    pub xor_key: u32,
    /// Structure signature (0xC0DEC0DE for v3.0, 0xC0DEC0DF for v3.1).
    pub signature: u32,
    pub bind_section_offset: u32,
    pub original_entry_point: u32,
    pub payload_size: u32,
    pub drmp_dll_offset: u32,
    pub drmp_dll_size: u32,
    pub flags: u32,
    pub code_section_virtual_address: u64,
    pub code_section_raw_size: u64,
    pub aes_key: [u8; 32],
    pub aes_iv: [u8; 16],
    pub code_section_stolen_data: [u8; 16],
    pub encryption_keys: [u32; 4],
    pub has_tls_callback: u32,
}

/// v3.0/v3.1 x86 shared stub signature.
pub const X86_VARIANT: &'static str =
    "E8 00 00 00 00 50 53 51 52 56 57 55 8B 44 24 1C 2D 05 00 00 00 8B CC 83 E4 F0 51 51 51 50";
/// v3.0/v3.1 x64 shared stub signature.
pub const X64_VARIANT: &'static str = "E8 00 00 00 00 50 53 51 52 56 57 55 41 50";
/// v3.0 header size pattern (the `lea eax, [mem+headerSize]` prologue).
pub const X86_V30_HEADER_SIZE_PATTERN: &'static str = "55 8B EC 81 EC ?? ?? ?? ?? 53 ?? ?? ?? ?? ?? 68";
pub const X86_V30_HEADER_SIZE_PATTERN_2: &'static str =
    "55 8B EC 81 EC ?? ?? ?? ?? 53 ?? ?? ?? ?? ?? 8D 83";
/// v3.x x64 header size patterns (lea with an absolute displacement).
pub const X64_HEADER_SIZE_48: &'static str = "48 8D 91 ?? ?? ?? ?? 48";
pub const X64_HEADER_SIZE_41: &'static str = "48 8D 91 ?? ?? ?? ?? 41";
/// v3.1 x86 version patterns (v3.1 / v3.1.1 / v3.1.2).
pub const X86_V31_HEADER_SIZE_68: &'static str = "55 8B EC 81 EC ?? ?? ?? ?? 53 ?? ?? ?? ?? ?? 68";
pub const X86_V31_HEADER_SIZE_8D83: &'static str = "55 8B EC 81 EC ?? ?? ?? ?? 53 ?? ?? ?? ?? ?? 8D 83";
pub const X86_V31_HEADER_SIZE_8D: &'static str =
    "55 8B EC 81 EC ?? ?? ?? ?? 56 ?? ?? ?? ?? ?? ?? ?? ?? ?? ?? 8D";
/// v3.1.2 x64 header size pattern.
pub const X64_V31_HEADER_SIZE_C7: &'static str = "48 C7 84 24 ?? ?? ?? ?? ?? ?? ?? ?? 48";
/// Pattern used to recover the true OEP when the TLS callback hides it (v3.0 x64).
pub const TLS_OEP_KEY_PATTERN: &'static str = "48 81 EA ?? ?? ?? ?? 8B 12 81 F2";

/// Every 3.x search pattern parses to completion.
pub proof fn lemma_patterns_complete()
    ensures
        pattern_parse_completes(X86_VARIANT@),
        pattern_parse_completes(X64_VARIANT@),
        pattern_parse_completes(X86_V30_HEADER_SIZE_PATTERN@),
        pattern_parse_completes(X86_V30_HEADER_SIZE_PATTERN_2@),
        pattern_parse_completes(X64_HEADER_SIZE_48@),
        pattern_parse_completes(X64_HEADER_SIZE_41@),
        pattern_parse_completes(X86_V31_HEADER_SIZE_68@),
        pattern_parse_completes(X86_V31_HEADER_SIZE_8D83@),
        pattern_parse_completes(X86_V31_HEADER_SIZE_8D@),
        pattern_parse_completes(X64_V31_HEADER_SIZE_C7@),
        pattern_parse_completes(TLS_OEP_KEY_PATTERN@),
{
    reveal_strlit(
        "E8 00 00 00 00 50 53 51 52 56 57 55 8B 44 24 1C 2D 05 00 00 00 8B CC 83 E4 F0 51 51 51 50",
    );
    reveal_strlit("E8 00 00 00 00 50 53 51 52 56 57 55 41 50");
    reveal_strlit("55 8B EC 81 EC ?? ?? ?? ?? 53 ?? ?? ?? ?? ?? 68");
    reveal_strlit("55 8B EC 81 EC ?? ?? ?? ?? 53 ?? ?? ?? ?? ?? 8D 83");
    reveal_strlit("48 8D 91 ?? ?? ?? ?? 48");
    reveal_strlit("48 8D 91 ?? ?? ?? ?? 41");
    reveal_strlit("55 8B EC 81 EC ?? ?? ?? ?? 56 ?? ?? ?? ?? ?? ?? ?? ?? ?? ?? 8D");
    reveal_strlit("48 C7 84 24 ?? ?? ?? ?? ?? ?? ?? ?? 48");
    reveal_strlit("48 81 EA ?? ?? ?? ?? 8B 12 81 F2");
    lemma_ascii_pattern_completes(X86_VARIANT@);
    lemma_ascii_pattern_completes(X64_VARIANT@);
    lemma_ascii_pattern_completes(X86_V30_HEADER_SIZE_PATTERN@);
    lemma_ascii_pattern_completes(X86_V30_HEADER_SIZE_PATTERN_2@);
    lemma_ascii_pattern_completes(X64_HEADER_SIZE_48@);
    lemma_ascii_pattern_completes(X64_HEADER_SIZE_41@);
    lemma_ascii_pattern_completes(X86_V31_HEADER_SIZE_8D@);
    lemma_ascii_pattern_completes(X64_V31_HEADER_SIZE_C7@);
    lemma_ascii_pattern_completes(TLS_OEP_KEY_PATTERN@);
}

/// The number of header bytes `parse_header` reads for a variant.
pub open spec fn header_len(variant: Variant) -> int {
    match variant {
        Variant::V30 => 172,
        Variant::V31 => 216,
    }
}

/// The four dwords stored from `off` in `d`.
pub open spec fn four_dwords(d: Seq<u8>, off: int) -> Seq<u32> {
    seq![le_u32(d, off), le_u32(d, off + 4), le_u32(d, off + 8), le_u32(d, off + 12)]
}

/// Whether `h` is the header that the decoded bytes `d` hold for `variant`.
pub open spec fn is_header_of(h: Var3xHeader, d: Seq<u8>, variant: Variant) -> bool {
    &&& h.xor_key == le_u32(d, 0)
    &&& h.signature == le_u32(d, 4)
    &&& match variant {
        Variant::V30 => {
            &&& h.bind_section_offset == le_u32(d, 20)
            &&& h.original_entry_point == le_u32(d, 28)
            &&& h.payload_size == le_u32(d, 36)
            &&& h.drmp_dll_offset == le_u32(d, 40)
            &&& h.drmp_dll_size == le_u32(d, 44)
            &&& h.flags == le_u32(d, 52)
            &&& h.code_section_virtual_address == le_u32(d, 64) as u64
            &&& h.code_section_raw_size == le_u32(d, 68) as u64
            &&& h.aes_key@ == d.subrange(72, 104)
            &&& h.aes_iv@ == d.subrange(120, 136)
            &&& h.code_section_stolen_data@ == d.subrange(136, 152)
            &&& h.encryption_keys@ == four_dwords(d, 152)
            &&& h.has_tls_callback == le_u32(d, 168)
        },
        Variant::V31 => {
            &&& h.bind_section_offset == le_u32(d, 24)
            &&& h.original_entry_point == le_u32(d, 32)
            &&& h.payload_size == le_u32(d, 44)
            &&& h.drmp_dll_offset == le_u32(d, 48)
            &&& h.drmp_dll_size == le_u32(d, 52)
            &&& h.flags == le_u32(d, 60)
            &&& h.code_section_virtual_address == le_u64(d, 72)
            &&& h.code_section_raw_size == le_u64(d, 80)
            &&& h.aes_key@ == d.subrange(88, 120)
            &&& h.aes_iv@ == d.subrange(168, 184)
            &&& h.code_section_stolen_data@ == d.subrange(184, 200)
            &&& h.encryption_keys@ == four_dwords(d, 200)
            &&& h.has_tls_callback == 0
        },
    }
}

/// The signed dword stored little-endian at `off`, when it lies inside `data`.
pub open spec fn spec_rd_i32(data: Seq<u8>, off: int) -> Option<i32> {
    if in_bounds(data.len() as int, off, 4) {
        Some(le_i32(data, off))
    } else {
        None
    }
}

/// Reads a little-endian i32 as-is.
pub fn rd_i32(data: &[u8], off: usize) -> (r: Option<i32>)
    ensures
        r == spec_rd_i32(data@, off as int),
{
    if off > data.len() || data.len() - off < 4 {
        return None;
    }
    let u = read_u32_at(data, off);
    if u >= 0x8000_0000 {
        Some((u as i64 - 0x1_0000_0000) as i32)
    } else {
        Some(u as i32)
    }
}

/// Copies `N` bytes of `data` from `off` into an array.
fn read_key(data: &[u8], off: usize) -> (r: [u8; 32])
    requires
        off + 32 <= data@.len(),
    ensures
        r@ == data@.subrange(off as int, off + 32),
{
    let mut a = [0u8; 32];
    let n = data.len();
    let mut i: usize = 0;
    while i < 32
        invariant
            off + 32 <= data@.len(),
            n == data@.len(),
            i <= 32,
            forall|k: int| 0 <= k < i ==> a@[k] == data@[off + k],
        decreases 32 - i,
    {
        a[i] = data[off + i];
        i += 1;
    }
    assert(a@ =~= data@.subrange(off as int, off + 32));
    a
}

/// Copies 16 bytes of `data` from `off` into an array.
fn read_block(data: &[u8], off: usize) -> (r: [u8; 16])
    requires
        off + 16 <= data@.len(),
    ensures
        r@ == data@.subrange(off as int, off + 16),
{
    let mut a = [0u8; 16];
    let n = data.len();
    let mut i: usize = 0;
    while i < 16
        invariant
            off + 16 <= data@.len(),
            n == data@.len(),
            i <= 16,
            forall|k: int| 0 <= k < i ==> a@[k] == data@[off + k],
        decreases 16 - i,
    {
        a[i] = data[off + i];
        i += 1;
    }
    assert(a@ =~= data@.subrange(off as int, off + 16));
    a
}

/// Reads the little-endian `u64` at `off`.
fn read_u64_at(data: &[u8], off: usize) -> (r: u64)
    requires
        off + 8 <= data@.len(),
    ensures
        r == le_u64(data@, off as int),
{
    let n = data.len();
    let lo = read_u32_at(data, off) as u64;
    let hi = read_u32_at(data, off + 4) as u64;
    lo + hi * 0x1_0000_0000
}

/// Parses the decoded header bytes of `variant`.
pub fn parse_header(data: &[u8], variant: Variant) -> (r: Result<Var3xHeader, Error>)
    ensures
        data@.len() >= header_len(variant) ==> (r matches Ok(h) && is_header_of(
            h,
            data@,
            variant,
        )),
        data@.len() < header_len(variant) ==> r matches Err(Error::OutOfBounds),
{
    match variant {
        Variant::V30 => {
            if data.len() < 172 {
                return Err(Error::OutOfBounds);
            }
            let keys = [
                read_u32_at(data, 152),
                read_u32_at(data, 156),
                read_u32_at(data, 160),
                read_u32_at(data, 164),
            ];
            assert(keys@ =~= four_dwords(data@, 152));
            Ok(
                Var3xHeader {
                    xor_key: read_u32_at(data, 0),
                    signature: read_u32_at(data, 4),
                    bind_section_offset: read_u32_at(data, 20),
                    original_entry_point: read_u32_at(data, 28),
                    payload_size: read_u32_at(data, 36),
                    drmp_dll_offset: read_u32_at(data, 40),
                    drmp_dll_size: read_u32_at(data, 44),
                    flags: read_u32_at(data, 52),
                    code_section_virtual_address: read_u32_at(data, 64) as u64,
                    code_section_raw_size: read_u32_at(data, 68) as u64,
                    aes_key: read_key(data, 72),
                    aes_iv: read_block(data, 120),
                    code_section_stolen_data: read_block(data, 136),
                    encryption_keys: keys,
                    has_tls_callback: read_u32_at(data, 168),
                },
            )
        },
        Variant::V31 => {
            if data.len() < 216 {
                return Err(Error::OutOfBounds);
            }
            let keys = [
                read_u32_at(data, 200),
                read_u32_at(data, 204),
                read_u32_at(data, 208),
                read_u32_at(data, 212),
            ];
            assert(keys@ =~= four_dwords(data@, 200));
            Ok(
                Var3xHeader {
                    xor_key: read_u32_at(data, 0),
                    signature: read_u32_at(data, 4),
                    bind_section_offset: read_u32_at(data, 24),
                    original_entry_point: read_u32_at(data, 32),
                    payload_size: read_u32_at(data, 44),
                    drmp_dll_offset: read_u32_at(data, 48),
                    drmp_dll_size: read_u32_at(data, 52),
                    flags: read_u32_at(data, 60),
                    code_section_virtual_address: read_u64_at(data, 72),
                    code_section_raw_size: read_u64_at(data, 80),
                    aes_key: read_key(data, 88),
                    aes_iv: read_block(data, 168),
                    code_section_stolen_data: read_block(data, 184),
                    encryption_keys: keys,
                    has_tls_callback: 0,
                },
            )
        },
    }
}

/// Header size the variant is looking for, when the struct layout is fixed
/// (zero for v3.0, whose size is found in the stub).
pub fn expected_size(variant: Variant) -> (r: u32)
    ensures
        r == (match variant {
            Variant::V30 => 0u32,
            Variant::V31 => 0xF0u32,
        }),
{
    match variant {
        Variant::V30 => 0x00,
        Variant::V31 => 0xF0,
    }
}

/// True when the header size matches a known v3.0 layout (0xB0/0xD0).
pub fn is_v30_size(size: u32) -> (r: bool)
    ensures
        r == (size == 0xB0 || size == 0xD0),
{
    size == 0xB0 || size == 0xD0
}

/// Whether the code section validity is enforced for this variant.
pub fn validates_code_section(variant: Variant, is64: bool) -> (r: bool)
    ensures
        r == !(variant == Variant::V31 && is64),
{
    !(variant == Variant::V31 && is64)
}

/// The `.bind` bytes the header size is searched in: the first `.bind`
/// section's data, cut to 0x3000 bytes for v3.1 x64.
pub open spec fn bind_window(pe: PeFile, variant: Variant, is64: bool) -> Option<Seq<u8>> {
    match spec_section_index(pe.sections@, ".bind"@) {
        Some(i) if i < pe.section_data@.len() => {
            let b = pe.section_data@[i]@;
            if is64 && variant == Variant::V31 && b.len() > 0x3000 {
                Some(b.take(0x3000))
            } else {
                Some(b)
            }
        },
        _ => None,
    }
}

/// The dword at `at` read as signed and taken as unsigned.
pub open spec fn i32_field(b: Seq<u8>, at: int) -> Result<u32, Failure> {
    match spec_rd_i32(b, at) {
        Some(v) => Ok(v as u32),
        None => Err(Failure::OutOfBounds),
    }
}

/// The magnitude of the signed dword at `at`.
pub open spec fn i32_abs_field(b: Seq<u8>, at: int) -> Result<u32, Failure> {
    match spec_rd_i32(b, at) {
        Some(v) => Ok(
            if v < 0 {
                (-(v as int)) as u32
            } else {
                v as u32
            },
        ),
        None => Err(Failure::OutOfBounds),
    }
}

/// The first of two patterns found in `b`.
pub open spec fn either_offset(b: Seq<u8>, p1: Seq<char>, p2: Seq<char>) -> Option<int> {
    match pattern_offset(b, p1) {
        Some(o) => Some(o),
        None => pattern_offset(b, p2),
    }
}

/// The header size that the stub in `b` names.
pub open spec fn size_from_bind(b: Seq<u8>, variant: Variant, is64: bool) -> Result<u32, Failure> {
    match (variant, is64) {
        (Variant::V30, false) => if pattern_offset(b, X86_VARIANT@) is None {
            Err(Failure::Unpack("v3.0 x86 signature not found"@))
        } else {
            match pattern_offset(b, X86_V30_HEADER_SIZE_PATTERN@) {
                Some(o) => i32_field(b, o + 16),
                None => match pattern_offset(b, X86_V30_HEADER_SIZE_PATTERN_2@) {
                    Some(o) => i32_field(b, o + 22),
                    None => Err(Failure::Unpack("v3.0 x86 header size pattern not found"@)),
                },
            }
        },
        (Variant::V30, true) => if pattern_offset(b, X64_VARIANT@) is None {
            Err(Failure::Unpack("v3.0 x64 signature not found"@))
        } else {
            match either_offset(b, X64_HEADER_SIZE_48@, X64_HEADER_SIZE_41@) {
                Some(o) => i32_abs_field(b, o + 3),
                None => Err(Failure::Unpack("v3.0 x64 header size pattern not found"@)),
            }
        },
        (Variant::V31, false) => if pattern_offset(b, X86_VARIANT@) is None {
            Err(Failure::Unpack("v3.1 x86 signature not found"@))
        } else {
            match pattern_offset(b, X86_V31_HEADER_SIZE_68@) {
                Some(o) => i32_field(b, o + 0x10),
                None => match pattern_offset(b, X86_V31_HEADER_SIZE_8D83@) {
                    Some(o) => i32_field(b, o + 0x16),
                    None => match pattern_offset(b, X86_V31_HEADER_SIZE_8D@) {
                        Some(o) => i32_field(b, o + 0x10),
                        None => Err(Failure::Unpack("v3.1 x86 version pattern not found"@)),
                    },
                },
            }
        },
        (Variant::V31, true) => if pattern_offset(b, X64_VARIANT@) is None {
            Err(Failure::Unpack("v3.1 x64 signature not found"@))
        } else {
            match either_offset(b, X64_HEADER_SIZE_48@, X64_HEADER_SIZE_41@) {
                Some(o) => i32_abs_field(b, o + 3),
                None => match pattern_offset(b, X64_V31_HEADER_SIZE_C7@) {
                    Some(o) => i32_abs_field(b, o + (if o > 0 { 5int } else { 0int }) + 3),
                    None => Err(Failure::Unpack("v3.1 x64 header size pattern not found"@)),
                },
            }
        },
    }
}

/// The SteamStub header size of `pe` for `variant`.
pub open spec fn spec_header_size(pe: PeFile, variant: Variant, is64: bool) -> Result<u32, Failure> {
    match bind_window(pe, variant, is64) {
        None => Err(Failure::Unpack("bind section data missing"@)),
        Some(b) => size_from_bind(b, variant, is64),
    }
}

/// Reads the signed dword `add` bytes past `o` in `b` as unsigned.
fn i32_at(b: &[u8], o: usize, add: usize) -> (r: Result<u32, Error>)
    ensures
        crate::outcome(r) == i32_field(b@, o + add),
{
    let n = b.len();
    let off = match o.checked_add(add) {
        Some(v) => v,
        None => return Err(Error::OutOfBounds),
    };
    match rd_i32(b, off) {
        Some(v) => Ok(v as u32),
        None => Err(Error::OutOfBounds),
    }
}

/// Reads the magnitude of the signed dword `add` bytes past `o` in `b`.
fn i32_abs_at(b: &[u8], o: usize, add: usize) -> (r: Result<u32, Error>)
    ensures
        crate::outcome(r) == i32_abs_field(b@, o + add),
{
    let n = b.len();
    let off = match o.checked_add(add) {
        Some(v) => v,
        None => return Err(Error::OutOfBounds),
    };
    match rd_i32(b, off) {
        Some(v) => Ok(
            if v < 0 {
                (-(v as i64)) as u32
            } else {
                v as u32
            },
        ),
        None => Err(Error::OutOfBounds),
    }
}

/// Finds `pat` in `b`, as an option.
fn find(b: &[u8], pat: &str) -> (r: Option<usize>)
    requires
        pattern_parse_completes(pat@),
    ensures
        match pattern_offset(b@, pat@) {
            Some(x) => r matches Some(y) && y == x && x < b@.len(),
            None => r is None,
        },
{
    match find_pattern(b, pat) {
        Ok(o) => {
            proof {
                crate::pattern::lemma_offset_in_data(b@, pat@);
            }
            Some(o)
        },
        Err(_) => None,
    }
}

/// The v3.0 x86 header size named by the stub in `bind`.
fn size_v30_x86(bind: &[u8]) -> (r: Result<u32, Error>)
    ensures
        crate::outcome(r) == size_from_bind(bind@, Variant::V30, false),
{
    proof {
        lemma_patterns_complete();
    }
    if find(bind, X86_VARIANT).is_none() {
        return Err(Error::Unpack("v3.0 x86 signature not found".to_owned()));
    }
    match find(bind, X86_V30_HEADER_SIZE_PATTERN) {
        Some(o) => i32_at(bind, o, 16),
        None => match find(bind, X86_V30_HEADER_SIZE_PATTERN_2) {
            Some(o) => i32_at(bind, o, 22),
            None => Err(Error::Unpack("v3.0 x86 header size pattern not found".to_owned())),
        },
    }
}

/// The v3.0 x64 header size named by the stub in `bind`.
fn size_v30_x64(bind: &[u8]) -> (r: Result<u32, Error>)
    ensures
        crate::outcome(r) == size_from_bind(bind@, Variant::V30, true),
{
    proof {
        lemma_patterns_complete();
    }
    if find(bind, X64_VARIANT).is_none() {
        return Err(Error::Unpack("v3.0 x64 signature not found".to_owned()));
    }
    match find(bind, X64_HEADER_SIZE_48) {
        Some(o) => i32_abs_at(bind, o, 3),
        None => match find(bind, X64_HEADER_SIZE_41) {
            Some(o) => i32_abs_at(bind, o, 3),
            None => Err(Error::Unpack("v3.0 x64 header size pattern not found".to_owned())),
        },
    }
}

/// The v3.1 x86 header size named by the stub in `bind`.
fn size_v31_x86(bind: &[u8]) -> (r: Result<u32, Error>)
    ensures
        crate::outcome(r) == size_from_bind(bind@, Variant::V31, false),
{
    proof {
        lemma_patterns_complete();
    }
    if find(bind, X86_VARIANT).is_none() {
        return Err(Error::Unpack("v3.1 x86 signature not found".to_owned()));
    }
    if let Some(offset) = find(bind, X86_V31_HEADER_SIZE_68) {
        return i32_at(bind, offset, 0x10);
    }
    if let Some(offset) = find(bind, X86_V31_HEADER_SIZE_8D83) {
        return i32_at(bind, offset, 0x16);
    }
    if let Some(offset) = find(bind, X86_V31_HEADER_SIZE_8D) {
        return i32_at(bind, offset, 0x10);
    }
    Err(Error::Unpack("v3.1 x86 version pattern not found".to_owned()))
}

/// The v3.1 x64 header size named by the stub in `bind`.
fn size_v31_x64(bind: &[u8]) -> (r: Result<u32, Error>)
    ensures
        crate::outcome(r) == size_from_bind(bind@, Variant::V31, true),
{
    proof {
        lemma_patterns_complete();
    }
    if find(bind, X64_VARIANT).is_none() {
        return Err(Error::Unpack("v3.1 x64 signature not found".to_owned()));
    }
    match find(bind, X64_HEADER_SIZE_48) {
        Some(o) => i32_abs_at(bind, o, 3),
        None => match find(bind, X64_HEADER_SIZE_41) {
            Some(o) => i32_abs_at(bind, o, 3),
            None => match find(bind, X64_V31_HEADER_SIZE_C7) {
                Some(o) => i32_abs_at(
                    bind,
                    o,
                    if o > 0 {
                        8
                    } else {
                        3
                    },
                ),
                None => Err(Error::Unpack("v3.1 x64 header size pattern not found".to_owned())),
            },
        },
    }
}

/// Locates the SteamStub header size inside the `.bind` section.
pub fn get_header_size(pe: &PeFile, variant: Variant, is64: bool) -> (r: Result<u32, Error>)
    ensures
        crate::outcome(r) == spec_header_size(*pe, variant, is64),
{
    let bind = match pe.get_section_data_by_name(".bind") {
        Some(b) => b,
        None => return Err(Error::Unpack("bind section data missing".to_owned())),
    };
    // The x64 3.1 search is limited to the first 0x3000 bytes of .bind.
    let bind = if is64 && variant == Variant::V31 && bind.len() > 0x3000 {
        vstd::slice::slice_subrange(bind, 0, 0x3000)
    } else {
        bind
    };
    assert(bind_window(*pe, variant, is64) == Some(bind@));
    match (variant, is64) {
        (Variant::V30, false) => size_v30_x86(bind),
        (Variant::V30, true) => size_v30_x64(bind),
        (Variant::V31, false) => size_v31_x86(bind),
        (Variant::V31, true) => size_v31_x64(bind),
    }
}

/// Per-file state threaded through the unpacker steps.
pub struct State {
    pub header: Var3xHeader,
    /// The XOR key carried from the header decode into the payload decode.
    pub xor_key: u32,
    pub tls_as_oep: bool,
    pub tls_oep_rva: u64,
    pub tls_oep_override: u32,
    pub code_index: Option<usize>,
    pub code_section_data: Option<Vec<u8>>,
}

/// The structure signature a variant's header carries.
pub open spec fn expected_signature(variant: Variant) -> u32 {
    match variant {
        Variant::V30 => 0xC0DEC0DEu32,
        Variant::V31 => 0xC0DEC0DFu32,
    }
}

/// `PeFile::get_rva_from_va`.
pub open spec fn rva_of(pe: PeFile, va: u64) -> u64 {
    if va >= pe.optional.image_base {
        (va - pe.optional.image_base) as u64
    } else {
        0
    }
}

/// The raw file offset of the entry point.
pub open spec fn entry_offset(pe: PeFile) -> u64 {
    spec_file_offset(pe.sections@, pe.optional.address_of_entry_point as u64)
}

/// The encoded header bytes that end at `file_offset`, or why they cannot
/// be read or parsed.
pub open spec fn header_bytes(pe: PeFile, file_offset: u64, size: u32, variant: Variant) -> Result<
    Seq<u8>,
    Failure,
> {
    if file_offset < size {
        Err(Failure::Unpack("header extends below the file start"@))
    } else {
        match spec_read_range(pe.data@, (file_offset - size) as u64, size as usize) {
            None => Err(Failure::OutOfBounds),
            Some(raw) => if raw.len() < header_len(variant) {
                Err(Failure::OutOfBounds)
            } else {
                Ok(raw)
            },
        }
    }
}

/// The XOR key left after decoding a `size`-byte header.
pub open spec fn header_key(raw: Seq<u8>, size: u32) -> u32 {
    xor_key_at(raw, size, 0, xor_count(size, 0))
}

/// `st` holds the header decoded from `raw` and nothing found yet.
pub open spec fn state_from(
    st: State,
    raw: Seq<u8>,
    size: u32,
    variant: Variant,
    tls: bool,
    rva: u64,
    oep_override: u32,
) -> bool {
    &&& st.xor_key == header_key(raw, size)
    &&& is_header_of(st.header, xor_decode(raw, size, 0), variant)
    &&& st.tls_as_oep == tls
    &&& st.tls_oep_rva == rva
    &&& st.tls_oep_override == oep_override
    &&& st.code_index is None
    &&& st.code_section_data is None
}

/// Reads, decodes and parses the header that ends at `file_offset`.
fn read_header(f: &PeFile, file_offset: u64, header_size: u32, variant: Variant) -> (r: Result<
    (u32, Var3xHeader),
    Error,
>)
    ensures
        match header_bytes(*f, file_offset, header_size, variant) {
            Err(e) => r matches Err(x) && failure(x) == e,
            Ok(raw) => r matches Ok((k, h)) && k == header_key(raw, header_size) && is_header_of(
                h,
                xor_decode(raw, header_size, 0),
                variant,
            ),
        },
{
    if file_offset < header_size as u64 {
        return Err(Error::Unpack("header extends below the file start".to_owned()));
    }
    let start = file_offset - header_size as u64;
    let mut data = match read_range(f, start, header_size as usize) {
        Ok(d) => d,
        Err(e) => return Err(e),
    };
    let ghost raw = data@;
    assert(crate::crypto::xtea::steam_xor_fits(raw.len() as int, header_size, 0)) by {
        let n = header_size as int;
        assert(n >= 4 ==> 4 + 4 * ((n - 4) / 4) <= n) by (nonlinear_arith);
        assert(n < 4 ==> 4 * (n / 4) <= n) by (nonlinear_arith);
    }
    let xor_key = steam_xor(data.as_mut_slice(), header_size, 0);
    let header = match parse_header(data.as_slice(), variant) {
        Ok(h) => h,
        Err(e) => return Err(e),
    };
    Ok((xor_key, header))
}

/// The failure `find_pattern` reports when `pattern` is not found.
pub open spec fn not_found(pattern: Seq<char>) -> Failure {
    match spec_parse_pattern(pattern) {
        Err(m) => Failure::Unpack(m),
        Ok(_) => Failure::PatternNotFound,
    }
}

/// The entry point the TLS stub hides, from the decoded header XOR key and
/// the dword found in the entry function.
pub open spec fn hidden_oep(pe: PeFile, xor_key: u32, intv: i32) -> u32 {
    let key = ((xor_key as u64 as i64) ^ (intv as i64)) as u64;
    let base = pe.optional.image_base;
    base.wrapping_add(pe.optional.address_of_entry_point as u64).wrapping_add(key).wrapping_sub(
        base,
    ) as u32
}

/// The outcome of looking for the hidden entry point after the callback
/// table was repaired.
pub open spec fn hidden_oep_search(pe: PeFile, xor_key: u32) -> Result<u32, Failure> {
    let entry = entry_offset(pe) as usize as int;
    if entry > pe.data@.len() {
        Err(Failure::OutOfBounds)
    } else {
        let window = pe.data@.subrange(
            entry,
            if pe.data@.len() - entry > 0x100 {
                entry + 0x100
            } else {
                pe.data@.len() as int
            },
        );
        match pattern_offset(window, TLS_OEP_KEY_PATTERN@) {
            None => Err(not_found(TLS_OEP_KEY_PATTERN@)),
            Some(res) => if res + 0x0F > window.len() {
                Err(Failure::OutOfBounds)
            } else {
                Ok(hidden_oep(pe, xor_key, le_i32(window, res + 0x0B)))
            },
        }
    }
}

/// What repairing the TLS callback table of `a` does: `b` is the file
/// afterwards and `res` the repaired entry point, or why it failed.
pub open spec fn tls_rebuild(a: PeFile, b: PeFile, xor_key: u32, oep: u32, res: Result<u32, Failure>) -> bool {
    let cb_rva = rva_of(a, a.tls_callbacks@[0]);
    match spec_owner_index(a.sections@, cb_rva as int) {
        None => res == Err::<u32, Failure>(Failure::Unpack("TLS callback outside of any section"@))
            && b == a,
        Some(si) => if !(a.sections@[si].size_of_raw_data != 0
            && a.sections@[si].pointer_to_raw_data != 0) || !section_named(
            a.sections@[si],
            ".bind"@,
        ) {
            res == Err::<u32, Failure>(
                Failure::Unpack("TLS callback is not within the .bind section"@),
            ) && b == a
        } else {
            match a.tls_directory {
                None => res == Err::<u32, Failure>(Failure::Unpack("missing TLS directory"@)) && b
                    == a,
                Some(t) => {
                    let addr = spec_file_offset(
                        a.sections@,
                        rva_of(a, t.address_of_callbacks),
                    );
                    match spec_owner_index(a.sections@, addr as int) {
                        None => res == Err::<u32, Failure>(
                            Failure::Unpack("TLS directory outside of any section"@),
                        ) && b == a,
                        Some(ti) => if !(a.sections@[ti].size_of_raw_data != 0
                            && a.sections@[ti].pointer_to_raw_data != 0) {
                            res == Err::<u32, Failure>(
                                Failure::Unpack("TLS directory section is invalid"@),
                            ) && b == a
                        } else {
                            let start = addr.wrapping_sub(
                                a.sections@[ti].pointer_to_raw_data as u64,
                            ) as usize as int;
                            if ti >= a.section_data@.len() || start + 8
                                > a.section_data@[ti]@.len() {
                                res == Err::<u32, Failure>(Failure::OutOfBounds) && b == a
                            } else {
                                let cb = a.optional.image_base.wrapping_add(oep as u64);
                                &&& b.section_data@.len() == a.section_data@.len()
                                &&& b.section_data@[ti]@ == splice(
                                    a.section_data@[ti]@,
                                    start,
                                    le_bytes_u64(cb),
                                )
                                &&& forall|k: int|
                                    0 <= k < a.section_data@.len() && k != ti
                                        ==> #[trigger] b.section_data@[k] == a.section_data@[k]
                                &&& b == PeFile { section_data: b.section_data, ..a }
                                &&& res == hidden_oep_search(a, xor_key)
                            }
                        },
                    }
                },
            }
        }
    }
}

/// Rebuilds the file TLS callback information and repairs the proper OEP.
fn rebuild_tls_callback_information(pe: &mut PeFile, xor_key: u32, oep: u32) -> (r: Result<
    u32,
    Error,
>)
    requires
        old(pe).wf(),
        old(pe).tls_callbacks@.len() > 0,
    ensures
        final(pe).wf(),
        tls_rebuild(*old(pe), *final(pe), xor_key, oep, outcome(r)),
{
    proof {
        lemma_patterns_complete();
    }
    // Ensure the modified main TLS callback is within the .bind section..
    let cb_rva = pe.get_rva_from_va(pe.tls_callbacks[0]);
    let si = match pe.get_section_index_by_rva(cb_rva) {
        Some(i) => i,
        None => return Err(Error::Unpack("TLS callback outside of any section".to_owned())),
    };
    let name = pe.sections[si].name_str();
    if !pe.sections[si].is_valid() || !str_eq_ignore_ascii_case(name.as_str(), ".bind") {
        return Err(Error::Unpack("TLS callback is not within the .bind section".to_owned()));
    }

    // Obtain the section that holds the TLS directory information..
    let tlsd = match pe.tls_directory {
        Some(t) => t,
        None => return Err(Error::Unpack("missing TLS directory".to_owned())),
    };
    let addr = pe.get_file_offset_from_rva(pe.get_rva_from_va(tlsd.address_of_callbacks));
    let ti = match pe.get_section_index_by_rva(addr) {
        Some(i) => i,
        None => return Err(Error::Unpack("TLS directory outside of any section".to_owned())),
    };
    if !pe.sections[ti].is_valid() {
        return Err(Error::Unpack("TLS directory section is invalid".to_owned()));
    }
    let start = #[verifier::truncate] (addr.wrapping_sub(pe.sections[ti].pointer_to_raw_data as u64) as usize);

    // Restore the true original TLS callback address (8 bytes for x64)..
    let callback = pe.optional.image_base.wrapping_add(oep as u64);
    let sd_len = pe.section_data[ti].len();
    let end = match start.checked_add(8) {
        Some(e) => e,
        None => return Err(Error::OutOfBounds),
    };
    if end > sd_len {
        return Err(Error::OutOfBounds);
    }
    let mut patched = vstd::slice::slice_to_vec(pe.section_data[ti].as_slice());
    patched.as_mut_slice().wr_u64(start, callback);
    let ghost before = *pe;
    pe.section_data.set(ti, patched);
    assert(pe.section_data@[ti as int]@ == splice(before.section_data@[ti as int]@, start as int, le_bytes_u64(callback)));
    assert(*pe == PeFile { section_data: pe.section_data, ..before });

    // Find the original entry point function..
    let entry = #[verifier::truncate] (pe.get_file_offset_from_rva(
        pe.optional.address_of_entry_point as u64,
    ) as usize);
    if entry > pe.data.len() {
        return Err(Error::OutOfBounds);
    }
    let take = if pe.data.len() - entry > 0x100 {
        entry + 0x100
    } else {
        pe.data.len()
    };
    let data = vstd::slice::slice_subrange(pe.data.as_slice(), entry, take);

    // Find the XOR key from within the function..
    let res = match find_pattern(data, TLS_OEP_KEY_PATTERN) {
        Ok(o) => o,
        Err(e) => {
            proof {
                assert(spec_parse_pattern(TLS_OEP_KEY_PATTERN@) is Ok ==> e is PatternNotFound);
            }
            return Err(e);
        },
    };
    proof {
        crate::pattern::lemma_offset_in_data(data@, TLS_OEP_KEY_PATTERN@);
    }

    // Decrypt and recalculate the true OEP address..
    if res + 0x0F > data.len() {
        return Err(Error::OutOfBounds);
    }
    let intv = match rd_i32(data, res + 0x0B) {
        Some(v) => v,
        None => return Err(Error::OutOfBounds),
    };
    let key = ((xor_key as u64 as i64) ^ (intv as i64)) as u64;
    let off = pe.optional.image_base.wrapping_add(pe.optional.address_of_entry_point as u64).wrapping_add(
        key,
    );
    Ok(off.wrapping_sub(pe.optional.image_base) as u32)
}

/// The header size step 1 works with: found in the stub for v3.0, fixed
/// for v3.1.
pub open spec fn step1_size(pe: PeFile, variant: Variant, is64: bool) -> Result<u32, Failure> {
    if variant == Variant::V30 {
        spec_header_size(pe, variant, is64)
    } else {
        Ok(0xF0u32)
    }
}

/// What step 1 does: `b` is the file afterwards and `r` the state, or why
/// it failed.
#[verifier::opaque]
pub open spec fn step1_outcome(a: PeFile, b: PeFile, variant: Variant, is64: bool, r: Result<State, Error>) -> bool {
    match step1_size(a, variant, is64) {
        Err(f) => r matches Err(e) && failure(e) == f && b == a,
        Ok(size) => match header_bytes(a, entry_offset(a), size, variant) {
            Err(f) => r matches Err(e) && failure(e) == f && b == a,
            Ok(raw) => if le_u32(xor_decode(raw, size, 0), 4) == expected_signature(variant) {
                r matches Ok(st) && state_from(st, raw, size, variant, false, 0, 0) && b == a
            } else if a.tls_callbacks@.len() == 0 {
                r matches Err(Error::Unpack(m)) && m@
                    == "header signature mismatch and no TLS callbacks"@ && b == a
            } else {
                let cb = a.tls_callbacks@[0];
                let rva = rva_of(a, cb);
                match header_bytes(a, spec_file_offset(a.sections@, rva), size, variant) {
                    Err(f) => r matches Err(e) && failure(e) == f && b == a,
                    Ok(raw2) => {
                        let d2 = xor_decode(raw2, size, 0);
                        if (variant == Variant::V31 || is64) && le_u32(d2, 4)
                            != expected_signature(variant) {
                            r matches Err(Error::Unpack(m)) && m@ == "header signature mismatch"@
                                && b == a
                        } else if variant == Variant::V30 && is64 && le_u32(d2, 168) == 1 && cb
                            != 0 {
                            match r {
                                Ok(st) => state_from(
                                    st,
                                    raw2,
                                    size,
                                    variant,
                                    true,
                                    rva,
                                    st.tls_oep_override,
                                ) && tls_rebuild(
                                    a,
                                    b,
                                    le_u32(d2, 0),
                                    le_u32(d2, 28),
                                    Ok(st.tls_oep_override),
                                ),
                                Err(e) => tls_rebuild(
                                    a,
                                    b,
                                    le_u32(d2, 0),
                                    le_u32(d2, 28),
                                    Err(failure(e)),
                                ),
                            }
                        } else {
                            r matches Ok(st) && state_from(st, raw2, size, variant, true, rva, 0)
                                && b == a
                        }
                    },
                }
            },
        },
    }
}

/// Step 1 - Read, decode and validate the SteamStub DRM header.
#[verifier::spinoff_prover]
#[verifier::rlimit(40)]
pub fn step1(pe: &mut PeFile, variant: Variant, is64: bool) -> (r: Result<State, Error>)
    requires
        old(pe).wf(),
    ensures
        final(pe).wf(),
        step1_outcome(*old(pe), *final(pe), variant, is64, r),
        r matches Ok(st) ==> st.code_index is None,
{
    proof {
        reveal(step1_outcome);
    }
    // The v3.0 header location is size dependent; v3.1 always uses 0xF0.
    let header_size = if variant == Variant::V30 {
        match get_header_size(pe, variant, is64) {
            Ok(s) => s,
            Err(e) => return Err(e),
        }
    } else {
        0xF0
    };
    let expected: u32 = match variant {
        Variant::V30 => 0xC0DEC0DE,
        Variant::V31 => 0xC0DEC0DF,
    };

    let ep = pe.get_file_offset_from_rva(pe.optional.address_of_entry_point as u64);
    let (xor_key, header) = match read_header(pe, ep, header_size, variant) {
        Ok(v) => v,
        Err(e) => return Err(e),
    };
    if header.signature == expected {
        return Ok(
            State {
                header,
                xor_key,
                tls_as_oep: false,
                tls_oep_rva: 0,
                tls_oep_override: 0,
                code_index: None,
                code_section_data: None,
            },
        );
    }
    // Try again using the TLS callback (if any) as the OEP instead..
    if pe.tls_callbacks.len() == 0 {
        return Err(Error::Unpack("header signature mismatch and no TLS callbacks".to_owned()));
    }
    let first_callback = pe.tls_callbacks[0];
    let tls_rva = pe.get_rva_from_va(first_callback);
    let (xor_key, header) = match read_header(
        pe,
        pe.get_file_offset_from_rva(tls_rva),
        header_size,
        variant,
    ) {
        Ok(v) => v,
        Err(e) => return Err(e),
    };

    // The v3.1 (and v3.0 x64) TLS paths require a matching signature; the
    // v3.0 x86 stub accepts the TLS location unconditionally.
    if (variant == Variant::V31 || is64) && header.signature != expected {
        return Err(Error::Unpack("header signature mismatch".to_owned()));
    }

    let mut tls_oep_override = 0u32;
    // v3.0 x64 only: when the TLS callback replaces the OEP, rebuild it.
    if variant == Variant::V30 && is64 && header.has_tls_callback == 1 && first_callback != 0 {
        tls_oep_override = match rebuild_tls_callback_information(
            pe,
            header.xor_key,
            header.original_entry_point,
        ) {
            Ok(v) => v,
            Err(e) => return Err(e),
        };
    }
    Ok(
        State {
            header,
            xor_key,
            tls_as_oep: true,
            tls_oep_rva: tls_rva,
            tls_oep_override,
            code_index: None,
            code_section_data: None,
        },
    )
}

/// The base RVA payload and SteamDRMP.dll offsets are relative to (paying
/// attention to the TLS fallback).
pub open spec fn spec_payload_base(st: State, pe: PeFile) -> u64 {
    let bind_offset = st.header.bind_section_offset as u64;
    if st.tls_as_oep {
        st.tls_oep_rva.wrapping_sub(bind_offset)
    } else {
        (pe.optional.address_of_entry_point as u64).wrapping_sub(bind_offset)
    }
}

/// The base RVA payload and SteamDRMP.dll offsets are relative to.
pub fn payload_base_rva(state: &State, pe: &PeFile) -> (r: u64)
    ensures
        r == spec_payload_base(*state, *pe),
{
    let bind_offset = state.header.bind_section_offset as u64;
    if state.tls_as_oep {
        state.tls_oep_rva.wrapping_sub(bind_offset)
    } else {
        (pe.optional.address_of_entry_point as u64).wrapping_sub(bind_offset)
    }
}

/// The payload size rounded up to whole 16-byte blocks (modulo 2^32).
pub open spec fn padded_payload_size(size: u32) -> u32 {
    size.wrapping_add(0x0F) & 0xFFFF_FFF0u32
}

/// What step 2 does to the state and the dumps.
#[verifier::opaque]
pub open spec fn step2_outcome(
    pe: PeFile,
    options: Options,
    st0: State,
    st1: State,
    d0: Dumps,
    d1: Dumps,
    r: Result<(), Error>,
) -> bool {
    let size = padded_payload_size(st0.header.payload_size);
    let addr = spec_file_offset(pe.sections@, spec_payload_base(st0, pe));
    if size == 0 {
        r is Ok && st1 == st0 && d1 == d0
    } else {
        match spec_read_range(pe.data@, addr, size as usize) {
            None => r matches Err(Error::OutOfBounds) && st1 == st0 && d1 == d0,
            Some(raw) => {
                &&& r is Ok
                &&& st1 == State {
                    xor_key: xor_key_at(raw, size, st0.xor_key, xor_count(size, st0.xor_key)),
                    ..st0
                }
                &&& if options.dump_payload_to_disk {
                    &&& d1.payload matches Some(p) && p@ == xor_decode(raw, size, st0.xor_key)
                    &&& d1.drmp == d0.drmp
                } else {
                    d1 == d0
                }
            },
        }
    }
}

/// Step 2 - Read, decode and process the payload data.
pub fn step2(
    pe: &PeFile,
    options: &Options,
    state: &mut State,
    logger: &dyn Logger,
    dumps: &mut Dumps,
) -> (r: Result<(), Error>)
    ensures
        step2_outcome(*pe, *options, *old(state), *final(state), *old(dumps), *final(dumps), r),
        final(state).code_index == old(state).code_index,
        final(state).header == old(state).header,
{
    proof {
        reveal(step2_outcome);
    }
    let payload_addr = pe.get_file_offset_from_rva(payload_base_rva(state, pe));
    let ps = state.header.payload_size;
    let payload_size = (ps.wrapping_add(0x0F)) & 0xFFFF_FFF0;

    // Do nothing if there is no payload..
    if payload_size == 0 {
        return Ok(());
    }
    logger.log(Level::Debug, " --> File has payload data!");

    // Obtain and decode the payload..
    let mut payload = match read_range(pe, payload_addr, payload_size as usize) {
        Ok(p) => p,
        Err(e) => return Err(e),
    };
    assert(payload_size >= 4) by (bit_vector)
        requires
            payload_size == (ps.wrapping_add(0x0F)) & 0xFFFF_FFF0u32,
            payload_size != 0,
    ;
    assert(crate::crypto::xtea::steam_xor_fits(payload@.len() as int, payload_size, state.xor_key)) by {
        let n = payload_size as int;
        assert(4 + 4 * ((n - 4) / 4) <= n) by (nonlinear_arith)
            requires
                n >= 4,
        ;
        assert(4 * (n / 4) <= n) by (nonlinear_arith);
    }
    state.xor_key = steam_xor(payload.as_mut_slice(), payload_size, state.xor_key);

    if options.dump_payload_to_disk {
        dumps.payload = Some(payload);
        logger.log(Level::Debug, " --> Saved payload to disk!");
    }
    Ok(())
}

/// What step 3 does to the dumps.
#[verifier::opaque]
pub open spec fn step3_outcome(pe: PeFile, options: Options, st: State, d0: Dumps, d1: Dumps, r: Result<(), Error>) -> bool {
    let size = st.header.drmp_dll_size;
    let addr = spec_file_offset(
        pe.sections@,
        spec_payload_base(st, pe).wrapping_add(st.header.drmp_dll_offset as u64),
    );
    if size == 0 {
        r is Ok && d1 == d0
    } else {
        match spec_read_range(pe.data@, addr, size as usize) {
            None => r matches Err(Error::OutOfBounds) && d1 == d0,
            Some(raw) => {
                &&& r is Ok
                &&& if options.dump_steam_drmp_to_disk {
                    &&& d1.drmp matches Some(p) && p@ == drmp_decode(
                        raw,
                        st.header.encryption_keys@,
                        size,
                    )
                    &&& d1.payload == d0.payload
                } else {
                    d1 == d0
                }
            },
        }
    }
}

/// Step 3 - Read, decode and dump the SteamDRMP.dll file.
pub fn step3(
    pe: &PeFile,
    options: &Options,
    state: &State,
    logger: &dyn Logger,
    dumps: &mut Dumps,
) -> (r: Result<(), Error>)
    ensures
        step3_outcome(*pe, *options, *state, *old(dumps), *final(dumps), r),
{
    proof {
        reveal(step3_outcome);
    }
    // Ensure there is a dll to process..
    if state.header.drmp_dll_size == 0 {
        logger.log(Level::Debug, " --> File does not contain a SteamDRMP.dll file.");
        return Ok(());
    }
    logger.log(Level::Debug, " --> File has SteamDRMP.dll file!");

    // Obtain the SteamDRMP.dll file address and data..
    let drmp_addr = pe.get_file_offset_from_rva(
        payload_base_rva(state, pe).wrapping_add(state.header.drmp_dll_offset as u64),
    );
    let mut drmp_data = match read_range(pe, drmp_addr, state.header.drmp_dll_size as usize) {
        Ok(d) => d,
        Err(e) => return Err(e),
    };

    // Decrypt the data (xtea decryption)..
    proof {
        lemma_four_keys_fit(4, DELTA.wrapping_mul(32), 32);
        assert(8 * (state.header.drmp_dll_size / 8) <= state.header.drmp_dll_size);
    }
    steam_drmp_pass1(
        drmp_data.as_mut_slice(),
        state.header.drmp_dll_size,
        state.header.encryption_keys.as_slice(),
    );

    if options.dump_steam_drmp_to_disk {
        dumps.drmp = Some(drmp_data);
        logger.log(Level::Debug, " --> Saved SteamDRMP.dll to disk!");
    }
    Ok(())
}

/// What step 4 does: `.bind` handled, then the code section located unless
/// the file is not encrypted.
#[verifier::opaque]
pub open spec fn step4_outcome(
    a: PeFile,
    b: PeFile,
    options: Options,
    st0: State,
    st1: State,
    variant: Variant,
    is64: bool,
    r: Result<(), Error>,
) -> bool {
    if !options.keep_bind_section && !(spec_section_index(a.sections@, ".bind"@) matches Some(i)
        && a.sections@[i].size_of_raw_data != 0 && a.sections@[i].pointer_to_raw_data != 0) {
        r is Err && bind_removal(a, b, false, Err(r->Err_0)) && st1 == st0
    } else {
        &&& bind_removal(a, b, options.keep_bind_section, Ok(!options.keep_bind_section))
        &&& if st0.header.flags & DRM_FLAG_NO_ENCRYPTION != 0 {
            r is Ok && st1 == st0
        } else {
            match spec_owner_index(b.sections@, st0.header.code_section_virtual_address as int) {
                None => r matches Err(Error::Unpack(m)) && m@ == "code section not found"@
                    && st1 == st0,
                Some(i) => if !(variant == Variant::V31 && is64) && (
                b.sections@[i].pointer_to_raw_data == 0 || b.sections@[i].size_of_raw_data == 0) {
                    r matches Err(Error::Unpack(m)) && m@ == "code section is invalid"@ && st1
                        == st0
                } else {
                    r is Ok && st1 == State { code_index: Some(i as usize), ..st0 }
                },
            }
        }
    }
}

/// Step 4 - Handle .bind section. Find the code section.
pub fn step4(
    pe: &mut PeFile,
    options: &Options,
    state: &mut State,
    variant: Variant,
    is64: bool,
    logger: &dyn Logger,
) -> (r: Result<(), Error>)
    requires
        old(pe).wf(),
    ensures
        final(pe).wf(),
        step4_outcome(*old(pe), *final(pe), *options, *old(state), *final(state), variant, is64, r),
        r is Ok && old(state).header.flags & DRM_FLAG_NO_ENCRYPTION == 0 ==> (final(state).code_index matches Some(i) && i < final(pe).sections@.len()),
        r is Ok && old(state).header.flags & DRM_FLAG_NO_ENCRYPTION != 0 ==> final(state).code_index == old(state).code_index,
{
    proof {
        reveal(step4_outcome);
    }
    // Remove the bind section if its not requested to be saved..
    match remove_bind_section(pe, options) {
        Ok(true) => logger.log(Level::Debug, " --> .bind section was removed from the file."),
        Ok(false) => logger.log(Level::Debug, " --> .bind section was kept in the file."),
        Err(e) => return Err(e),
    }

    // Skip finding the code section if the file is not encrypted..
    if (state.header.flags & DRM_FLAG_NO_ENCRYPTION) != 0 {
        return Ok(());
    }

    // Find the code section..
    let index = match pe.get_section_index_by_rva(state.header.code_section_virtual_address) {
        Some(i) => i,
        None => return Err(Error::Unpack("code section not found".to_owned())),
    };
    let code_section = &pe.sections[index];
    if validates_code_section(variant, is64) && (code_section.pointer_to_raw_data == 0
        || code_section.size_of_raw_data == 0) {
        return Err(Error::Unpack("code section is invalid".to_owned()));
    }
    state.code_index = Some(index);
    Ok(())
}

/// How many bytes of the code section step 5 reads: `CodeSectionRawSize`
/// for v3.1 x86, the section's raw size otherwise.
pub open spec fn code_len(h: Var3xHeader, sec: crate::pe::SectionHeader, variant: Variant, is64: bool) -> usize {
    if variant == Variant::V31 && !is64 {
        h.code_section_raw_size as usize
    } else {
        sec.size_of_raw_data as usize
    }
}

/// The AES-CBC decryption of `merged` with the header's key and its IV
/// rebuilt through ECB.
pub open spec fn code_plain(h: Var3xHeader, merged: Seq<u8>) -> Seq<u8> {
    let key = pad_to(h.aes_key@, 32);
    spec_decrypt(key, aes256_decrypt(key, pad_to(h.aes_iv@, 16)), merged, AesMode::Cbc)
}

/// The smallest of three lengths.
pub open spec fn min3(a: int, b: int, c: int) -> int {
    let m = if a < b {
        a
    } else {
        b
    };
    if m < c {
        m
    } else {
        c
    }
}

/// What step 5 does: the code section decrypted into the state (or, for
/// v3.1 x86, into the section data).
#[verifier::opaque]
pub open spec fn step5_outcome(
    a: PeFile,
    b: PeFile,
    st0: State,
    st1: State,
    variant: Variant,
    is64: bool,
    r: Result<(), Error>,
) -> bool {
    if st0.header.flags & DRM_FLAG_NO_ENCRYPTION != 0 {
        r is Ok && b == a && st1 == st0
    } else {
        match st0.code_index {
            None => r matches Err(Error::Unpack(m)) && m@ == "code section not found"@ && b == a
                && st1 == st0,
            Some(ci) => {
                let sec = a.sections@[ci as int];
                if variant == Variant::V31 && is64 && sec.size_of_raw_data == 0 {
                    &&& r is Ok
                    &&& b == a
                    &&& st1.code_section_data matches Some(v) && v@.len() == 0
                    &&& st1 == State { code_section_data: st1.code_section_data, ..st0 }
                } else {
                    match spec_read_range(
                        a.data@,
                        spec_file_offset(a.sections@, sec.virtual_address as u64),
                        code_len(st0.header, sec, variant, is64),
                    ) {
                        None => r matches Err(Error::OutOfBounds) && b == a && st1 == st0,
                        Some(raw) => {
                            let plain = code_plain(
                                st0.header,
                                st0.header.code_section_stolen_data@ + raw,
                            );
                            &&& r is Ok
                            &&& if variant == Variant::V31 && !is64 {
                                let old_data = a.section_data@[ci as int]@;
                                let n = min3(
                                    st0.header.code_section_raw_size as usize as int,
                                    plain.len() as int,
                                    old_data.len() as int,
                                );
                                &&& b.section_data@.len() == a.section_data@.len()
                                &&& b.section_data@[ci as int]@ == plain.take(n) + old_data.skip(
                                    n,
                                )
                                &&& forall|k: int|
                                    0 <= k < a.section_data@.len() && k != ci
                                        ==> #[trigger] b.section_data@[k] == a.section_data@[k]
                                &&& b == PeFile { section_data: b.section_data, ..a }
                                &&& st1 == st0
                            } else {
                                &&& b == a
                                &&& st1.code_section_data matches Some(v) && v@ == plain
                                &&& st1 == State { code_section_data: st1.code_section_data, ..st0 }
                            }
                        },
                    }
                }
            },
        }
    }
}

/// Byte `i` of the AES-256-CBC decryption of `merged` under `key`, the IV
/// being the AES-256 decryption of `iv` (the IV rebuilt through ECB).
pub open spec fn cbc_byte_with_rebuilt_iv(key: Seq<u8>, iv: Seq<u8>, merged: Seq<u8>, i: int) -> u8 {
    let plain = aes256_decrypt(key, merged.subrange(16 * (i / 16), 16 * (i / 16) + 16))[i % 16];
    if i < 16 {
        plain ^ aes256_decrypt(key, iv)[i]
    } else {
        plain ^ merged[i - 16]
    }
}

/// Step 5 decrypts the code section with AES-256-CBC after rebuilding the
/// IV: when it succeeds on an encrypted file, the bytes it produces for the
/// code section (the new section data's prefix for v3.1 x86, the replacement
/// data otherwise) are, for the whole 16-byte blocks of stolen bytes plus
/// section data, the AES-256 decryption of each block under the header key
/// XORed with the previous ciphertext block, the first block with the
/// AES-256 decryption of the header IV.
pub proof fn lemma_step5_cbc_with_rebuilt_iv(
    a: PeFile,
    b: PeFile,
    st0: State,
    st1: State,
    variant: Variant,
    is64: bool,
    ci: usize,
    raw: Seq<u8>,
)
    requires
        step5_outcome(a, b, st0, st1, variant, is64, Ok(())),
        st0.header.flags & DRM_FLAG_NO_ENCRYPTION == 0,
        st0.code_index == Some(ci),
        !(variant == Variant::V31 && is64 && a.sections@[ci as int].size_of_raw_data == 0),
        spec_read_range(
            a.data@,
            spec_file_offset(a.sections@, a.sections@[ci as int].virtual_address as u64),
            code_len(st0.header, a.sections@[ci as int], variant, is64),
        ) == Some(raw),
    ensures
        ({
            let h = st0.header;
            let merged = h.code_section_stolen_data@ + raw;
            let blocks = (merged.len() / 16) * 16;
            if variant == Variant::V31 && !is64 {
                let old_data = a.section_data@[ci as int]@;
                let out = b.section_data@[ci as int]@;
                let n = min3(h.code_section_raw_size as usize as int, blocks as int, old_data.len() as int);
                &&& out.len() == old_data.len()
                &&& forall|i: int|
                    0 <= i < n ==> #[trigger] out[i] == cbc_byte_with_rebuilt_iv(
                        h.aes_key@,
                        h.aes_iv@,
                        merged,
                        i,
                    )
                &&& forall|i: int| n <= i < out.len() ==> #[trigger] out[i] == old_data[i]
            } else {
                &&& st1.code_section_data matches Some(v) && v@.len() == blocks
                &&& forall|i: int|
                    0 <= i < blocks ==> #[trigger] st1.code_section_data->Some_0@[i]
                        == cbc_byte_with_rebuilt_iv(h.aes_key@, h.aes_iv@, merged, i)
            }
        }),
{
    reveal(step5_outcome);
    let h = st0.header;
    let merged = h.code_section_stolen_data@ + raw;
    let key = pad_to(h.aes_key@, 32);
    assert(key =~= h.aes_key@);
    assert(pad_to(h.aes_iv@, 16) =~= h.aes_iv@);
    let plain = code_plain(h, merged);
    assert(plain.len() == (merged.len() / 16) * 16);
    assert forall|i: int| 0 <= i < plain.len() implies #[trigger] plain[i]
        == cbc_byte_with_rebuilt_iv(h.aes_key@, h.aes_iv@, merged, i) by {
        let j = i / 16;
        if j > 0 {
            assert(crate::crypto::aes::block_at(merged, j - 1)[i % 16] == merged[i - 16]);
        }
    }
}

/// `dst` with its first `n` bytes taken from `src`.
fn overwrite_prefix(dst: &[u8], src: &[u8], n: usize) -> (r: Vec<u8>)
    requires
        n <= dst@.len(),
        n <= src@.len(),
    ensures
        r@ == src@.take(n as int) + dst@.skip(n as int),
{
    let mut out = vstd::slice::slice_to_vec(dst);
    let mut i: usize = 0;
    while i < n
        invariant
            n <= dst@.len(),
            n <= src@.len(),
            out@.len() == dst@.len(),
            i <= n,
            forall|k: int| 0 <= k < i ==> out@[k] == src@[k],
            forall|k: int| i <= k < dst@.len() ==> out@[k] == dst@[k],
        decreases n - i,
    {
        out.set(i, src[i]);
        i += 1;
    }
    assert(out@ =~= src@.take(n as int) + dst@.skip(n as int));
    out
}

/// Step 5 - Read, decrypt and process code section.
#[verifier::rlimit(30)]
pub fn step5(pe: &mut PeFile, state: &mut State, variant: Variant, is64: bool, logger: &dyn Logger) -> (r: Result<(), Error>)
    requires
        old(pe).wf(),
        old(state).code_index matches Some(i) ==> i < old(pe).sections@.len(),
    ensures
        final(pe).wf(),
        step5_outcome(*old(pe), *final(pe), *old(state), *final(state), variant, is64, r),
{
    proof {
        reveal(step5_outcome);
    }
    // Skip decryption if the code section is not encrypted..
    if (state.header.flags & DRM_FLAG_NO_ENCRYPTION) != 0 {
        logger.log(Level::Debug, " --> Code section is not encrypted.");
        return Ok(());
    }
    let code_index = match state.code_index {
        Some(i) => i,
        None => return Err(Error::Unpack("code section not found".to_owned())),
    };
    let code_section = pe.sections[code_index];
    let name = code_section.name_str();
    logger.log(Level::Debug, message(" --> ", name.as_str(), " linked as main code section.").as_str());
    logger.log(Level::Debug, message(" --> ", name.as_str(), " section is encrypted.").as_str());

    // v3.1 x64 skips empty code sections entirely..
    if variant == Variant::V31 && is64 && code_section.size_of_raw_data == 0 {
        logger.log(
            Level::Debug,
            message(" --> ", name.as_str(), " section is empty; skipping decryption.").as_str(),
        );
        state.code_section_data = Some(Vec::new());
        return Ok(());
    }

    // v3.1 x86 reads `CodeSectionRawSize` bytes; the rest use `SizeOfRawData`.
    let code_len = if variant == Variant::V31 && !is64 {
        #[verifier::truncate] (state.header.code_section_raw_size as usize)
    } else {
        code_section.size_of_raw_data as usize
    };

    // Obtain the code section data (stolen bytes + section data)..
    let section_offset = pe.get_file_offset_from_rva(code_section.virtual_address as u64);
    let mut merged = vstd::slice::slice_to_vec(state.header.code_section_stolen_data.as_slice());
    let mut rest = match read_range(pe, section_offset, code_len) {
        Ok(d) => d,
        Err(e) => return Err(e),
    };
    merged.append(&mut rest);

    // Create the AES decryption helper and decrypt the section..
    let mut aes = AesHelper::new(state.header.aes_key.as_slice(), state.header.aes_iv.as_slice());
    aes.rebuild_iv(Some(state.header.aes_iv.as_slice()));
    let data = aes.decrypt(merged.as_slice(), AesMode::Cbc);

    // v3.1 x86 merges the decrypted data into the existing section data; the
    // other variants replace the whole section at save time.
    if variant == Variant::V31 && !is64 {
        let raw_size = #[verifier::truncate] (state.header.code_section_raw_size as usize);
        let old_len = pe.section_data[code_index].len();
        let m = if raw_size < data.len() {
            raw_size
        } else {
            data.len()
        };
        let n = if m < old_len {
            m
        } else {
            old_len
        };
        let patched = overwrite_prefix(pe.section_data[code_index].as_slice(), data.as_slice(), n);
        let ghost before = *pe;
        pe.section_data.set(code_index, patched);
        assert(*pe == PeFile { section_data: pe.section_data, ..before });
    } else {
        state.code_section_data = Some(data);
    }
    Ok(())
}

/// The entry point step 6 writes: the repaired one for v3.0 x64 with a
/// TLS callback, the header's otherwise.
pub open spec fn final_entry(st: State, variant: Variant, is64: bool) -> u32 {
    if variant == Variant::V30 && is64 && st.header.has_tls_callback == 1 {
        st.tls_oep_override
    } else {
        st.header.original_entry_point
    }
}

/// The code section replacement step 6 writes.
pub open spec fn code_replacement(st: State) -> Option<(usize, Seq<u8>)> {
    match (st.code_section_data, st.code_index) {
        (Some(d), Some(i)) => Some((i, d@)),
        _ => None,
    }
}

/// Step 6 - Rebuild and save the unpacked file.
pub fn step6(pe: &mut PeFile, options: &Options, state: &State, variant: Variant, is64: bool) -> (r: Result<
    Vec<u8>,
    Error,
>)
    requires
        old(pe).wf(),
    ensures
        final(pe).wf(),
        is_rebuilt(*old(pe), *final(pe), options.realign_sections),
        saved_image(
            *final(pe),
            *options,
            final_entry(*state, variant, is64),
            code_replacement(*state),
            r,
        ),
{
    let entry_point = if variant == Variant::V30 && is64 && state.header.has_tls_callback == 1 {
        state.tls_oep_override
    } else {
        state.header.original_entry_point
    };
    match (&state.code_section_data, state.code_index) {
        (Some(data), Some(index)) => save_full(
            pe,
            options,
            entry_point,
            Some((index, data.as_slice())),
        ),
        _ => save_full(pe, options, entry_point, None),
    }
}

/// A run of the six steps on `pe0` that gets through step 5: the files,
/// states and dumps after each step, with `r` what step 6 gave.
pub open spec fn run_3x(
    pe0: PeFile,
    options: Options,
    variant: Variant,
    is64: bool,
    d0: Dumps,
    pe1: PeFile,
    st1: State,
    st2: State,
    d2: Dumps,
    d3: Dumps,
    pe4: PeFile,
    st4: State,
    pe5: PeFile,
    st5: State,
    pe6: PeFile,
    r: Result<Vec<u8>, Error>,
) -> bool {
    &&& step1_outcome(pe0, pe1, variant, is64, Ok(st1))
    &&& step2_outcome(pe1, options, st1, st2, d0, d2, Ok(()))
    &&& step3_outcome(pe1, options, st2, d2, d3, Ok(()))
    &&& step4_outcome(pe1, pe4, options, st2, st4, variant, is64, Ok(()))
    &&& step5_outcome(pe4, pe5, st4, st5, variant, is64, Ok(()))
    &&& is_rebuilt(pe5, pe6, options.realign_sections)
    &&& saved_image(pe6, options, final_entry(st5, variant, is64), code_replacement(st5), r)
}

/// Step 1 fails with `e`, leaving `pe1`.
pub open spec fn fails_at_1(pe0: PeFile, variant: Variant, is64: bool, pe1: PeFile, e: Error) -> bool {
    step1_outcome(pe0, pe1, variant, is64, Err(e))
}

/// Step 2 fails with `e`.
pub open spec fn fails_at_2(pe0: PeFile, options: Options, variant: Variant, is64: bool, d0: Dumps, pe1: PeFile, st1: State, st2: State, d2: Dumps, e: Error) -> bool {
    &&& step1_outcome(pe0, pe1, variant, is64, Ok(st1))
    &&& step2_outcome(pe1, options, st1, st2, d0, d2, Err(e))
}

/// Step 3 fails with `e`.
pub open spec fn fails_at_3(pe0: PeFile, options: Options, variant: Variant, is64: bool, d0: Dumps, pe1: PeFile, st1: State, st2: State, d2: Dumps, d3: Dumps, e: Error) -> bool {
    &&& step1_outcome(pe0, pe1, variant, is64, Ok(st1))
    &&& step2_outcome(pe1, options, st1, st2, d0, d2, Ok(()))
    &&& step3_outcome(pe1, options, st2, d2, d3, Err(e))
}

/// Step 4 fails with `e`.
pub open spec fn fails_at_4(pe0: PeFile, options: Options, variant: Variant, is64: bool, d0: Dumps, pe1: PeFile, st1: State, st2: State, d2: Dumps, d3: Dumps, pe4: PeFile, st4: State, e: Error) -> bool {
    &&& step1_outcome(pe0, pe1, variant, is64, Ok(st1))
    &&& step2_outcome(pe1, options, st1, st2, d0, d2, Ok(()))
    &&& step3_outcome(pe1, options, st2, d2, d3, Ok(()))
    &&& step4_outcome(pe1, pe4, options, st2, st4, variant, is64, Err(e))
}

/// Step 5 fails with `e`.
pub open spec fn fails_at_5(pe0: PeFile, options: Options, variant: Variant, is64: bool, d0: Dumps, pe1: PeFile, st1: State, st2: State, d2: Dumps, d3: Dumps, pe4: PeFile, st4: State, pe5: PeFile, st5: State, e: Error) -> bool {
    &&& step1_outcome(pe0, pe1, variant, is64, Ok(st1))
    &&& step2_outcome(pe1, options, st1, st2, d0, d2, Ok(()))
    &&& step3_outcome(pe1, options, st2, d2, d3, Ok(()))
    &&& step4_outcome(pe1, pe4, options, st2, st4, variant, is64, Ok(()))
    &&& step5_outcome(pe4, pe5, st4, st5, variant, is64, Err(e))
}

/// What unpacking a 3.x file does: the six steps in order, stopping at the
/// first that fails; `pe` and `dumps` end as that step left them.
pub open spec fn unpack_3x_outcome(
    pe0: PeFile,
    pe: PeFile,
    options: Options,
    variant: Variant,
    is64: bool,
    d0: Dumps,
    d: Dumps,
    r: Result<Vec<u8>, Error>,
) -> bool {
    ||| exists|pe1: PeFile, st1: State, st2: State, d2: Dumps, pe4: PeFile, st4: State, pe5: PeFile, st5: State|
        #[trigger] run_3x(pe0, options, variant, is64, d0, pe1, st1, st2, d2, d, pe4, st4, pe5, st5, pe, r)
    ||| r is Err && fails_at_1(pe0, variant, is64, pe, r->Err_0) && d == d0
    ||| r is Err && exists|st1: State, st2: State|
        #[trigger] fails_at_2(pe0, options, variant, is64, d0, pe, st1, st2, d, r->Err_0)
    ||| r is Err && exists|st1: State, st2: State, d2: Dumps|
        #[trigger] fails_at_3(pe0, options, variant, is64, d0, pe, st1, st2, d2, d, r->Err_0)
    ||| r is Err && exists|pe1: PeFile, st1: State, st2: State, d2: Dumps, st4: State|
        #[trigger] fails_at_4(pe0, options, variant, is64, d0, pe1, st1, st2, d2, d, pe, st4, r->Err_0)
    ||| r is Err && exists|pe1: PeFile, st1: State, st2: State, d2: Dumps, pe4: PeFile, st4: State, st5: State|
        #[trigger] fails_at_5(pe0, options, variant, is64, d0, pe1, st1, st2, d2, d, pe4, st4, pe, st5, r->Err_0)
}

/// Unpacks a SteamStub 3.x file: the six steps in order, logging progress.
#[verifier::rlimit(100)]
pub fn unpack(
    pe: &mut PeFile,
    options: &Options,
    variant: Variant,
    is64: bool,
    logger: &dyn Logger,
    dumps: &mut Dumps,
) -> (r: Result<Vec<u8>, Error>)
    requires
        old(pe).wf(),
    ensures
        final(pe).wf(),
        unpack_3x_outcome(*old(pe), *final(pe), *options, variant, is64, *old(dumps), *final(dumps), r),
{
    let ghost pe0 = *pe;
    let ghost d0 = *dumps;
    logger.log(Level::Info, "Step 1 - Read, decode and validate the SteamStub DRM header.");
    let mut state = match step1(pe, variant, is64) {
        Ok(s) => s,
        Err(e) => {
            assert(fails_at_1(pe0, variant, is64, *pe, e));
            return Err(e);
        },
    };
    let ghost pe1 = *pe;
    let ghost st1 = state;

    logger.log(Level::Info, "Step 2 - Read, decode and process the payload data.");
    let r2 = step2(pe, options, &mut state, logger, dumps);
    proof {
        if let Ok(u) = r2 {
            assert(u == ());
            assert(r2 == Ok::<(), Error>(()));
        }
    }
    match r2 {
        Ok(()) => {},
        Err(e) => {
            assert(fails_at_2(pe0, *options, variant, is64, d0, pe1, st1, state, *dumps, e));
            return Err(e);
        },
    }
    let ghost st2 = state;
    let ghost d2 = *dumps;

    logger.log(Level::Info, "Step 3 - Read, decode and dump the SteamDRMP.dll file.");
    let r3 = step3(pe, options, &state, logger, dumps);
    proof {
        if let Ok(u) = r3 {
            assert(u == ());
            assert(r3 == Ok::<(), Error>(()));
        }
    }
    match r3 {
        Ok(()) => {},
        Err(e) => {
            assert(fails_at_3(pe0, *options, variant, is64, d0, pe1, st1, st2, d2, *dumps, e));
            return Err(e);
        },
    }
    let ghost d3 = *dumps;

    logger.log(Level::Info, "Step 4 - Handle .bind section. Find code section.");
    let r4 = step4(pe, options, &mut state, variant, is64, logger);
    proof {
        if let Ok(u) = r4 {
            assert(u == ());
            assert(r4 == Ok::<(), Error>(()));
        }
    }
    match r4 {
        Ok(()) => {},
        Err(e) => {
            assert(fails_at_4(pe0, *options, variant, is64, d0, pe1, st1, st2, d2, d3, *pe, state, e));
            return Err(e);
        },
    }
    let ghost pe4 = *pe;
    let ghost st4 = state;
    assert(state.code_index matches Some(i) ==> i < pe.sections@.len());

    logger.log(Level::Info, "Step 5 - Read, decrypt and process code section.");
    let r5 = step5(pe, &mut state, variant, is64, logger);
    proof {
        if let Ok(u) = r5 {
            assert(u == ());
            assert(r5 == Ok::<(), Error>(()));
        }
    }
    match r5 {
        Ok(()) => {},
        Err(e) => {
            assert(fails_at_5(pe0, *options, variant, is64, d0, pe1, st1, st2, d2, d3, pe4, st4, *pe, state, e));
            return Err(e);
        },
    }
    let ghost pe5 = *pe;
    let ghost st5 = state;

    logger.log(Level::Info, "Step 6 - Rebuild and save the unpacked file.");
    let r = step6(pe, options, &state, variant, is64);
    assert(run_3x(pe0, *options, variant, is64, d0, pe1, st1, st2, d2, d3, pe4, st4, pe5, st5, *pe, r));
    if r.is_ok() {
        logger.log(Level::Success, " --> Unpacked file saved to disk!");
    }
    r
}

} // verus!
