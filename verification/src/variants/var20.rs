//! SteamStub DRM Variant 2.0 (x86) unpacker.

use vstd::prelude::*;

use crate::crypto::xtea::{byte_of, lemma_bytes_le_u32, lemma_le_u32_bytes, steam_xor, xor_decode};
use crate::logger::{Level, Logger};
use crate::options::Options;
use crate::pattern::{lemma_ascii_pattern_completes, pattern_parse_completes};
use crate::pe::pe_file::{is_rebuilt, spec_file_offset, spec_owner_index, spec_section_index};
use crate::pe::reader::{in_bounds, le_u32, lemma_write_then_read_u32, read_u32_at, Buf};
use crate::pe::PeFile;
use crate::variants::common::{
    bind_removal, decimal, decimal_digits, decode_block, find_pattern_in_section, is_mov_reg_imm,
    handle_bind_section, message, pattern_in_section, read_range, removal_result, save, saved_image,
    spec_decode_block, spec_mov_reg_imm, spec_read_range, Dumps, Insn,
};
use crate::variants::var_3x::{entry_offset, rva_of};
use crate::variants::Unpacker;
use crate::{failure, Error, Failure};

verus! {

/// SteamStub Variant 2.0 unpacker (x86).
pub struct Variant20;

/// Signature found in the v2.0 bind section used for detection.
pub const BIND_PATTERN: &'static str = "53 51 52 56 57 55 8B EC 81 EC 00 10 00 00 BE";
/// Base decode length when scanning the stub for header information.
pub const SCAN_LENGTH: usize = 4096;

/// The 2.0 detection pattern parses to completion.
pub proof fn lemma_pattern_complete()
    ensures
        pattern_parse_completes(BIND_PATTERN@),
{
    reveal_strlit("53 51 52 56 57 55 8B EC 81 EC 00 10 00 00 BE");
    lemma_ascii_pattern_completes(BIND_PATTERN@);
}

/// The field offsets of the header layouts this variant supports (fields
/// differ between the 856 and 884/952 byte structures).
#[derive(Clone, Copy, Debug)]
pub struct HeaderOffsets {
    pub flags: usize,
    pub oep: usize,
    pub code_section_va: usize,
    pub code_section_size: usize,
    pub code_section_xor_key: usize,
}

/// The field offsets of the header layout of `size` bytes, if known.
pub open spec fn offsets_for(size: u32) -> Option<HeaderOffsets> {
    if size == 856 {
        Some(
            HeaderOffsets {
                flags: 20,
                oep: 40,
                code_section_va: 44,
                code_section_size: 48,
                code_section_xor_key: 52,
            },
        )
    } else if size == 884 || size == 952 {
        Some(
            HeaderOffsets {
                flags: 24,
                oep: 44,
                code_section_va: 48,
                code_section_size: 52,
                code_section_xor_key: 56,
            },
        )
    } else {
        None
    }
}

impl HeaderOffsets {
    /// The field offsets of the header layout of `size` bytes, if known.
    pub fn for_size(size: u32) -> (r: Option<Self>)
        ensures
            r == offsets_for(size),
    {
        if size == 856 {
            Some(
                Self {
                    flags: 20,
                    oep: 40,
                    code_section_va: 44,
                    code_section_size: 48,
                    code_section_xor_key: 52,
                },
            )
        } else if size == 884 || size == 952 {
            Some(
                Self {
                    flags: 24,
                    oep: 44,
                    code_section_va: 48,
                    code_section_size: 52,
                    code_section_xor_key: 56,
                },
            )
        } else {
            None
        }
    }
}

/// The decoded v2.0 header fields.
#[derive(Clone, Copy, Debug)]
pub struct Header {
    pub flags: u32,
    pub oep: u32,
    pub code_section_va: u32,
    pub code_section_size: u32,
    pub code_section_xor_key: u32,
}

/// The header struct offset and size the stub names, scanning from
/// instruction `i`: the first `mov reg, imm` gives the struct VA, the
/// following ones its dword count; found once both are non-zero before an
/// instruction.
pub open spec fn scan_from(insns: Seq<Insn>, image_base: u64, i: int, so: u64, ss: u64) -> Option<(u32, u32)>
    decreases insns.len() - i,
{
    if i < 0 || i >= insns.len() {
        None
    } else if so > 0 && ss > 0 {
        Some((so as u32, ss as u32))
    } else {
        match spec_mov_reg_imm(insns[i]) {
            Some(imm) => if so == 0 {
                scan_from(insns, image_base, i + 1, imm.wrapping_sub(image_base), ss)
            } else {
                scan_from(insns, image_base, i + 1, so, imm.wrapping_mul(4))
            },
            None => scan_from(insns, image_base, i + 1, so, ss),
        }
    }
}

/// Scans the decoded stub for the header struct offset and size.
pub fn locate_header(insns: &[Insn], image_base: u64) -> (r: Result<(u32, u32), Error>)
    ensures
        match scan_from(insns@, image_base, 0, 0, 0) {
            Some(t) => r == Ok::<(u32, u32), Error>(t),
            None => r matches Err(Error::Unpack(m)) && m@
                == "failed to locate the DRM header information"@,
        },
{
    let mut struct_offset: u64 = 0;
    let mut struct_size: u64 = 0;
    let mut i: usize = 0;
    while i < insns.len()
        invariant
            i <= insns@.len(),
            scan_from(insns@, image_base, i as int, struct_offset, struct_size) == scan_from(
                insns@,
                image_base,
                0,
                0,
                0,
            ),
        decreases insns@.len() - i,
    {
        if struct_offset > 0 && struct_size > 0 {
            return Ok(
                (
                    #[verifier::truncate] (struct_offset as u32),
                    #[verifier::truncate] (struct_size as u32),
                ),
            );
        }
        // Looks for: mov reg, immediate
        if let Some(imm) = is_mov_reg_imm(&insns[i]) {
            if struct_offset == 0 {
                struct_offset = imm.wrapping_sub(image_base);
            } else {
                struct_size = imm.wrapping_mul(4);
            }
        }
        i += 1;
    }
    Err(Error::Unpack("failed to locate the DRM header information".to_owned()))
}

impl Variant20 {
/// Disassembles the stub at the entry point to find the header struct
/// offset and size.
pub fn disassemble_file(&self, pe: &PeFile) -> (r: Result<(u32, u32), Error>)
    ensures
        match scan_from(
            spec_decode_block(pe.data@, entry_offset(*pe) as usize, SCAN_LENGTH, entry_offset(*pe)),
            pe.optional.image_base,
            0,
            0,
            0,
        ) {
            Some(t) => r == Ok::<(u32, u32), Error>(t),
            None => r matches Err(Error::Unpack(m)) && m@
                == "failed to locate the DRM header information"@,
        },
{
    let entry_offset = pe.get_file_offset_from_rva(pe.optional.address_of_entry_point as u64);
    let insns = decode_block(
        pe.data.as_slice(),
        #[verifier::truncate] (entry_offset as usize),
        SCAN_LENGTH,
        entry_offset,
    );
    locate_header(insns.as_slice(), pe.optional.image_base)
}
}

/// The header fields of the decoded bytes `d` at the offsets `o`.
pub open spec fn header_at(d: Seq<u8>, o: HeaderOffsets) -> Header {
    Header {
        flags: le_u32(d, o.flags as int),
        oep: le_u32(d, o.oep as int),
        code_section_va: le_u32(d, o.code_section_va as int),
        code_section_size: le_u32(d, o.code_section_size as int),
        code_section_xor_key: le_u32(d, o.code_section_xor_key as int),
    }
}

/// What step 1 gives for `pe`: the decoded header.
pub open spec fn step1_result(pe: PeFile) -> Result<Header, Failure> {
    let fo = entry_offset(pe);
    if fo < 4 {
        Err(Failure::Unpack("entry point is too small"@))
    } else if !in_bounds(pe.data@.len() as int, ((fo - 4) as u64) as usize as int, 4) {
        Err(Failure::OutOfBounds)
    } else if le_u32(pe.data@, ((fo - 4) as u64) as usize as int) != 0xC0DEC0DE {
        Err(Failure::Unpack("missing 0xC0DEC0DE signature"@))
    } else {
        match scan_from(
            spec_decode_block(pe.data@, fo as usize, SCAN_LENGTH, fo),
            pe.optional.image_base,
            0,
            0,
            0,
        ) {
            None => Err(Failure::Unpack("failed to locate the DRM header information"@)),
            Some((so, ss)) => match offsets_for(ss) {
                None => Err(
                    Failure::Unpack(
                        "invalid/unknown variant header size: "@ + decimal_digits(ss as nat),
                    ),
                ),
                Some(o) => match spec_read_range(
                    pe.data@,
                    spec_file_offset(pe.sections@, so as u64),
                    ss as usize,
                ) {
                    None => Err(Failure::OutOfBounds),
                    Some(raw) => if raw.len() < o.code_section_xor_key + 4 {
                        Err(Failure::OutOfBounds)
                    } else {
                        Ok(header_at(xor_decode(raw, ss, 0), o))
                    },
                },
            },
        }
    }
}

/// A step-1 result with its error taken as a failure.
pub open spec fn header_outcome(r: Result<Header, Error>) -> Result<Header, Failure> {
    match r {
        Ok(v) => Ok(v),
        Err(e) => Err(failure(e)),
    }
}

impl Variant20 {
/// Step 1: read, disassemble and decode the SteamStub DRM header.
#[verifier::rlimit(40)]
pub fn step1(&self, pe: &PeFile) -> (r: Result<Header, Error>)
    ensures
        header_outcome(r) == step1_result(*pe),
{
    // Obtain the file entry offset.
    let file_offset = pe.get_file_offset_from_rva(pe.optional.address_of_entry_point as u64);

    // Validate the DRM header.
    if file_offset < 4 {
        return Err(Error::Unpack("entry point is too small".to_owned()));
    }
    let sig_off = file_offset - 4;
    let signature = match pe.data.as_slice().rd_u32(#[verifier::truncate] (sig_off as usize)) {
        Some(s) => s,
        None => return Err(Error::OutOfBounds),
    };
    if signature != 0xC0DEC0DE {
        return Err(Error::Unpack("missing 0xC0DEC0DE signature".to_owned()));
    }

    // Disassemble the file to locate the needed DRM information.
    let (struct_offset, struct_size) = match self.disassemble_file(pe) {
        Ok(t) => t,
        Err(e) => return Err(e),
    };
    let header_offsets = match HeaderOffsets::for_size(struct_size) {
        Some(o) => o,
        None => {
            let mut m = "invalid/unknown variant header size: ".to_owned();
            m.append(decimal(struct_size as u64).as_str());
            return Err(Error::Unpack(m));
        },
    };

    // Obtain the DRM header data.
    let struct_file_offset = pe.get_file_offset_from_rva(struct_offset as u64);
    let mut header_data = match read_range(pe, struct_file_offset, struct_size as usize) {
        Ok(d) => d,
        Err(e) => return Err(e),
    };

    // Xor decode the header data.
    let size = header_data.len() as u32;
    assert(size == struct_size);
    assert(crate::crypto::xtea::steam_xor_fits(header_data@.len() as int, size, 0)) by {
        let n = size as int;
        assert(n >= 4 ==> 4 + 4 * ((n - 4) / 4) <= n) by (nonlinear_arith);
        assert(4 * (n / 4) <= n) by (nonlinear_arith);
    }
    steam_xor(header_data.as_mut_slice(), size, 0);
    let d = header_data.as_slice();
    if d.len() < header_offsets.code_section_xor_key + 4 {
        return Err(Error::OutOfBounds);
    }
    Ok(
        Header {
            flags: read_u32_at(d, header_offsets.flags),
            oep: read_u32_at(d, header_offsets.oep),
            code_section_va: read_u32_at(d, header_offsets.code_section_va),
            code_section_size: read_u32_at(d, header_offsets.code_section_size),
            code_section_xor_key: read_u32_at(d, header_offsets.code_section_xor_key),
        },
    )
}
}

/// The key the `j`-th dword is XORed with: `key` for the first, the
/// previous encoded dword after that.
pub open spec fn rolling_key(raw: Seq<u8>, key: u32, j: int) -> u32 {
    if j == 0 {
        key
    } else {
        le_u32(raw, 4 * (j - 1))
    }
}

/// `raw` with its first `n` dwords rolling-XOR decoded.
pub open spec fn rolling_decode(raw: Seq<u8>, n: int, key: u32) -> Seq<u8> {
    Seq::new(
        raw.len(),
        |i: int|
            if i < 4 * n {
                byte_of(le_u32(raw, 4 * (i / 4)) ^ rolling_key(raw, key, i / 4), i % 4)
            } else {
                raw[i]
            },
    )
}

/// Rolling-XOR decodes the first `n` dwords of `data` with `key`.
fn rolling_xor(data: &mut Vec<u8>, n: u32, key: u32)
    requires
        4 * n <= old(data)@.len(),
    ensures
        final(data)@ == rolling_decode(old(data)@, n as int, key),
{
    let ghost raw = data@;
    let ghost key0 = key;
    let len = data.len();
    let mut key = key;
    let mut k: u32 = 0;
    while k < n
        invariant
            4 * n <= raw.len(),
            len == raw.len(),
            data@.len() == raw.len(),
            k <= n,
            key == rolling_key(raw, key0, k as int),
            forall|j: int|
                0 <= j < k ==> #[trigger] le_u32(data@, 4 * j) == le_u32(raw, 4 * j) ^ rolling_key(
                    raw,
                    key0,
                    j,
                ),
            forall|i: int| 4 * k <= i < raw.len() ==> #[trigger] data@[i] == raw[i],
        decreases n - k,
    {
        let ghost before = data@;
        assert(4 * k + 4 <= 4 * n) by (nonlinear_arith)
            requires
                k < n,
        ;
        let off = (k as usize) * 4;
        let val1 = read_u32_at(data.as_slice(), off);
        assert(val1 == le_u32(raw, off as int));
        let val2 = val1 ^ key;
        data.as_mut_slice().wr_u32(off, val2);
        proof {
            lemma_write_then_read_u32(before, off as int, val2);
            assert forall|j: int| 0 <= j < k implies #[trigger] le_u32(data@, 4 * j) == le_u32(
                before,
                4 * j,
            ) by {
                assert(data@[4 * j] == before[4 * j]);
                assert(data@[4 * j + 1] == before[4 * j + 1]);
                assert(data@[4 * j + 2] == before[4 * j + 2]);
                assert(data@[4 * j + 3] == before[4 * j + 3]);
            }
        }
        key = val1;
        k += 1;
    }
    proof {
        let d = data@;
        assert forall|i: int| 0 <= i < d.len() implies #[trigger] d[i] == rolling_decode(raw, n as int, key0)[i] by {
            if i < 4 * n {
                let j = i / 4;
                assert(0 <= j < n);
                lemma_le_u32_bytes(d, 4 * j);
                assert(le_u32(d, 4 * j) == le_u32(raw, 4 * j) ^ rolling_key(raw, key0, j));
            }
        }
        assert(d =~= rolling_decode(raw, n as int, key0));
    }
}

/// The RVA of the code section step 2 decodes.
pub open spec fn code_rva(pe: PeFile, options: Options, h: Header) -> u64 {
    if options.use_experimental_features && h.code_section_va != 0 {
        rva_of(pe, h.code_section_va as u64)
    } else {
        pe.optional.base_of_code as u64
    }
}

/// What step 2 does: the code section located and, when flagged, its data
/// rolling-XOR decoded in place; `r` is the code section's index.
pub open spec fn step2_outcome(a: PeFile, b: PeFile, options: Options, h: Header, r: Result<usize, Error>) -> bool {
    match spec_owner_index(a.sections@, code_rva(a, options, h) as int) {
        None => r matches Err(Error::Unpack(m)) && m@ == "code section not found"@ && b == a,
        Some(ci) => {
            let sec = a.sections@[ci];
            if sec.pointer_to_raw_data == 0 || sec.size_of_raw_data == 0 {
                r matches Err(Error::Unpack(m)) && m@ == "code section is invalid"@ && b == a
            } else {
                match spec_read_range(
                    a.data@,
                    spec_file_offset(a.sections@, sec.virtual_address as u64),
                    sec.size_of_raw_data as usize,
                ) {
                    None => r matches Err(Error::OutOfBounds) && b == a,
                    Some(raw) => if h.flags & 0x04 == 0 {
                        r == Ok::<usize, Error>(ci as usize) && b == a
                    } else if 4 * (h.code_section_size >> 2u32) > raw.len() {
                        r matches Err(Error::OutOfBounds) && b == a
                    } else {
                        &&& r == Ok::<usize, Error>(ci as usize)
                        &&& b.section_data@.len() == a.section_data@.len()
                        &&& b.section_data@[ci]@ == rolling_decode(
                            raw,
                            (h.code_section_size >> 2u32) as int,
                            h.code_section_xor_key,
                        )
                        &&& forall|k: int|
                            0 <= k < a.section_data@.len() && k != ci
                                ==> #[trigger] b.section_data@[k] == a.section_data@[k]
                        &&& b == PeFile { section_data: b.section_data, ..a }
                    },
                }
            }
        },
    }
}

/// The rolling-XOR encoding of the first `j + 1` dwords of `plain`, ending
/// with dword `j`: each plain dword XORed with the previous encoded dword,
/// the first with `key`.
pub open spec fn rolling_encode(plain: Seq<u8>, key: u32, j: nat) -> u32
    decreases j,
{
    if j == 0 {
        le_u32(plain, 0) ^ key
    } else {
        le_u32(plain, 4 * (j as int)) ^ rolling_encode(plain, key, (j - 1) as nat)
    }
}

/// Each of the first `n` dwords that rolling-XOR decoding gives is the
/// encoded dword XORed with its key.
proof fn lemma_rolling_decode_dword(raw: Seq<u8>, n: int, key: u32, j: int)
    requires
        0 <= j < n,
        4 * n <= raw.len(),
    ensures
        le_u32(rolling_decode(raw, n, key), 4 * j) == le_u32(raw, 4 * j) ^ rolling_key(raw, key, j),
{
    let out = rolling_decode(raw, n, key);
    let w = le_u32(raw, 4 * j) ^ rolling_key(raw, key, j);
    assert(4 * j + 4 <= 4 * n);
    assert forall|t: int| 0 <= t < 4 implies #[trigger] out[4 * j + t] == byte_of(w, t) by {
        assert((4 * j + t) / 4 == j);
        assert((4 * j + t) % 4 == t);
    }
    assert(out[4 * j] == byte_of(w, 0));
    assert(out[4 * j + 1] == byte_of(w, 1));
    assert(out[4 * j + 2] == byte_of(w, 2));
    assert(out[4 * j + 3] == byte_of(w, 3));
    lemma_bytes_le_u32(out, 4 * j, w);
}

/// Re-encoding the first `j + 1` decoded dwords gives back the encoded input.
proof fn lemma_rolling_reencode(raw: Seq<u8>, n: int, key: u32, j: nat)
    requires
        j < n,
        4 * n <= raw.len(),
    ensures
        rolling_encode(rolling_decode(raw, n, key), key, j) == le_u32(raw, 4 * (j as int)),
    decreases j,
{
    let out = rolling_decode(raw, n, key);
    lemma_rolling_decode_dword(raw, n, key, j as int);
    let e = le_u32(raw, 4 * (j as int));
    if j == 0 {
        assert((e ^ key) ^ key == e) by (bit_vector);
    } else {
        lemma_rolling_reencode(raw, n, key, (j - 1) as nat);
        let p = le_u32(raw, 4 * (j - 1) as int);
        assert((e ^ p) ^ p == e) by (bit_vector);
    }
}

/// What step 2 makes of a flagged code section is undone by rolling-XOR
/// encoding: when step 2 succeeds on code section `ci` and the header flags ask for
/// decoding, encoding the first `CodeSectionSize / 4` dwords of the new
/// section data (each plain dword XORed with the previous encoded one, the
/// first with `CodeSectionXorKey`) gives back the dwords read from the
/// file, and every later byte is the byte read.
pub proof fn lemma_step2_reencodes(
    a: PeFile,
    b: PeFile,
    options: Options,
    h: Header,
    ci: usize,
    raw: Seq<u8>,
)
    requires
        step2_outcome(a, b, options, h, Ok::<usize, Error>(ci)),
        spec_owner_index(a.sections@, code_rva(a, options, h) as int) == Some(ci as int),
        h.flags & 0x04 != 0,
        spec_read_range(
            a.data@,
            spec_file_offset(a.sections@, a.sections@[ci as int].virtual_address as u64),
            a.sections@[ci as int].size_of_raw_data as usize,
        ) == Some(raw),
    ensures
        ({
            let out = b.section_data@[ci as int]@;
            let n = (h.code_section_size >> 2u32) as int;
            &&& out.len() == raw.len()
            &&& forall|j: nat| j < n ==> #[trigger] rolling_encode(out, h.code_section_xor_key, j)
                == le_u32(raw, 4 * (j as int))
            &&& forall|i: int| 4 * n <= i < raw.len() ==> #[trigger] out[i] == raw[i]
        }),
{
    let n = (h.code_section_size >> 2u32) as int;
    let key = h.code_section_xor_key;
    let out = b.section_data@[ci as int]@;
    assert(out == rolling_decode(raw, n, key));
    assert forall|j: nat| j < n implies #[trigger] rolling_encode(out, key, j) == le_u32(raw, 4 * (j as int)) by {
        lemma_rolling_reencode(raw, n, key, j);
    }
}

impl Variant20 {
/// Step 2: read, decode and process the main code section.
pub fn step2(&self, pe: &mut PeFile, options: &Options, header: &Header) -> (r: Result<usize, Error>)
    requires
        old(pe).wf(),
    ensures
        final(pe).wf(),
        step2_outcome(*old(pe), *final(pe), *options, *header, r),
{
    // Determine the code section RVA.
    let mut code_section_rva = pe.optional.base_of_code as u64;

    // Taking the header's address breaks other variants of this version, so
    // it is only done with the experimental features.
    if options.use_experimental_features && header.code_section_va != 0 {
        code_section_rva = pe.get_rva_from_va(header.code_section_va as u64);
    }

    // Get the code section.
    let code_index = match pe.get_section_index_by_rva(code_section_rva) {
        Some(i) => i,
        None => return Err(Error::Unpack("code section not found".to_owned())),
    };
    let code_section = pe.sections[code_index];
    if code_section.pointer_to_raw_data == 0 || code_section.size_of_raw_data == 0 {
        return Err(Error::Unpack("code section is invalid".to_owned()));
    }

    // Get the code section data.
    let section_offset = pe.get_file_offset_from_rva(code_section.virtual_address as u64);
    let mut code_section_data = match read_range(
        pe,
        section_offset,
        code_section.size_of_raw_data as usize,
    ) {
        Ok(d) => d,
        Err(e) => return Err(e),
    };

    // Skip the code section encoding if we do not need to process it.
    if (header.flags & 0x04) == 0 {
        return Ok(code_index);
    }

    // Decode the code section data (rolling XOR).
    let n = header.code_section_size >> 2;
    if (n as usize) > code_section_data.len() / 4 {
        return Err(Error::OutOfBounds);
    }
    rolling_xor(&mut code_section_data, n, header.code_section_xor_key);
    let ghost before = *pe;
    pe.section_data.set(code_index, code_section_data);
    assert(*pe == PeFile { section_data: pe.section_data, ..before });
    Ok(code_index)
}
}

impl Variant20 {
    /// Step 3: prepare the file sections (remove the .bind section if
    /// requested).
    pub fn step3(&self, pe: &mut PeFile, options: &Options, logger: &dyn Logger) -> (r: Result<(), Error>)
        requires
            old(pe).wf(),
        ensures
            final(pe).wf(),
            bind_removal(*old(pe), *final(pe), options.keep_bind_section, removal_result(r, options.keep_bind_section)),
    {
        handle_bind_section(pe, options, logger)
    }
}

/// A run of the 2.0 steps on `pe0`: the header, the file after step 2 and
/// its result, the file after `.bind` handling, and `r` what saving gave.
pub open spec fn run_20(
    pe0: PeFile,
    options: Options,
    h: Header,
    pe2: PeFile,
    r2: Result<usize, Error>,
    pe3: PeFile,
    pe: PeFile,
    r: Result<Vec<u8>, Error>,
) -> bool {
    &&& step1_result(pe0) == Ok::<Header, Failure>(h)
    &&& r2 is Ok && step2_outcome(pe0, pe2, options, h, r2)
    &&& bind_removal(pe2, pe3, options.keep_bind_section, Ok(!options.keep_bind_section))
    &&& is_rebuilt(pe3, pe, options.realign_sections)
    &&& saved_image(pe, options, rva_of(pe3, h.oep as u64) as u32, None, r)
}

/// The error of `r` as a `.bind` removal result.
pub open spec fn as_bool_err(r: Result<Vec<u8>, Error>) -> Result<bool, Error> {
    match r {
        Ok(_) => Ok(true),
        Err(e) => Err(e),
    }
}

/// What unpacking a 2.0 file does: the steps in order, stopping at the
/// first that fails; `pe` ends as that step left it.
pub open spec fn unpack_20_outcome(pe0: PeFile, pe: PeFile, options: Options, r: Result<Vec<u8>, Error>) -> bool {
    ||| r is Err && step1_result(pe0) == Err::<Header, Failure>(failure(r->Err_0)) && pe == pe0
    ||| r is Err && exists|h: Header, r2: Result<usize, Error>|
        step1_result(pe0) == Ok::<Header, Failure>(h) && #[trigger] step2_outcome(
            pe0,
            pe,
            options,
            h,
            r2,
        ) && r2 is Err && failure(r2->Err_0) == failure(r->Err_0)
    ||| r is Err && exists|h: Header, pe2: PeFile, r2: Result<usize, Error>|
        step1_result(pe0) == Ok::<Header, Failure>(h) && #[trigger] step2_outcome(
            pe0,
            pe2,
            options,
            h,
            r2,
        ) && r2 is Ok && bind_removal(pe2, pe, options.keep_bind_section, as_bool_err(r))
    ||| exists|h: Header, pe2: PeFile, r2: Result<usize, Error>, pe3: PeFile|
        #[trigger] run_20(pe0, options, h, pe2, r2, pe3, pe, r)
}

impl Unpacker for Variant20 {
    open spec fn spec_can_process(&self, pe: PeFile) -> bool {
        (pe.file_header.machine != 0x8664 && spec_section_index(pe.sections@, ".bind"@) is Some
            && pattern_in_section(pe, ".bind"@, BIND_PATTERN@))
    }

    open spec fn spec_outcome(
        &self,
        pe0: PeFile,
        pe: PeFile,
        options: Options,
        d0: Dumps,
        d: Dumps,
        r: Result<Vec<u8>, Error>,
    ) -> bool {
        unpack_20_outcome(pe0, pe, options, r) && d == d0
    }

    open spec fn spec_name(&self) -> Seq<char> {
        "SteamStub Variant 2.0 Unpacker (x86)"@
    }

    fn name(&self) -> (r: &'static str)
        ensures
            r@ == "SteamStub Variant 2.0 Unpacker (x86)"@,
    {
        "SteamStub Variant 2.0 Unpacker (x86)"
    }

    fn can_process(&self, pe: &PeFile) -> (r: bool)
        ensures
            r == (pe.file_header.machine != 0x8664 && spec_section_index(pe.sections@, ".bind"@) is Some
                && pattern_in_section(*pe, ".bind"@, BIND_PATTERN@)),
    {
        proof {
            lemma_pattern_complete();
        }
        if pe.is_file_64() || !pe.has_section(".bind") {
            return false;
        }
        find_pattern_in_section(pe, ".bind", BIND_PATTERN).is_ok()
    }

    #[verifier::rlimit(40)]
    fn process(&self, pe: &mut PeFile, options: &Options, logger: &dyn Logger, dumps: &mut Dumps) -> (r: Result<Vec<u8>, Error>)
        ensures
            unpack_20_outcome(*old(pe), *final(pe), *options, r),
            *final(dumps) == *old(dumps),
    {
        let ghost pe0 = *pe;
        logger.log(Level::Info, "File is packed with SteamStub Variant 2.0!");

        logger.log(Level::Info, "Step 1 - Read, disassemble and decode the SteamStub DRM header.");
        let header = match self.step1(pe) {
            Ok(h) => h,
            Err(e) => return Err(e),
        };

        logger.log(Level::Info, "Step 2 - Read, decrypt and process the main code section.");
        let r2 = self.step2(pe, options, &header);
        let ghost g2 = r2;
        let ghost pe2 = *pe;
        let code_index = match r2 {
            Ok(i) => i,
            Err(e) => {
                assert(step2_outcome(pe0, *pe, *options, header, g2));
                return Err(e);
            },
        };

        logger.log(Level::Info, "Step 3 - Prepare the file sections.");
        let r3 = self.step3(pe, options, logger);
        let ghost g3 = r3;
        match r3 {
            Ok(()) => {},
            Err(e) => {
                assert(step2_outcome(pe0, pe2, *options, header, g2));
                assert(bind_removal(pe2, *pe, options.keep_bind_section, removal_result(g3, options.keep_bind_section)));
                return Err(e);
            },
        }
        let ghost pe3 = *pe;

        logger.log(Level::Info, "Step 4 - Rebuild and save the unpacked file.");
        let entry_point = #[verifier::truncate] (pe.get_rva_from_va(header.oep as u64) as u32);
        let r = save(pe, options, entry_point);
        assert(run_20(pe0, *options, header, pe2, g2, pe3, *pe, r));
        if r.is_ok() {
            logger.log(Level::Success, " --> Unpacked file saved to disk!");
            logger.log(
                Level::Debug,
                message(" --> Code section index: ", decimal(code_index as u64).as_str(), "").as_str(),
            );
        }
        r
    }
}

} // verus!
