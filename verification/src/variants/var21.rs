//! SteamStub DRM Variant 2.1 (x86) unpacker.
//!
//! This variant disassembles the stub to find its header, then extracts the
//! SteamDRMP.dll offsets from the decrypted DLL payload.

use vstd::prelude::*;

use crate::crypto::aes::{aes256_decrypt, pad_to, spec_decrypt, AesHelper, AesMode};
use crate::crypto::xtea::{
    drmp_decode, lemma_four_keys_fit, steam_drmp_pass1, steam_xor, xor_count, xor_decode,
    xor_key_at, DELTA,
};
use crate::logger::{Level, Logger};
use crate::options::Options;
use crate::pattern::{
    find_pattern, lemma_ascii_pattern_completes, pattern_offset, pattern_parse_completes,
};
use crate::pe::pe_file::{is_rebuilt, spec_file_offset, spec_owner_index, spec_section_index};
use crate::pe::reader::{in_bounds, le_i32, le_u32, read_u32_at, Buf};
use crate::pe::PeFile;
use crate::variants::common::{
    bind_removal, decode_block, is_mov_mem_imm, is_mov_reg_imm, message, op1_immediate, read_range,
    remove_bind_section, save, saved_image, spec_decode_block, spec_mov_mem_imm,
    spec_mov_reg_imm, spec_op1_immediate, spec_read_range, Dumps, Insn, InsnKind,
    DRM_FLAG_NO_ENCRYPTION, OP_IMMEDIATE16, OP_IMMEDIATE32, OP_IMMEDIATE8, OP_MEMORY, OP_REGISTER,
};
use crate::variants::var_3x::{entry_offset, min3, rva_of};
use crate::variants::Unpacker;
use crate::{failure, Error, Failure};

verus! {

/// SteamStub Variant 2.1 unpacker (x86).
pub struct Variant21;

/// Signature found in the v2.x bind section used for detection.
pub const BIND_PATTERN: &'static str = "53 51 52 56 57 55 8B EC 81 EC 00 10 00 00 C7";
/// Base decode length when scanning the stub for header information.
pub const SCAN_LENGTH: usize = 4096;
/// Number of bytes of the SteamDRMP.dll offset block to inspect.
pub const OFFSET_BLOCK_SIZE: usize = 1024;

/// Primary SteamDRMP.dll offset detection pattern.
pub const DRMP_PATTERN_1: &'static str = "8B ?? ?? ?? ?? ?? 89 ?? ?? ?? ?? ?? 8B ?? ?? ?? ?? ?? 89 ?? ?? ?? ?? ?? 8B ?? ?? ?? ?? ?? 89 ?? ?? ?? ?? ?? 8B ?? ?? ?? ?? ?? 89 ?? ?? ?? ?? ?? 8D ?? ?? ?? ?? ?? 05";
/// First fall-back SteamDRMP.dll offset detection pattern.
pub const DRMP_PATTERN_2: &'static str = "8B ?? ?? ?? ?? ?? 89 ?? ?? ?? ?? ?? 8B ?? ?? ?? ?? ?? 89 ?? ?? ?? ?? ?? 8B ?? ?? ?? ?? ?? 89 ?? ?? ?? ?? ?? 8B ?? ?? ?? ?? ?? 89 ?? ?? ?? ?? ?? 8B";
/// Second fall-back pattern (seen in some v2 variants).
pub const DRMP_PATTERN_3: &'static str = "8B ?? ?? ?? ?? ?? 89 ?? ?? ?? ?? ?? 8B ?? ?? ?? ?? ?? A3 ?? ?? ?? ?? 8B ?? ?? ?? ?? ?? A3 ?? ?? ?? ?? 8B ?? ?? ?? ?? ?? A3 ?? ?? ?? ?? 8B";

/// Every 2.1 search pattern parses to completion.
pub proof fn lemma_patterns_complete()
    ensures
        pattern_parse_completes(BIND_PATTERN@),
        pattern_parse_completes(DRMP_PATTERN_1@),
        pattern_parse_completes(DRMP_PATTERN_2@),
        pattern_parse_completes(DRMP_PATTERN_3@),
{
    reveal_strlit("53 51 52 56 57 55 8B EC 81 EC 00 10 00 00 C7");
    reveal_strlit(
        "8B ?? ?? ?? ?? ?? 89 ?? ?? ?? ?? ?? 8B ?? ?? ?? ?? ?? 89 ?? ?? ?? ?? ?? 8B ?? ?? ?? ?? ?? 89 ?? ?? ?? ?? ?? 8B ?? ?? ?? ?? ?? 89 ?? ?? ?? ?? ?? 8D ?? ?? ?? ?? ?? 05",
    );
    reveal_strlit(
        "8B ?? ?? ?? ?? ?? 89 ?? ?? ?? ?? ?? 8B ?? ?? ?? ?? ?? 89 ?? ?? ?? ?? ?? 8B ?? ?? ?? ?? ?? 89 ?? ?? ?? ?? ?? 8B ?? ?? ?? ?? ?? 89 ?? ?? ?? ?? ?? 8B",
    );
    reveal_strlit(
        "8B ?? ?? ?? ?? ?? 89 ?? ?? ?? ?? ?? 8B ?? ?? ?? ?? ?? A3 ?? ?? ?? ?? 8B ?? ?? ?? ?? ?? A3 ?? ?? ?? ?? 8B ?? ?? ?? ?? ?? A3 ?? ?? ?? ?? 8B",
    );
    lemma_ascii_pattern_completes(BIND_PATTERN@);
    lemma_ascii_pattern_completes(DRMP_PATTERN_1@);
    lemma_ascii_pattern_completes(DRMP_PATTERN_2@);
    lemma_ascii_pattern_completes(DRMP_PATTERN_3@);
}

/// The parsed variable-length v2.1 header.
#[derive(Clone, Copy, Debug)]
pub struct Header {
    pub payload_va: u32,
    pub payload_size: u32,
    pub drmp_va_off: usize,
    pub drmp_size_off: usize,
    pub xtea_keys_off: usize,
}

/// The state of the header scan after some instructions: struct offset,
/// struct size and XOR key found so far.
pub open spec fn scan_step(i: Insn, image_base: u64, so: u64, ss: u32, key: u32) -> (u64, u32, u32) {
    let (so2, key2) = match spec_mov_mem_imm(i) {
        Some(imm) => if so == 0 {
            (imm.wrapping_sub(image_base), key)
        } else {
            (so, imm as u32)
        },
        None => (so, key),
    };
    let ss2 = match spec_mov_reg_imm(i) {
        Some(imm) => imm.wrapping_mul(4) as u32,
        None => ss,
    };
    (so2, ss2, key2)
}

/// The header location the stub names, scanning from instruction `i` with
/// what was found so far: found once all three are non-zero before an
/// instruction.
pub open spec fn scan_from(insns: Seq<Insn>, image_base: u64, i: int, so: u64, ss: u32, key: u32) -> Option<(u64, u32, u32)>
    decreases insns.len() - i,
{
    if i < 0 || i >= insns.len() {
        None
    } else if so > 0 && ss > 0 && key > 0 {
        Some((so, ss, key))
    } else {
        let (so2, ss2, key2) = scan_step(insns[i], image_base, so, ss, key);
        scan_from(insns, image_base, i + 1, so2, ss2, key2)
    }
}

/// Scans the decoded stub for the header struct offset, size and XOR key:
/// the first `mov [mem], imm` gives the struct VA, later ones the XOR key,
/// and each `mov reg, imm` the dword count of the struct.
pub fn locate_header(insns: &[Insn], image_base: u64) -> (r: Result<(u64, u32, u32), Error>)
    ensures
        match scan_from(insns@, image_base, 0, 0, 0, 0) {
            Some(t) => r == Ok::<(u64, u32, u32), Error>(t),
            None => r matches Err(Error::Unpack(m)) && m@
                == "failed to locate the DRM header information"@,
        },
{
    let mut struct_offset: u64 = 0;
    let mut struct_size: u32 = 0;
    let mut struct_xor_key: u32 = 0;
    let mut i: usize = 0;
    while i < insns.len()
        invariant
            i <= insns@.len(),
            scan_from(insns@, image_base, i as int, struct_offset, struct_size, struct_xor_key)
                == scan_from(insns@, image_base, 0, 0, 0, 0),
        decreases insns@.len() - i,
    {
        if struct_offset > 0 && struct_size > 0 && struct_xor_key > 0 {
            return Ok((struct_offset, struct_size, struct_xor_key));
        }
        let insn = &insns[i];
        // Looks for: mov dword ptr [value], immediate
        if let Some(imm) = is_mov_mem_imm(insn) {
            if struct_offset == 0 {
                struct_offset = imm.wrapping_sub(image_base);
            } else {
                struct_xor_key = imm as u32;
            }
        }
        // Looks for: mov reg, immediate
        if let Some(imm) = is_mov_reg_imm(insn) {
            struct_size = imm.wrapping_mul(4) as u32;
        }
        i += 1;
    }
    Err(Error::Unpack("failed to locate the DRM header information".to_owned()))
}

impl Variant21 {
/// Disassembles the stub at the entry point to locate the header struct
/// offset, size and XOR key.
pub fn disassemble_file(&self, pe: &PeFile) -> (r: Result<(u64, u32, u32), Error>)
    ensures
        match scan_from(
            spec_decode_block(pe.data@, entry_offset(*pe) as usize, SCAN_LENGTH, entry_offset(*pe)),
            pe.optional.image_base,
            0,
            0,
            0,
            0,
        ) {
            Some(t) => r == Ok::<(u64, u32, u32), Error>(t),
            None => r matches Err(Error::Unpack(m)) && m@
                == "failed to locate the DRM header information"@,
        },
{
    let entry_offset = pe.get_file_offset_from_rva(pe.optional.address_of_entry_point as u64);
    let insns = decode_block(
        pe.data.as_slice(),
        #[verifier::truncate] (entry_offset as usize),
        SCAN_LENGTH,
        entry_offset,
    );
    locate_header(insns.as_slice(), pe.optional.image_base)
}
}

/// The header fields at the offsets the struct size selects.
pub open spec fn header_from(d: Seq<u8>, struct_size: u32) -> Option<Header> {
    let big = struct_size / 4 == 0xD0;
    let at = if big {
        32int
    } else {
        36int
    };
    if !in_bounds(d.len() as int, at, 8) {
        None
    } else if big {
        Some(
            Header {
                payload_va: le_u32(d, 32),
                payload_size: le_u32(d, 36),
                drmp_va_off: 56,
                drmp_size_off: 60,
                xtea_keys_off: 64,
            },
        )
    } else {
        Some(
            Header {
                payload_va: le_u32(d, 36),
                payload_size: le_u32(d, 40),
                drmp_va_off: 60,
                drmp_size_off: 64,
                xtea_keys_off: 68,
            },
        )
    }
}

/// What step 1 gives for `pe`: the header and the XOR key to carry on.
pub open spec fn step1_result(pe: PeFile) -> Result<(Header, u32), Failure> {
    let fo = entry_offset(pe);
    if fo < 4 {
        Err(Failure::Unpack("entry point is too small"@))
    } else if !in_bounds(pe.data@.len() as int, ((fo - 4) as u64) as usize as int, 4) {
        Err(Failure::OutOfBounds)
    } else if le_u32(pe.data@, ((fo - 4) as u64) as usize as int) != 0xC0DEC0DE {
        Err(Failure::Unpack("missing 0xC0DEC0DE signature"@))
    } else {
        match scan_from(
            spec_decode_block(pe.data@, fo as usize, SCAN_LENGTH, fo),
            pe.optional.image_base,
            0,
            0,
            0,
            0,
        ) {
            None => Err(Failure::Unpack("failed to locate the DRM header information"@)),
            Some((so, ss, k)) => match spec_read_range(
                pe.data@,
                spec_file_offset(pe.sections@, so),
                ss as usize,
            ) {
                None => Err(Failure::OutOfBounds),
                Some(raw) => {
                    let size = ss as usize as u32;
                    match header_from(xor_decode(raw, size, k), ss) {
                        None => Err(Failure::OutOfBounds),
                        Some(h) => Ok((h, xor_key_at(raw, size, k, xor_count(size, k)))),
                    }
                },
            },
        }
    }
}

/// A step-1 result with its error taken as a failure.
pub open spec fn header_outcome(r: Result<(Header, u32), Error>) -> Result<(Header, u32), Failure> {
    match r {
        Ok(v) => Ok(v),
        Err(e) => Err(failure(e)),
    }
}

/// The header layout follows the header's dword count: once the stub names
/// the header (at `so`, `ss` bytes, XOR key `k`) and its bytes are read, a
/// header of 0xD0 dwords gives the payload address and size in decoded
/// dwords 32 and 36 and the SteamDRMP fields at 56, 60 and 64; any other
/// count gives them four bytes later (36 and 40; 60, 64 and 68).
pub proof fn lemma_step1_header_layout(
    pe: PeFile,
    h: Header,
    key: u32,
    so: u64,
    ss: u32,
    k: u32,
    raw: Seq<u8>,
)
    requires
        step1_result(pe) == Ok::<(Header, u32), Failure>((h, key)),
        scan_from(
            spec_decode_block(pe.data@, entry_offset(pe) as usize, SCAN_LENGTH, entry_offset(pe)),
            pe.optional.image_base,
            0,
            0,
            0,
            0,
        ) == Some((so, ss, k)),
        spec_read_range(pe.data@, spec_file_offset(pe.sections@, so), ss as usize) == Some(raw),
    ensures
        ({
            let d = xor_decode(raw, ss, k);
            if ss / 4 == 0xD0 {
                &&& h.payload_va == le_u32(d, 32)
                &&& h.payload_size == le_u32(d, 36)
                &&& h.drmp_va_off == 56
                &&& h.drmp_size_off == 60
                &&& h.xtea_keys_off == 64
            } else {
                &&& h.payload_va == le_u32(d, 36)
                &&& h.payload_size == le_u32(d, 40)
                &&& h.drmp_va_off == 60
                &&& h.drmp_size_off == 64
                &&& h.xtea_keys_off == 68
            }
        }),
{
    assert(ss as usize as u32 == ss);
}

impl Variant21 {
/// Step 1: read, disassemble and decode the SteamStub DRM header.
pub fn step1(&self, pe: &PeFile) -> (r: Result<(Header, u32), Error>)
    ensures
        header_outcome(r) == step1_result(*pe),
{
    let file_offset = pe.get_file_offset_from_rva(pe.optional.address_of_entry_point as u64);

    // Validate the DRM header.
    if file_offset < 4 {
        return Err(Error::Unpack("entry point is too small".to_owned()));
    }
    let sig_off = file_offset - 4;
    let signature = match pe.data.as_slice().rd_u32(#[verifier::truncate] (sig_off as usize)) {
        Some(s) => s,
        None => return Err(Error::OutOfBounds),
    };
    if signature != 0xC0DEC0DE {
        return Err(Error::Unpack("missing 0xC0DEC0DE signature".to_owned()));
    }

    // Disassemble the file to locate the needed DRM information.
    let (struct_offset, struct_size, struct_xor_key) = match self.disassemble_file(pe) {
        Ok(t) => t,
        Err(e) => return Err(e),
    };

    // Obtain the DRM header data.
    let struct_file_offset = pe.get_file_offset_from_rva(struct_offset);
    let mut header_data = match read_range(pe, struct_file_offset, struct_size as usize) {
        Ok(d) => d,
        Err(e) => return Err(e),
    };

    // Xor decode the header data..
    let size = header_data.len() as u32;
    assert(crate::crypto::xtea::steam_xor_fits(header_data@.len() as int, size, struct_xor_key)) by {
        let n = size as int;
        assert(n >= 4 ==> 4 + 4 * ((n - 4) / 4) <= n) by (nonlinear_arith);
        assert(4 * (n / 4) <= n) by (nonlinear_arith);
    }
    let xor_key = steam_xor(header_data.as_mut_slice(), size, struct_xor_key);
    let d = header_data.as_slice();

    // Determine how to handle the header based on the size..
    let header = if (struct_size / 4) == 0xD0 {
        if d.len() < 40 {
            return Err(Error::OutOfBounds);
        }
        Header {
            payload_va: read_u32_at(d, 32),
            payload_size: read_u32_at(d, 36),
            drmp_va_off: 56,
            drmp_size_off: 60,
            xtea_keys_off: 64,
        }
    } else {
        if d.len() < 44 {
            return Err(Error::OutOfBounds);
        }
        Header {
            payload_va: read_u32_at(d, 36),
            payload_size: read_u32_at(d, 40),
            drmp_va_off: 60,
            drmp_size_off: 64,
            xtea_keys_off: 68,
        }
    };
    Ok((header, xor_key))
}
}

/// What step 2 gives: the decoded payload, left in the dumps as well when
/// the options ask for it.
pub open spec fn step2_outcome(pe: PeFile, options: Options, h: Header, xor_key: u32, d0: Dumps, d1: Dumps, r: Result<Vec<u8>, Error>) -> bool {
    let addr = spec_file_offset(pe.sections@, rva_of(pe, h.payload_va as u64));
    match spec_read_range(pe.data@, addr, h.payload_size as usize) {
        None => r matches Err(Error::OutOfBounds) && d1 == d0,
        Some(raw) => {
            let p = xor_decode(raw, h.payload_size, xor_key);
            &&& r matches Ok(v) && v@ == p
            &&& if options.dump_payload_to_disk {
                d1.payload matches Some(q) && q@ == p && d1.drmp == d0.drmp
            } else {
                d1 == d0
            }
        },
    }
}

impl Variant21 {
/// Step 2: read, decode and process the payload data.
pub fn step2(&self, 
    pe: &PeFile,
    options: &Options,
    header: &Header,
    xor_key: u32,
    logger: &dyn Logger,
    dumps: &mut Dumps,
) -> (r: Result<Vec<u8>, Error>)
    ensures
        step2_outcome(*pe, *options, *header, xor_key, *old(dumps), *final(dumps), r),
{
    // Obtain the payload address and size..
    let payload_rva = pe.get_rva_from_va(header.payload_va as u64);
    let payload_addr = pe.get_file_offset_from_rva(payload_rva);
    let mut payload = match read_range(pe, payload_addr, header.payload_size as usize) {
        Ok(p) => p,
        Err(e) => return Err(e),
    };

    // Decode the payload data..
    assert(crate::crypto::xtea::steam_xor_fits(payload@.len() as int, header.payload_size, xor_key)) by {
        let n = header.payload_size as int;
        assert(n >= 4 ==> 4 + 4 * ((n - 4) / 4) <= n) by (nonlinear_arith);
        assert(4 * (n / 4) <= n) by (nonlinear_arith);
    }
    let _ = steam_xor(payload.as_mut_slice(), header.payload_size, xor_key);

    if options.dump_payload_to_disk {
        dumps.payload = Some(vstd::slice::slice_to_vec(payload.as_slice()));
        logger.log(Level::Debug, " --> Saved payload to disk!");
    }
    Ok(payload)
}
}

/// The little-endian dword at `offset` of `data`, zero when it does not fit.
pub open spec fn spec_payload_u32(data: Seq<u8>, offset: u32) -> u32 {
    if in_bounds(data.len() as int, offset as usize as int, 4) {
        le_u32(data, offset as usize as int)
    } else {
        0
    }
}

/// Reads a little-endian u32 from `data` at `offset` (zero when out of range).
pub fn payload_u32(data: &[u8], offset: u32) -> (r: u32)
    ensures
        r == spec_payload_u32(data@, offset),
{
    let off = offset as usize;
    if off <= data.len() && data.len() - off >= 4 {
        read_u32_at(data, off)
    } else {
        0
    }
}

/// Reads `len` bytes from `data` starting at `offset`.
pub fn payload_get(data: &[u8], offset: u32, len: usize) -> (r: Result<&[u8], Error>)
    ensures
        in_bounds(data@.len() as int, offset as usize as int, len as int) ==> (r matches Ok(s)
            && s@ == data@.subrange(offset as usize as int, offset as usize + len)),
        !in_bounds(data@.len() as int, offset as usize as int, len as int) ==> r matches Err(
            Error::OutOfBounds,
        ),
{
    let start = offset as usize;
    if start <= data.len() && data.len() - start >= len {
        Ok(vstd::slice::slice_subrange(data, start, start + len))
    } else {
        Err(Error::OutOfBounds)
    }
}

/// The XTEA keys stored from `off` to the end of the payload.
pub open spec fn payload_keys(payload: Seq<u8>, off: usize) -> Seq<u32> {
    let n = if payload.len() > off {
        (payload.len() - off) / 4
    } else {
        0
    };
    Seq::new(n as nat, |x: int| spec_payload_u32(payload, (off + x * 4) as u32))
}

/// What step 3 gives: the decrypted SteamDRMP.dll, left in the dumps as
/// well when the options ask for it.
pub open spec fn step3_outcome(pe: PeFile, options: Options, h: Header, payload: Seq<u8>, d0: Dumps, d1: Dumps, r: Result<Vec<u8>, Error>) -> bool {
    let drmp_va = spec_payload_u32(payload, h.drmp_va_off as u32);
    let drmp_size = spec_payload_u32(payload, h.drmp_size_off as u32);
    let addr = spec_file_offset(pe.sections@, rva_of(pe, drmp_va as u64));
    let keys = payload_keys(payload, h.xtea_keys_off);
    match spec_read_range(pe.data@, addr, drmp_size as usize) {
        None => r matches Err(Error::OutOfBounds) && d1 == d0,
        Some(raw) => if drmp_size >= 8 && keys.len() < 4 {
            r matches Err(Error::OutOfBounds) && d1 == d0
        } else {
            let plain = drmp_decode(raw, keys, drmp_size);
            &&& r matches Ok(v) && v@ == plain
            &&& if options.dump_steam_drmp_to_disk {
                d1.drmp matches Some(q) && q@ == plain && d1.payload == d0.payload
            } else {
                d1 == d0
            }
        },
    }
}

impl Variant21 {
/// Step 3: read, decode and dump the SteamDRMP.dll file.
pub fn step3(&self, 
    pe: &PeFile,
    options: &Options,
    header: &Header,
    payload: &[u8],
    logger: &dyn Logger,
    dumps: &mut Dumps,
) -> (r: Result<Vec<u8>, Error>)
    ensures
        step3_outcome(*pe, *options, *header, payload@, *old(dumps), *final(dumps), r),
{
    logger.log(Level::Debug, " --> File has SteamDRMP.dll file!");

    // Obtain the SteamDRMP.dll file address and data..
    let drmp_va = payload_u32(payload, #[verifier::truncate] (header.drmp_va_off as u32));
    let drmp_size = payload_u32(payload, #[verifier::truncate] (header.drmp_size_off as u32));
    let drmp_rva = pe.get_rva_from_va(drmp_va as u64);
    let drmp_addr = pe.get_file_offset_from_rva(drmp_rva);
    let mut drmp_data = match read_range(pe, drmp_addr, drmp_size as usize) {
        Ok(d) => d,
        Err(e) => return Err(e),
    };

    // Obtain the XTea encryption keys..
    let key_count = if payload.len() > header.xtea_keys_off {
        (payload.len() - header.xtea_keys_off) / 4
    } else {
        0
    };
    let ghost keys_spec = payload_keys(payload@, header.xtea_keys_off);
    let plen = payload.len();
    assert(key_count * 4 + header.xtea_keys_off <= payload@.len() || key_count == 0) by (nonlinear_arith)
        requires
            key_count == (if payload@.len() > header.xtea_keys_off {
                (payload@.len() - header.xtea_keys_off) / 4
            } else {
                0
            }),
    ;
    let mut keys: Vec<u32> = Vec::new();
    let mut x: usize = 0;
    while x < key_count
        invariant
            key_count == keys_spec.len(),
            plen == payload@.len(),
            keys_spec == payload_keys(payload@, header.xtea_keys_off),
            key_count * 4 + header.xtea_keys_off <= payload@.len() || key_count == 0,
            x <= key_count,
            keys@.len() == x,
            forall|k: int| 0 <= k < x ==> keys@[k] == keys_spec[k],
        decreases key_count - x,
    {
        assert(header.xtea_keys_off + x * 4 < payload@.len()) by (nonlinear_arith)
            requires
                x < key_count,
                key_count * 4 + header.xtea_keys_off <= payload@.len(),
        ;
        let off = header.xtea_keys_off + x * 4;
        keys.push(payload_u32(payload, #[verifier::truncate] (off as u32)));
        x += 1;
    }
    assert(keys@ =~= keys_spec);
    if drmp_size >= 8 && keys.len() < 4 {
        return Err(Error::OutOfBounds);
    }

    // Decrypt the file data..
    proof {
        if drmp_size >= 8 {
            lemma_four_keys_fit(keys@.len() as int, DELTA.wrapping_mul(32), 32);
        }
        assert(8 * (drmp_size / 8) <= drmp_size);
    }
    steam_drmp_pass1(drmp_data.as_mut_slice(), drmp_size, keys.as_slice());

    if options.dump_steam_drmp_to_disk {
        dumps.drmp = Some(vstd::slice::slice_to_vec(drmp_data.as_slice()));
        logger.log(Level::Debug, " --> Saved SteamDRMP.dll to disk!");
    }
    Ok(drmp_data)
}
}

/// The offsets within the offset block of the OEP, code section address,
/// encrypted size, AES key and AES IV fields.
pub open spec fn field_positions(fallback: bool) -> (int, int, int, int, int) {
    if fallback {
        (25, 36, 47, 61, 72)
    } else {
        (26, 38, 50, 62, 67)
    }
}

/// The bytes `get_drmp_offsets` reads of the offset block.
pub open spec fn offsets_block_len(fallback: bool) -> int {
    if fallback {
        76
    } else {
        71
    }
}

/// The eight SteamDRMP.dll offsets stored at fixed positions of `d`: flags,
/// Steam App Id, OEP, code section address, encrypted size, AES key, AES IV
/// and the stolen bytes (16 past the IV).
pub open spec fn spec_drmp_offsets(d: Seq<u8>, fallback: bool) -> Seq<i32> {
    let (o2, o3, o4, o5, o6) = field_positions(fallback);
    let iv = le_i32(d, o6);
    seq![
        le_i32(d, 2),
        le_i32(d, 14),
        le_i32(d, o2),
        le_i32(d, o3),
        le_i32(d, o4),
        le_i32(d, o5),
        iv,
        iv.wrapping_add(16),
    ]
}

/// Reads the signed dword at `off`; the caller guarantees the bounds.
fn i32_at(data: &[u8], off: usize) -> (r: i32)
    requires
        off + 4 <= data@.len(),
    ensures
        r == le_i32(data@, off as int),
{
    let u = read_u32_at(data, off);
    if u >= 0x8000_0000 {
        (u as i64 - 0x1_0000_0000) as i32
    } else {
        u as i32
    }
}

/// Extracts the SteamDRMP.dll offsets using the fixed positions in the
/// offset block.
pub fn get_drmp_offsets(data: &[u8], fallback: bool) -> (r: Vec<i32>)
    requires
        data@.len() >= offsets_block_len(fallback),
    ensures
        r@ == spec_drmp_offsets(data@, fallback),
{
    let offset0: usize = 2;  // Flags
    let offset1: usize = 14;  // Steam App Id
    let offset2: usize = if fallback { 25 } else { 26 };  // OEP
    let offset3: usize = if fallback { 36 } else { 38 };  // Code Section Virtual Address
    let offset4: usize = if fallback { 47 } else { 50 };  // Code Section Virtual Size (Encrypted Size)
    let offset5: usize = if fallback { 61 } else { 62 };  // Code Section AES Key
    let offset6: usize = if fallback { 72 } else { 67 };  // Code Section AES Iv

    let mut offsets: Vec<i32> = Vec::new();
    offsets.push(i32_at(data, offset0));
    offsets.push(i32_at(data, offset1));
    offsets.push(i32_at(data, offset2));
    offsets.push(i32_at(data, offset3));
    offsets.push(i32_at(data, offset4));
    offsets.push(i32_at(data, offset5));

    let aes_iv_offset = i32_at(data, offset6);
    offsets.push(aes_iv_offset);  // 6 - Code Section AES Iv
    offsets.push(aes_iv_offset.wrapping_add(16));  // 7 - Code Section Stolen Bytes
    assert(offsets@ =~= spec_drmp_offsets(data@, fallback));
    offsets
}

/// Whether `x` is `op reg, [mem]` for the mnemonic `m`.
pub open spec fn reg_mem(x: Insn, m: InsnKind) -> bool {
    x.mnemonic == m && x.op0 == OP_REGISTER && x.op1 == OP_MEMORY
}

/// Whether `x` is `add reg, imm` with an 8, 16 or 32-bit immediate.
pub open spec fn add_reg_imm(x: Insn) -> bool {
    &&& x.mnemonic == InsnKind::Add
    &&& x.op0 == OP_REGISTER
    &&& (x.op1 == OP_IMMEDIATE8 || x.op1 == OP_IMMEDIATE16 || x.op1 == OP_IMMEDIATE32)
}

/// The offsets read from instruction `i` on, with `count` found and `acc`
/// collected so far: `mov reg, [mem+d]` gives `d` (until a `lea` was seen),
/// `lea reg, [mem+d]` gives `d` and `d + 16`, `add reg, imm` gives `imm`;
/// the scan stops once eight were counted.
pub open spec fn dynamic_from(insns: Seq<Insn>, i: int, count: int, skip_mov: bool, acc: Seq<i32>) -> Seq<i32>
    decreases insns.len() - i,
{
    if i < 0 || i >= insns.len() || count >= 8 {
        acc
    } else {
        let x = insns[i];
        let mov = !skip_mov && reg_mem(x, InsnKind::Mov);
        let c1 = if mov {
            count + 1
        } else {
            count
        };
        let a1 = if mov {
            acc.push(x.displacement as i32)
        } else {
            acc
        };
        let lea = reg_mem(x, InsnKind::Lea);
        let c2 = if lea {
            c1 + 2
        } else {
            c1
        };
        let a2 = if lea {
            a1.push(x.displacement as i32).push((x.displacement as i32).wrapping_add(16))
        } else {
            a1
        };
        let s2 = skip_mov || lea;
        let add = add_reg_imm(x);
        let c3 = if add {
            c2 + 1
        } else {
            c2
        };
        let a3 = if add {
            a2.push(
                match spec_op1_immediate(x) {
                    Some(v) => v as i32,
                    None => 0i32,
                },
            )
        } else {
            a2
        };
        dynamic_from(insns, i + 1, c3, s2, a3)
    }
}

/// Collects the SteamDRMP.dll offsets from the decoded offset block.
pub fn drmp_offsets_from(insns: &[Insn]) -> (r: Vec<i32>)
    ensures
        r@ == dynamic_from(insns@, 0, 0, false, Seq::empty()),
{
    let mut offsets: Vec<i32> = Vec::new();
    let mut count: u32 = 0;
    let mut skip_mov = false;
    let mut i: usize = 0;
    while i < insns.len()
        invariant
            i <= insns@.len(),
            count < 12,
            dynamic_from(insns@, i as int, count as int, skip_mov, offsets@) == dynamic_from(
                insns@,
                0,
                0,
                false,
                Seq::empty(),
            ),
        ensures
            i >= insns@.len() || count >= 8,
            dynamic_from(insns@, i as int, count as int, skip_mov, offsets@) == dynamic_from(
                insns@,
                0,
                0,
                false,
                Seq::empty(),
            ),
        decreases insns@.len() - i,
    {
        if count >= 8 {
            break;
        }
        let insn = &insns[i];
        // ex: mov eax, [eax+1234]
        if !skip_mov && insn.mnemonic == InsnKind::Mov && insn.op0 == OP_REGISTER && insn.op1
            == OP_MEMORY {
            count += 1;
            offsets.push(#[verifier::truncate] (insn.displacement as i32));
        }
        // ex: lea eax, [eax+1234]
        if insn.mnemonic == InsnKind::Lea && insn.op0 == OP_REGISTER && insn.op1 == OP_MEMORY {
            count += 2;
            let disp = #[verifier::truncate] (insn.displacement as i32);
            offsets.push(disp);
            offsets.push(disp.wrapping_add(16));
            // Some v2 files load GetModuleHandleA's address with a mov after
            // the lea; that mov is no offset.
            skip_mov = true;
        }
        // ex: add eax, 1234
        if insn.mnemonic == InsnKind::Add && insn.op0 == OP_REGISTER && (insn.op1
            == OP_IMMEDIATE8 || insn.op1 == OP_IMMEDIATE16 || insn.op1 == OP_IMMEDIATE32) {
            count += 1;
            let v = match op1_immediate(insn) {
                Some(v) => #[verifier::truncate] (v as i32),
                None => 0,
            };
            offsets.push(v);
        }
        i += 1;
    }
    offsets
}

/// Extracts the SteamDRMP.dll offsets by disassembling the offset block.
pub fn get_drmp_offsets_dynamic(data: &[u8]) -> (r: Vec<i32>)
    ensures
        r@ == dynamic_from(spec_decode_block(data@, 0, data@.len() as usize, 0), 0, 0, false, Seq::empty()),
{
    let insns = decode_block(data, 0, data.len(), 0);
    drmp_offsets_from(insns.as_slice())
}

/// Where the offset block starts in the SteamDRMP.dll and whether it uses
/// the fall-back layout.
pub open spec fn offset_block_at(drmp: Seq<u8>) -> Option<(int, bool)> {
    match pattern_offset(drmp, DRMP_PATTERN_1@) {
        Some(o) => Some((o, false)),
        None => match pattern_offset(drmp, DRMP_PATTERN_2@) {
            Some(o) => Some((o, false)),
            None => match pattern_offset(drmp, DRMP_PATTERN_3@) {
                Some(o) => Some((o, true)),
                None => None,
            },
        },
    }
}

/// What step 4 gives for the decrypted SteamDRMP.dll.
pub open spec fn step4_result(drmp: Seq<u8>, options: Options) -> Result<Seq<i32>, Failure> {
    match offset_block_at(drmp) {
        None => Err(Failure::PatternNotFound),
        Some((o, fallback)) => {
            let end = if drmp.len() - o > OFFSET_BLOCK_SIZE {
                o + OFFSET_BLOCK_SIZE
            } else {
                drmp.len() as int
            };
            let block = drmp.subrange(o, end);
            let offsets = if options.use_experimental_features {
                Some(dynamic_from(spec_decode_block(block, 0, block.len() as usize, 0), 0, 0, false, Seq::empty()))
            } else if block.len() < offsets_block_len(fallback) {
                None
            } else {
                Some(spec_drmp_offsets(block, fallback))
            };
            match offsets {
                None => Err(Failure::OutOfBounds),
                Some(v) => if v.len() != 8 {
                    Err(Failure::Unpack("failed to extract the SteamDRMP.dll offsets"@))
                } else {
                    Ok(v)
                },
            }
        },
    }
}

/// Finds `pat` in `b`, as an option.
fn find(b: &[u8], pat: &str) -> (r: Option<usize>)
    requires
        pattern_parse_completes(pat@),
    ensures
        match pattern_offset(b@, pat@) {
            Some(x) => r matches Some(y) && y == x && x < b@.len(),
            None => r is None,
        },
{
    match find_pattern(b, pat) {
        Ok(o) => {
            proof {
                crate::pattern::lemma_offset_in_data(b@, pat@);
            }
            Some(o)
        },
        Err(_) => None,
    }
}

impl Variant21 {
/// Step 4: scan the SteamDRMP.dll for the block of offsets and pull them.
pub fn step4(&self, steam_drmp: &[u8], options: &Options) -> (r: Result<Vec<i32>, Error>)
    ensures
        match step4_result(steam_drmp@, *options) {
            Ok(v) => r matches Ok(x) && x@ == v,
            Err(f) => r matches Err(e) && failure(e) == f,
        },
{
    proof {
        lemma_patterns_complete();
    }
    // Scan for the needed data by a known pattern for the block of offset data..
    let (drmp_offset, use_fallback) = match find(steam_drmp, DRMP_PATTERN_1) {
        Some(o) => (o, false),
        None => match find(steam_drmp, DRMP_PATTERN_2) {
            Some(o) => (o, false),
            None => match find(steam_drmp, DRMP_PATTERN_3) {
                Some(o) => (o, true),
                None => return Err(Error::PatternNotFound),
            },
        },
    };

    // Copy the block of data from the SteamDRMP.dll data..
    let block_end = if steam_drmp.len() - drmp_offset > OFFSET_BLOCK_SIZE {
        drmp_offset + OFFSET_BLOCK_SIZE
    } else {
        steam_drmp.len()
    };
    let block = vstd::slice::slice_subrange(steam_drmp, drmp_offset, block_end);

    // Obtain the offsets from the file data..
    let offsets = if options.use_experimental_features {
        get_drmp_offsets_dynamic(block)
    } else {
        let need: usize = if use_fallback {
            76
        } else {
            71
        };
        if block.len() < need {
            return Err(Error::OutOfBounds);
        }
        get_drmp_offsets(block, use_fallback)
    };
    if offsets.len() != 8 {
        return Err(Error::Unpack("failed to extract the SteamDRMP.dll offsets".to_owned()));
    }
    Ok(offsets)
}
}

/// The `n` payload bytes at `offset`, when they lie inside it.
pub open spec fn payload_range(payload: Seq<u8>, offset: i32, n: int) -> Option<Seq<u8>> {
    let start = (offset as u32) as usize as int;
    if in_bounds(payload.len() as int, start, n) {
        Some(payload.subrange(start, start + n))
    } else {
        None
    }
}

/// What decrypting and merging the main code section does to `a1` (the
/// file after the `.bind` section was handled): `b` is the file afterwards.
pub open spec fn merge_code(a1: PeFile, b: PeFile, payload: Seq<u8>, offsets: Seq<i32>, r: Result<(), Error>) -> bool {
    let code_va = spec_payload_u32(payload, offsets[3] as u32);
    match spec_owner_index(a1.sections@, rva_of(a1, code_va as u64) as int) {
        None => r matches Err(Error::Unpack(m)) && m@ == "main code section not found"@ && b == a1,
        Some(ci) => {
            let sec = a1.sections@[ci];
            if offsets[3] != 0 && (sec.pointer_to_raw_data == 0 || sec.size_of_raw_data == 0) {
                r matches Err(Error::Unpack(m)) && m@ == "main code section is invalid"@ && b
                    == a1
            } else {
                let soff = spec_file_offset(a1.sections@, sec.virtual_address as u64);
                let flags = spec_payload_u32(payload, offsets[0] as u32);
                if flags & DRM_FLAG_NO_ENCRYPTION == DRM_FLAG_NO_ENCRYPTION {
                    match spec_read_range(a1.data@, soff, sec.size_of_raw_data as usize) {
                        None => r matches Err(Error::OutOfBounds) && b == a1,
                        Some(_) => r is Ok && b == a1,
                    }
                } else {
                    let enc = spec_payload_u32(payload, offsets[4] as u32);
                    match (
                        payload_range(payload, offsets[5], 32),
                        payload_range(payload, offsets[6], 16),
                        payload_range(payload, offsets[7], 16),
                        spec_read_range(a1.data@, soff, enc as usize),
                    ) {
                        (Some(key), Some(iv), Some(stolen), Some(raw)) => {
                            let k = pad_to(key, 32);
                            let plain = spec_decrypt(
                                k,
                                aes256_decrypt(k, pad_to(iv, 16)),
                                stolen + raw,
                                AesMode::Cbc,
                            );
                            let old_data = a1.section_data@[ci]@;
                            let n = min3(enc as usize as int, plain.len() as int, old_data.len() as int);
                            &&& r is Ok
                            &&& b.section_data@.len() == a1.section_data@.len()
                            &&& b.section_data@[ci]@ == plain.take(n) + old_data.skip(n)
                            &&& forall|x: int|
                                0 <= x < a1.section_data@.len() && x != ci
                                    ==> #[trigger] b.section_data@[x] == a1.section_data@[x]
                            &&& b == PeFile { section_data: b.section_data, ..a1 }
                        },
                        _ => r matches Err(Error::OutOfBounds) && b == a1,
                    }
                }
            }
        },
    }
}

/// `b` is `a` with its `.bind` section handled as `keep` asks.
pub open spec fn bind_handled(a: PeFile, b: PeFile, keep: bool) -> bool {
    bind_removal(a, b, keep, Ok(!keep))
}

/// What step 5 does: the `.bind` section handled, then the main code
/// section decrypted and merged.
#[verifier::opaque]
pub open spec fn step5_outcome(a: PeFile, b: PeFile, options: Options, payload: Seq<u8>, offsets: Seq<i32>, r: Result<(), Error>) -> bool {
    if !options.keep_bind_section && !(spec_section_index(a.sections@, ".bind"@) matches Some(i)
        && a.sections@[i].size_of_raw_data != 0 && a.sections@[i].pointer_to_raw_data != 0) {
        r is Err && bind_removal(a, b, false, Err(r->Err_0))
    } else {
        exists|a1: PeFile|
            #[trigger] bind_handled(a, a1, options.keep_bind_section) && a1.wf() && merge_code(
                a1,
                b,
                payload,
                offsets,
                r,
            )
    }
}

impl Variant21 {
/// Step 5: read, decrypt and process the main code section.
#[verifier::rlimit(40)]
pub fn step5(&self, pe: &mut PeFile, options: &Options, payload: &[u8], offsets: &[i32], logger: &dyn Logger) -> (r: Result<(), Error>)
    requires
        old(pe).wf(),
        offsets@.len() == 8,
    ensures
        final(pe).wf(),
        step5_outcome(*old(pe), *final(pe), *options, payload@, offsets@, r),
{
    proof {
        reveal(step5_outcome);
    }
    // Remove the bind section if its not requested to be saved..
    match remove_bind_section(pe, options) {
        Ok(true) => logger.log(Level::Debug, " --> .bind section was removed from the file."),
        Ok(false) => logger.log(Level::Debug, " --> .bind section was kept in the file."),
        Err(e) => return Err(e),
    }
    let ghost a1 = *pe;
    assert(bind_handled(*old(pe), a1, options.keep_bind_section));

    // Obtain the main code section (typically .text)..
    let code_section_va = payload_u32(payload, #[verifier::truncate] (offsets[3] as u32));
    let main_rva = pe.get_rva_from_va(code_section_va as u64);
    let code_index = match pe.get_section_index_by_rva(main_rva) {
        Some(i) => i,
        None => return Err(Error::Unpack("main code section not found".to_owned())),
    };
    let main_section = pe.sections[code_index];
    if offsets[3] != 0 && (main_section.pointer_to_raw_data == 0
        || main_section.size_of_raw_data == 0) {
        return Err(Error::Unpack("main code section is invalid".to_owned()));
    }
    let name = main_section.name_str();
    logger.log(Level::Debug, message(" --> ", name.as_str(), " linked as main code section.").as_str());

    let mut encrypted_size: u32 = 0;
    let section_offset = pe.get_file_offset_from_rva(main_section.virtual_address as u64);

    // Determine if we are using encryption on the section..
    let flags = payload_u32(payload, #[verifier::truncate] (offsets[0] as u32));
    let code_section_data = if (flags & DRM_FLAG_NO_ENCRYPTION) == DRM_FLAG_NO_ENCRYPTION {
        logger.log(Level::Debug, message(" --> ", name.as_str(), " section is not encrypted.").as_str());

        // No encryption was used, just read the original data..
        match read_range(pe, section_offset, main_section.size_of_raw_data as usize) {
            Ok(d) => d,
            Err(e) => return Err(e),
        }
    } else {
        logger.log(Level::Debug, message(" --> ", name.as_str(), " section is encrypted.").as_str());

        // Encryption was used, obtain the encryption information..
        let aes_key = match payload_get(payload, #[verifier::truncate] (offsets[5] as u32), 32) {
            Ok(k) => k,
            Err(e) => return Err(e),
        };
        let aes_iv = match payload_get(payload, #[verifier::truncate] (offsets[6] as u32), 16) {
            Ok(v) => v,
            Err(e) => return Err(e),
        };
        let code_stolen = match payload_get(payload, #[verifier::truncate] (offsets[7] as u32), 16) {
            Ok(v) => v,
            Err(e) => return Err(e),
        };
        encrypted_size = payload_u32(payload, #[verifier::truncate] (offsets[4] as u32));

        // Restore the stolen data then read the rest of the section data..
        let mut merged = vstd::slice::slice_to_vec(code_stolen);
        let mut rest = match read_range(pe, section_offset, encrypted_size as usize) {
            Ok(d) => d,
            Err(e) => return Err(e),
        };
        merged.append(&mut rest);

        // Decrypt the code section..
        let mut aes = AesHelper::new(aes_key, aes_iv);
        aes.rebuild_iv(Some(aes_iv));
        aes.decrypt(merged.as_slice(), AesMode::Cbc)
    };

    // Merge the code section data..
    let section_data_len = pe.section_data[code_index].len();
    let m = if (encrypted_size as usize) < code_section_data.len() {
        encrypted_size as usize
    } else {
        code_section_data.len()
    };
    let copy_len = if m < section_data_len {
        m
    } else {
        section_data_len
    };
    if copy_len > 0 {
        let merged_section = overwrite_prefix(
            pe.section_data[code_index].as_slice(),
            code_section_data.as_slice(),
            copy_len,
        );
        let ghost before = *pe;
        pe.section_data.set(code_index, merged_section);
        assert(*pe == PeFile { section_data: pe.section_data, ..before });
    } else {
        assert(pe.section_data@[code_index as int]@ =~= code_section_data@.take(0) + pe.section_data@[code_index as int]@.skip(0));
    }
    assert(merge_code(a1, *pe, payload@, offsets@, Ok(())));
    Ok(())
}
}

/// `dst` with its first `n` bytes taken from `src`.
fn overwrite_prefix(dst: &[u8], src: &[u8], n: usize) -> (r: Vec<u8>)
    requires
        n <= dst@.len(),
        n <= src@.len(),
    ensures
        r@ == src@.take(n as int) + dst@.skip(n as int),
{
    let mut out = vstd::slice::slice_to_vec(dst);
    let mut i: usize = 0;
    while i < n
        invariant
            n <= dst@.len(),
            n <= src@.len(),
            out@.len() == dst@.len(),
            i <= n,
            forall|k: int| 0 <= k < i ==> out@[k] == src@[k],
            forall|k: int| i <= k < dst@.len() ==> out@[k] == dst@[k],
        decreases n - i,
    {
        out.set(i, src[i]);
        i += 1;
    }
    assert(out@ =~= src@.take(n as int) + dst@.skip(n as int));
    out
}

/// The entry point written by the unpacked 2.1 image: the OEP the payload
/// names at the offset `offsets[2]`, as an RVA.
pub open spec fn v21_entry(pe: PeFile, payload: Seq<u8>, offsets: Seq<i32>) -> u32 {
    rva_of(pe, spec_payload_u32(payload, offsets[2] as u32) as u64) as u32
}

/// A run of the 2.1 steps on `pe0` that gets through step 5, with the
/// results of steps 2 to 5, and `r` what saving gave.
pub open spec fn run_21(
    pe0: PeFile,
    options: Options,
    d0: Dumps,
    h: Header,
    key: u32,
    r2: Result<Vec<u8>, Error>,
    d2: Dumps,
    r3: Result<Vec<u8>, Error>,
    d3: Dumps,
    r4: Result<Vec<i32>, Error>,
    pe5: PeFile,
    r5: Result<(), Error>,
    pe6: PeFile,
    r: Result<Vec<u8>, Error>,
) -> bool {
    &&& step1_result(pe0) == Ok::<(Header, u32), Failure>((h, key))
    &&& r2 is Ok && step2_outcome(pe0, options, h, key, d0, d2, r2)
    &&& r3 is Ok && step3_outcome(pe0, options, h, r2->Ok_0@, d2, d3, r3)
    &&& r4 is Ok && step4_result(r3->Ok_0@, options) == Ok::<Seq<i32>, Failure>(r4->Ok_0@)
    &&& r5 is Ok && step5_outcome(pe0, pe5, options, r2->Ok_0@, r4->Ok_0@, r5)
    &&& is_rebuilt(pe5, pe6, options.realign_sections)
    &&& saved_image(pe6, options, v21_entry(pe5, r2->Ok_0@, r4->Ok_0@), None, r)
}

/// The 2.1 steps fail before saving, with `e`, leaving `pe` and `d`.
pub open spec fn fails_21(
    pe0: PeFile,
    options: Options,
    d0: Dumps,
    h: Header,
    key: u32,
    r2: Result<Vec<u8>, Error>,
    d2: Dumps,
    r3: Result<Vec<u8>, Error>,
    d3: Dumps,
    r4: Result<Vec<i32>, Error>,
    pe: PeFile,
    d: Dumps,
    e: Error,
) -> bool {
    &&& step1_result(pe0) == Ok::<(Header, u32), Failure>((h, key))
    &&& step2_outcome(pe0, options, h, key, d0, d2, r2)
    &&& (r2 is Err ==> failure(r2->Err_0) == failure(e) && d == d2 && pe == pe0)
    &&& r2 is Ok ==> {
        &&& step3_outcome(pe0, options, h, r2->Ok_0@, d2, d3, r3)
        &&& d == d3
        &&& (r3 is Err ==> failure(r3->Err_0) == failure(e) && pe == pe0)
        &&& r3 is Ok ==> match step4_result(r3->Ok_0@, options) {
            Err(f) => f == failure(e) && pe == pe0,
            Ok(offs) => offs == r4->Ok_0@ && r4 is Ok && step5_outcome(
                pe0,
                pe,
                options,
                r2->Ok_0@,
                offs,
                Err(e),
            ),
        }
    }
}

/// What unpacking a 2.1 file does: the steps in order, stopping at the
/// first that fails; `pe` and `dumps` end as that step left them.
pub open spec fn unpack_21_outcome(pe0: PeFile, pe: PeFile, options: Options, d0: Dumps, d: Dumps, r: Result<Vec<u8>, Error>) -> bool {
    ||| r is Err && step1_result(pe0) == Err::<(Header, u32), Failure>(failure(r->Err_0)) && pe
        == pe0 && d == d0
    ||| r is Err && exists|h: Header, key: u32, r2: Result<Vec<u8>, Error>, d2: Dumps, r3: Result<Vec<u8>, Error>, d3: Dumps, r4: Result<Vec<i32>, Error>|
        #[trigger] fails_21(pe0, options, d0, h, key, r2, d2, r3, d3, r4, pe, d, r->Err_0)
    ||| exists|h: Header, key: u32, r2: Result<Vec<u8>, Error>, d2: Dumps, r3: Result<Vec<u8>, Error>, r4: Result<Vec<i32>, Error>, pe5: PeFile, r5: Result<(), Error>|
        #[trigger] run_21(pe0, options, d0, h, key, r2, d2, r3, d, r4, pe5, r5, pe, r)
}

impl Unpacker for Variant21 {
    open spec fn spec_can_process(&self, pe: PeFile) -> bool {
        (pe.file_header.machine != 0x8664 && spec_section_index(pe.sections@, ".bind"@) is Some
            && crate::variants::common::pattern_in_section(pe, ".bind"@, BIND_PATTERN@))
    }

    open spec fn spec_outcome(
        &self,
        pe0: PeFile,
        pe: PeFile,
        options: Options,
        d0: Dumps,
        d: Dumps,
        r: Result<Vec<u8>, Error>,
    ) -> bool {
        unpack_21_outcome(pe0, pe, options, d0, d, r)
    }

    open spec fn spec_name(&self) -> Seq<char> {
        "SteamStub Variant 2.1 Unpacker (x86)"@
    }

    fn name(&self) -> (r: &'static str)
        ensures
            r@ == "SteamStub Variant 2.1 Unpacker (x86)"@,
    {
        "SteamStub Variant 2.1 Unpacker (x86)"
    }

    fn can_process(&self, pe: &PeFile) -> (r: bool)
        ensures
            r == (pe.file_header.machine != 0x8664 && spec_section_index(pe.sections@, ".bind"@) is Some
                && crate::variants::common::pattern_in_section(*pe, ".bind"@, BIND_PATTERN@)),
    {
        proof {
            lemma_patterns_complete();
        }
        if pe.is_file_64() || !pe.has_section(".bind") {
            return false;
        }
        crate::variants::common::find_pattern_in_section(pe, ".bind", BIND_PATTERN).is_ok()
    }

    #[verifier::rlimit(60)]
    fn process(&self, pe: &mut PeFile, options: &Options, logger: &dyn Logger, dumps: &mut Dumps) -> (r: Result<Vec<u8>, Error>)
        ensures
            unpack_21_outcome(*old(pe), *final(pe), *options, *old(dumps), *final(dumps), r),
    {
        let ghost pe0 = *pe;
        let ghost d0 = *dumps;
        logger.log(Level::Info, "File is packed with SteamStub Variant 2.1!");

        logger.log(Level::Info, "Step 1 - Read, disassemble and decode the SteamStub DRM header.");
        let (header, xor_key) = match self.step1(pe) {
            Ok(v) => v,
            Err(e) => return Err(e),
        };

        logger.log(Level::Info, "Step 2 - Read, decode and process the payload data.");
        let r2 = self.step2(pe, options, &header, xor_key, logger, dumps);
        let ghost g2 = r2;
        let ghost d2 = *dumps;
        let payload = match r2 {
            Ok(p) => p,
            Err(e) => {
                assert(fails_21(pe0, *options, d0, header, xor_key, g2, d2, g2, d2, Err(Error::OutOfBounds), *pe, *dumps, e));
                return Err(e);
            },
        };

        logger.log(Level::Info, "Step 3 - Read, decode and dump the SteamDRMP.dll file.");
        let r3 = self.step3(pe, options, &header, payload.as_slice(), logger, dumps);
        let ghost g3 = r3;
        let ghost d3 = *dumps;
        let steam_drmp = match r3 {
            Ok(d) => d,
            Err(e) => {
                assert(fails_21(pe0, *options, d0, header, xor_key, g2, d2, g3, d3, Err(Error::OutOfBounds), *pe, *dumps, e));
                return Err(e);
            },
        };

        logger.log(Level::Info, "Step 4 - Scan, dump and pull needed offsets from within the SteamDRMP.dll file.");
        let r4 = self.step4(steam_drmp.as_slice(), options);
        let ghost g4 = r4;
        let offsets = match r4 {
            Ok(o) => o,
            Err(e) => {
                assert(fails_21(pe0, *options, d0, header, xor_key, g2, d2, g3, d3, g4, *pe, *dumps, e));
                return Err(e);
            },
        };

        logger.log(Level::Info, "Step 5 - Read, decrypt and process the main code section.");
        let r5 = self.step5(pe, options, payload.as_slice(), offsets.as_slice(), logger);
        let ghost g5 = r5;
        let ghost pe5 = *pe;
        match r5 {
            Ok(()) => {},
            Err(e) => {
                assert(fails_21(pe0, *options, d0, header, xor_key, g2, d2, g3, d3, g4, *pe, *dumps, e));
                return Err(e);
            },
        }

        logger.log(Level::Info, "Step 6 - Rebuild and save the unpacked file.");
        let oep_va = payload_u32(payload.as_slice(), #[verifier::truncate] (offsets[2] as u32));
        let entry_point = #[verifier::truncate] (pe.get_rva_from_va(oep_va as u64) as u32);
        let r = save(pe, options, entry_point);
        assert(run_21(pe0, *options, d0, header, xor_key, g2, d2, g3, d3, g4, pe5, g5, *pe, r));
        if r.is_ok() {
            logger.log(Level::Success, " --> Unpacked file saved to disk!");
        }
        r
    }
}

} // verus!
