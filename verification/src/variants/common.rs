//! Shared helpers used across the unpacker variants: bounded reads, section
//! pattern scans, `.bind` removal, image assembly and x86 decoding.

use vstd::prelude::*;

use iced_x86::{Decoder, DecoderOptions, Mnemonic};
use vstd::string::StringExecFns;

use crate::options::Options;
use crate::pattern::{self, pattern_parse_completes, search_outcome, spec_parse_pattern};
use crate::pe::checksum::{spec_checksum, spec_nt_headers_offset, update_checksum_in_buffer, with_checksum};
use crate::pe::image::{image_ok, spec_unpacked_image, zeros, SaveParameters};
use crate::pe::pe_file::{is_rebuilt, same_but_layout, spec_section_index};
use crate::pe::reader::{le_u16, le_u32};
use crate::pe::PeFile;
use crate::Error;

verus! {

/// The decoded data an unpacker hands back for dumping next to the input
/// file, when the options ask for it.
pub struct Dumps {
    /// The decoded SteamStub payload (`<file>.payload`).
    pub payload: Option<Vec<u8>>,
    /// The decrypted SteamDRMP.dll.
    pub drmp: Option<Vec<u8>>,
}

impl Dumps {
    /// No dumps yet.
    pub fn new() -> (r: Self)
        ensures
            r.payload is None,
            r.drmp is None,
    {
        Dumps { payload: None, drmp: None }
    }
}

/// `prefix`, then `name`, then `suffix`.
pub fn message(prefix: &str, name: &str, suffix: &str) -> (r: String)
    ensures
        r@ == prefix@ + name@ + suffix@,
{
    let mut m = String::from_str(prefix);
    m.append(name);
    m.append(suffix);
    m
}

/// The decimal digits of `v`, most significant first.
pub open spec fn decimal_digits(v: nat) -> Seq<char>
    decreases v,
{
    let d = ((v % 10) + 0x30) as char;
    if v < 10 {
        seq![d]
    } else {
        decimal_digits(v / 10).push(d)
    }
}

/// The decimal text of `v`.
pub fn decimal(v: u64) -> (r: String)
    ensures
        r@ == decimal_digits(v as nat),
{
    // Collect the digits least significant first.
    let mut rev: Vec<char> = Vec::new();
    let mut n = v;
    let ghost mut tail: Seq<char> = Seq::empty();
    loop
        invariant_except_break
            n <= v,
            decimal_digits(v as nat) == decimal_digits(n as nat) + tail,
        invariant
            rev@.len() == tail.len(),
            forall|k: int| 0 <= k < tail.len() ==> rev@[k] == tail[tail.len() - 1 - k],
        ensures
            decimal_digits(v as nat) == tail,
        decreases n,
    {
        let d = ((n % 10) as u8 + 0x30) as char;
        assert(d == ((n as nat % 10) + 0x30) as char);
        rev.push(d);
        proof {
            tail = seq![d] + tail;
            assert(rev@.len() == tail.len());
            assert forall|k: int| 0 <= k < tail.len() implies rev@[k] == tail[tail.len() - 1 - k] by {
                if k < rev@.len() - 1 {
                    assert(tail[tail.len() - 1 - k] == (seq![d] + tail.drop_first())[tail.len() - 1 - k]);
                }
            }
        }
        if n < 10 {
            assert(decimal_digits(v as nat) =~= tail);
            break;
        }
        assert(decimal_digits(n as nat) == decimal_digits((n / 10) as nat).push(d));
        assert(decimal_digits(n as nat) + tail.drop_first() =~= decimal_digits((n / 10) as nat) + tail);
        n = n / 10;
    }
    let mut out = String::new();
    let mut i = rev.len();
    let ghost full = decimal_digits(v as nat);
    while i > 0
        invariant
            i <= rev@.len(),
            rev@.len() == full.len(),
            forall|k: int| 0 <= k < full.len() ==> rev@[k] == full[full.len() - 1 - k],
            out@ == full.take(full.len() - i),
        decreases i,
    {
        i -= 1;
        crate::push_char(&mut out, rev[i]);
        assert(out@ =~= full.take(full.len() - i));
    }
    assert(full.take(full.len() as int) =~= full);
    out
}

/// The `NoEncryption` DRM flag shared by the 2.x and 3.x variants.
pub const DRM_FLAG_NO_ENCRYPTION: u32 = 0x04;

/// The operand kind numbers of the decoder (`iced_x86::OpKind as u8`) that
/// the variants look at.
pub const OP_REGISTER: u8 = 0;
pub const OP_IMMEDIATE8: u8 = 6;
pub const OP_IMMEDIATE16: u8 = 8;
pub const OP_IMMEDIATE32: u8 = 9;
pub const OP_IMMEDIATE32TO64: u8 = 14;
pub const OP_MEMORY: u8 = 24;

/// The mnemonics the variants look at.
#[derive(Clone, Copy, Debug, PartialEq, Eq, Structural)]
pub enum InsnKind {
    Mov,
    Lea,
    Add,
    Other,
}

/// A decoded x86 instruction, reduced to what the variants read of it.
#[derive(Clone, Copy, Debug)]
pub struct Insn {
    pub mnemonic: InsnKind,
    pub op_count: u32,
    /// Kind of operand 0 (`OpKind as u8`).
    pub op0: u8,
    /// Kind of operand 1 (`OpKind as u8`).
    pub op1: u8,
    /// The immediate value of operand 1, zero when it is not an immediate.
    pub imm1: u64,
    /// The memory displacement of the instruction.
    pub displacement: u64,
}

/// The instructions that decoding `code` as 32-bit x86 at `ip` yields.
pub uninterp spec fn x86_decode(code: Seq<u8>, ip: u64) -> Seq<Insn>;

/// Decodes `code` as 32-bit x86 instructions rooted at `ip` with
/// `iced_x86::Decoder` (until the decoder can decode no more).
///
/// The result is the named decoding of the arguments; nothing more of it is
/// stated.
#[verifier::external_body]
fn decode_x86(code: &[u8], ip: u64) -> (r: Vec<Insn>)
    ensures
        r@ == x86_decode(code@, ip),
{
    let mut decoder = Decoder::with_ip(32, code, ip, DecoderOptions::NONE);
    let mut out = Vec::new();
    for i in &mut decoder {
        let mnemonic = match i.mnemonic() {
            Mnemonic::Mov => InsnKind::Mov,
            Mnemonic::Lea => InsnKind::Lea,
            Mnemonic::Add => InsnKind::Add,
            _ => InsnKind::Other,
        };
        let (op0, op1, op_count) = (i.op_kind(0) as u8, i.op_kind(1) as u8, i.op_count());
        let (imm1, displacement) = (i.try_immediate(1).unwrap_or(0), i.memory_displacement64());
        out.push(Insn { mnemonic, op_count, op0, op1, imm1, displacement });
    }
    out
}

/// The end of the window `decode_block` decodes.
pub open spec fn block_end(len: int, start: usize, max_len: usize) -> int {
    let e = if start + max_len > usize::MAX {
        usize::MAX as int
    } else {
        start + max_len
    };
    if e < len {
        e
    } else {
        len
    }
}

/// The instructions of up to `max_len` bytes of `data` from `start`.
pub open spec fn spec_decode_block(data: Seq<u8>, start: usize, max_len: usize, ip: u64) -> Seq<
    Insn,
> {
    let end = block_end(data.len() as int, start, max_len);
    if start >= end {
        Seq::empty()
    } else {
        x86_decode(data.subrange(start as int, end), ip)
    }
}

/// Decodes up to `max_len` bytes of code starting at `start` (raw file
/// offset) as 32-bit x86 instructions, rooted at `ip`.
pub fn decode_block(data: &[u8], start: usize, max_len: usize, ip: u64) -> (r: Vec<Insn>)
    ensures
        r@ == spec_decode_block(data@, start, max_len, ip),
{
    let e = start.saturating_add(max_len);
    let end = if e < data.len() {
        e
    } else {
        data.len()
    };
    if start >= end {
        return Vec::new();
    }
    decode_x86(vstd::slice::slice_subrange(data, start, end), ip)
}

/// Whether an operand kind is one of the immediate kinds.
pub open spec fn spec_is_immediate(kind: u8) -> bool {
    OP_IMMEDIATE8 <= kind <= OP_IMMEDIATE32TO64
}

/// The immediate value of operand 1, when the instruction has one.
pub open spec fn spec_op1_immediate(i: Insn) -> Option<u64> {
    if i.op_count > 1 && spec_is_immediate(i.op1) {
        Some(i.imm1)
    } else {
        None
    }
}

/// Returns the immediate value of operand 1, if it is an immediate operand.
pub fn op1_immediate(instr: &Insn) -> (r: Option<u64>)
    ensures
        r == spec_op1_immediate(*instr),
{
    if instr.op_count > 1 && matches_op_imm(instr.op1) {
        Some(instr.imm1)
    } else {
        None
    }
}

fn matches_op_imm(kind: u8) -> (r: bool)
    ensures
        r == spec_is_immediate(kind),
{
    OP_IMMEDIATE8 <= kind && kind <= OP_IMMEDIATE32TO64
}

/// `mov reg, imm`: the immediate value.
pub open spec fn spec_mov_reg_imm(i: Insn) -> Option<u64> {
    if i.mnemonic == InsnKind::Mov && i.op0 == OP_REGISTER {
        spec_op1_immediate(i)
    } else {
        None
    }
}

/// `mov [mem], imm`: the immediate value.
pub open spec fn spec_mov_mem_imm(i: Insn) -> Option<u64> {
    if i.mnemonic == InsnKind::Mov && i.op0 == OP_MEMORY {
        spec_op1_immediate(i)
    } else {
        None
    }
}

/// Matches `mov reg, imm` and returns the immediate value.
pub fn is_mov_reg_imm(instr: &Insn) -> (r: Option<u64>)
    ensures
        r == spec_mov_reg_imm(*instr),
{
    if instr.mnemonic != InsnKind::Mov || instr.op0 != OP_REGISTER {
        return None;
    }
    op1_immediate(instr)
}

/// Matches `mov [mem], imm` and returns the immediate value.
pub fn is_mov_mem_imm(instr: &Insn) -> (r: Option<u64>)
    ensures
        r == spec_mov_mem_imm(*instr),
{
    if instr.mnemonic != InsnKind::Mov || instr.op0 != OP_MEMORY {
        return None;
    }
    op1_immediate(instr)
}

/// The `size` bytes of `data` at `file_offset`, when they lie inside it.
pub open spec fn spec_read_range(data: Seq<u8>, file_offset: u64, size: usize) -> Option<Seq<u8>> {
    let start = (file_offset as usize) as int;
    if start + size <= usize::MAX && start + size <= data.len() {
        Some(data.subrange(start, start + size))
    } else {
        None
    }
}

/// Reads `size` bytes from the file at the given raw offset.
pub fn read_range(pe: &PeFile, file_offset: u64, size: usize) -> (r: Result<Vec<u8>, Error>)
    ensures
        match spec_read_range(pe.data@, file_offset, size) {
            Some(v) => r matches Ok(x) && x@ == v,
            None => r matches Err(Error::OutOfBounds),
        },
{
    let start = file_offset as usize;
    let end = match start.checked_add(size) {
        Some(e) => e,
        None => return Err(Error::OutOfBounds),
    };
    if end > pe.data.len() {
        return Err(Error::OutOfBounds);
    }
    Ok(vstd::slice::slice_to_vec(vstd::slice::slice_subrange(pe.data.as_slice(), start, end)))
}

/// The outcome of searching the data of the first section named `section`
/// for `pat`: `r` is the search result, or the section is missing.
pub open spec fn section_search(pe: PeFile, section: Seq<char>, pat: Seq<char>, r: Result<usize, Error>) -> bool {
    match spec_section_index(pe.sections@, section) {
        Some(i) if i < pe.section_data@.len() => match spec_parse_pattern(pat) {
            Err(m) => r matches Err(Error::Unpack(s)) && s@ == m,
            Ok(p) => search_outcome(pe.section_data@[i]@, p, r),
        },
        _ => r matches Err(Error::Unpack(s)) && s@ == "."@ + section + " section missing"@,
    }
}

/// Whether the first section named `section` holds `pat`.
pub open spec fn pattern_in_section(pe: PeFile, section: Seq<char>, pat: Seq<char>) -> bool {
    match spec_section_index(pe.sections@, section) {
        Some(i) if i < pe.section_data@.len() => pattern::pattern_offset(pe.section_data@[i]@, pat) is Some,
        _ => false,
    }
}

/// Searches for `pat` inside the given section's raw data.
pub fn find_pattern_in_section(pe: &PeFile, section: &str, pat: &str) -> (r: Result<usize, Error>)
    requires
        pattern_parse_completes(pat@),
    ensures
        section_search(*pe, section@, pat@, r),
        r is Ok == pattern_in_section(*pe, section@, pat@),
{
    match pe.get_section_data_by_name(section) {
        Some(data) => pattern::find_pattern(data, pat),
        None => {
            let mut msg = ".".to_owned();
            msg.append(section);
            msg.append(" section missing");
            Err(Error::Unpack(msg))
        },
    }
}

/// What `remove_bind_section` does: `Ok(true)` when it removed the first
/// `.bind` section, `Ok(false)` when the options keep it, an error naming
/// why it could not.
pub open spec fn bind_removal(a: PeFile, b: PeFile, keep: bool, r: Result<bool, Error>) -> bool {
    if keep {
        r matches Ok(false) && b == a
    } else {
        match spec_section_index(a.sections@, ".bind"@) {
            None => r matches Err(Error::Unpack(m)) && m@ == ".bind section not found"@ && b == a,
            Some(i) => if !(a.sections@[i].size_of_raw_data != 0
                && a.sections@[i].pointer_to_raw_data != 0) {
                r matches Err(Error::Unpack(m)) && m@ == ".bind section is invalid"@ && b == a
            } else {
                &&& r matches Ok(true)
                &&& b.sections@ == a.sections@.remove(i)
                &&& b.section_data@ == a.section_data@.remove(i)
                &&& b.optional == a.optional
                &&& b.file_header == (crate::pe::FileHeader {
                    number_of_sections: if a.file_header.number_of_sections > 0 {
                        (a.file_header.number_of_sections - 1) as u16
                    } else {
                        0
                    },
                    ..a.file_header
                })
                &&& same_but_layout(
                    a,
                    PeFile { file_header: a.file_header, ..b },
                )
            },
        }
    }
}

/// A `.bind` handling step's result as `remove_bind_section` reports it.
pub open spec fn removal_result(r: Result<(), Error>, keep: bool) -> Result<bool, Error> {
    match r {
        Ok(_) => Ok(!keep),
        Err(e) => Err(e),
    }
}

/// Removes the `.bind` section unless the options keep it, logging which.
pub fn handle_bind_section(pe: &mut PeFile, options: &Options, logger: &dyn crate::logger::Logger) -> (r: Result<(), Error>)
    requires
        old(pe).wf(),
    ensures
        final(pe).wf(),
        bind_removal(*old(pe), *final(pe), options.keep_bind_section, removal_result(r, options.keep_bind_section)),
{
    match remove_bind_section(pe, options) {
        Ok(true) => {
            logger.log(crate::logger::Level::Debug, " --> .bind section was removed from the file.");
            Ok(())
        },
        Ok(false) => {
            logger.log(crate::logger::Level::Debug, " --> .bind section was kept in the file.");
            Ok(())
        },
        Err(e) => Err(e),
    }
}

/// Removes the `.bind` section (unless it should be kept) and updates the
/// section count.
pub fn remove_bind_section(pe: &mut PeFile, options: &Options) -> (r: Result<bool, Error>)
    requires
        old(pe).wf(),
    ensures
        final(pe).wf(),
        bind_removal(*old(pe), *final(pe), options.keep_bind_section, r),
{
    if options.keep_bind_section {
        return Ok(false);
    }
    let index = match pe.get_section_index(".bind") {
        Some(i) => i,
        None => return Err(Error::Unpack(".bind section not found".to_owned())),
    };
    if !pe.sections[index].is_valid() {
        return Err(Error::Unpack(".bind section is invalid".to_owned()));
    }
    pe.remove_section(index);
    pe.file_header.number_of_sections = pe.file_header.number_of_sections.saturating_sub(1);
    Ok(true)
}

/// `n` zero bytes.
fn zeroed(n: usize) -> (r: Vec<u8>)
    ensures
        r@ == zeros(n as int),
{
    let mut v: Vec<u8> = Vec::new();
    while v.len() < n
        invariant
            v@.len() <= n,
            v@ == zeros(v@.len() as int),
        decreases n - v@.len(),
    {
        v.push(0);
        assert(v@ =~= zeros(v@.len() as int));
    }
    v
}

/// The DOS stub of the unpacked image: zeroed when the options ask for it.
pub open spec fn saved_stub(pe: PeFile, options: Options) -> Seq<u8> {
    if options.zero_dos_stub_data && pe.dos_stub_size > 0 {
        zeros(pe.dos_stub_size as int)
    } else {
        pe.dos_stub@
    }
}

/// Whether the checksum of `img` can be recomputed in place.
pub open spec fn checksum_fits(img: Seq<u8>) -> bool {
    &&& (img.len() >= 0x40 && img[0] == 0x4d && img[1] == 0x5a ==> le_u32(img, 0x3c) + 2 <= usize::MAX)
    &&& (spec_nt_headers_offset(img) matches Some(e) ==> e + 24 + 64 + 4 <= img.len())
}

/// `img` with its checksum recomputed, when it is a PE image.
pub open spec fn with_new_checksum(img: Seq<u8>) -> Option<Seq<u8>> {
    match spec_nt_headers_offset(img) {
        Some(e) => Some(with_checksum(img, e + 24 + 64, spec_checksum(img, e + 24 + 64) as u32)),
        None => None,
    }
}

/// The outcome of saving `pe` (already rebuilt) with `options`.
pub open spec fn saved_image(
    pe: PeFile,
    options: Options,
    entry_point: u32,
    code: Option<(usize, Seq<u8>)>,
    r: Result<Vec<u8>, Error>,
) -> bool {
    let stub = saved_stub(pe, options);
    let img = spec_unpacked_image(pe, stub, entry_point, 0, code);
    if !image_ok(pe, stub, code) {
        r matches Err(Error::OutOfBounds)
    } else if !options.recalculate_file_checksum {
        r matches Ok(v) && v@ == img
    } else if !checksum_fits(img) {
        r matches Err(Error::OutOfBounds)
    } else {
        match with_new_checksum(img) {
            Some(s) => r matches Ok(v) && v@ == s,
            None => r matches Err(Error::Io(_)),
        }
    }
}

/// The error for an image whose checksum cannot be located.
#[verifier::external_body]
fn not_a_pe_image() -> std::io::Error {
    std::io::Error::new(std::io::ErrorKind::InvalidData, "not a PE image")
}

/// Rebuilds the sections and lays out the unpacked image.
pub fn save(pe: &mut PeFile, options: &Options, entry_point: u32) -> (r: Result<Vec<u8>, Error>)
    requires
        old(pe).wf(),
    ensures
        final(pe).wf(),
        is_rebuilt(*old(pe), *final(pe), options.realign_sections),
        saved_image(*final(pe), *options, entry_point, None, r),
{
    save_full(pe, options, entry_point, None)
}

/// Like [`save`], but additionally overrides the raw data written for a
/// single code section.
pub fn save_full(
    pe: &mut PeFile,
    options: &Options,
    entry_point: u32,
    code_section: Option<(usize, &[u8])>,
) -> (r: Result<Vec<u8>, Error>)
    requires
        old(pe).wf(),
    ensures
        final(pe).wf(),
        is_rebuilt(*old(pe), *final(pe), options.realign_sections),
        saved_image(
            *final(pe),
            *options,
            entry_point,
            match code_section {
                Some((i, d)) => Some((i, d@)),
                None => None,
            },
            r,
        ),
{
    pe.rebuild_sections(options.realign_sections);

    let dos_stub = if options.zero_dos_stub_data && pe.dos_stub_size > 0 {
        Some(zeroed(pe.dos_stub_size))
    } else {
        None
    };
    let params = SaveParameters {
        dos_stub: match &dos_stub {
            Some(v) => Some(v.as_slice()),
            None => None,
        },
        address_of_entry_point: entry_point,
        checksum: 0,
        code_section,
    };
    if !image_checks(pe, &params) {
        return Err(Error::OutOfBounds);
    }
    let mut image = pe.unpacked_image(&params);

    if options.recalculate_file_checksum {
        if !checksum_checks(image.as_slice()) {
            return Err(Error::OutOfBounds);
        }
        match update_checksum_in_buffer(image.as_mut_slice()) {
            Some(_) => {},
            None => return Err(Error::Io(not_a_pe_image())),
        }
    }
    Ok(image)
}

/// Whether the image of `pe` with `params` can be laid out.
fn image_checks(pe: &PeFile, params: &SaveParameters) -> (r: bool)
    requires
        pe.wf(),
    ensures
        r == image_ok(
            *pe,
            crate::pe::image::stub_bytes(*pe, *params),
            crate::pe::image::code_bytes(*params),
        ),
{
    let ghost stub = crate::pe::image::stub_bytes(*pe, *params);
    let ghost code = crate::pe::image::code_bytes(*params);
    let overlay: usize = match &pe.overlay {
        Some(o) => o.len(),
        None => 0,
    };
    let room = usize::MAX - overlay;
    if pe.data.len() < 64 {
        return false;
    }
    let table = pe.nt_headers_offset as u128 + 24 + pe.file_header.size_of_optional_header as u128;
    if table > pe.data.len() as u128 {
        return false;
    }
    let stub_len: usize = match params.dos_stub {
        Some(s) => s.len(),
        None => pe.dos_stub.len(),
    };
    if stub_len > room || 64 > room - stub_len {
        return false;
    }
    if table + 40 * (pe.sections.len() as u128) > room as u128 {
        return false;
    }
    let mut i: usize = 0;
    while i < pe.sections.len()
        invariant
            pe.wf(),
            i <= pe.sections@.len(),
            room == usize::MAX - crate::pe::image::overlay_len(*pe),
            stub == crate::pe::image::stub_bytes(*pe, *params),
            code == crate::pe::image::code_bytes(*params),
            forall|k: int|
                0 <= k < i ==> pe.sections@[k].pointer_to_raw_data + (
                #[trigger] crate::pe::image::section_bytes(*pe, code, k)).len() <= room,
        decreases pe.sections@.len() - i,
    {
        let len: usize = match params.code_section {
            Some((idx, d)) => if idx == i {
                d.len()
            } else {
                pe.section_data[i].len()
            },
            None => pe.section_data[i].len(),
        };
        assert(len == crate::pe::image::section_bytes(*pe, code, i as int).len());
        if pe.sections[i].pointer_to_raw_data as u128 + len as u128 > room as u128 {
            return false;
        }
        i += 1;
    }
    true
}

/// Whether the checksum of `img` can be recomputed in place.
fn checksum_checks(img: &[u8]) -> (r: bool)
    ensures
        r == checksum_fits(img@),
{
    if img.len() >= 0x40 && img[0] == 0x4d && img[1] == 0x5a {
        let e = crate::pe::reader::read_u32_at(img, 0x3c) as u128;
        if e + 2 > usize::MAX as u128 {
            return false;
        }
        if e + 2 <= img.len() as u128 && img[e as usize] == 0x50 && img[e as usize + 1] == 0x45 {
            return e + 24 + 64 + 4 <= img.len() as u128;
        }
    }
    true
}

/// The checksum rewrite of `img` leaves the bytes from `lo` to `hi` alone.
pub open spec fn checksum_clear_of(img: Seq<u8>, lo: int, hi: int) -> bool {
    spec_nt_headers_offset(img) matches Some(e) ==> (e + 88 >= hi || e + 92 <= lo)
}

/// Writing the checksum field keeps every byte outside it.
proof fn lemma_checksum_keeps(img: Seq<u8>, e: int, sum: u32, lo: int, hi: int)
    requires
        0 <= e,
        e + 92 <= img.len(),
        0 <= lo <= hi <= img.len(),
        e + 88 >= hi || e + 92 <= lo,
    ensures
        with_checksum(img, e + 88, sum).len() == img.len(),
        forall|i: int| lo <= i < hi ==> #[trigger] with_checksum(img, e + 88, sum)[i] == img[i],
{
    let bytes = crate::pe::reader::le_bytes_u32(sum);
    assert(bytes.len() == 4);
    let out = with_checksum(img, e + 88, sum);
    assert(out == img.take(e + 88) + bytes + img.skip(e + 92));
    assert forall|i: int| lo <= i < hi implies #[trigger] out[i] == img[i] by {
        if i < e + 88 {
            assert(out[i] == img.take(e + 88)[i]);
        } else {
            assert(out[i] == img.skip(e + 92)[i - (e + 92)]);
        }
    }
}

/// A saved image carries the entry point and section count it was given,
/// as long as neither the section table, the section data nor the checksum
/// rewrite overlaps those fields of the NT headers.
pub proof fn lemma_saved_header_fields(
    pe: PeFile,
    options: Options,
    entry: u32,
    code: Option<(usize, Seq<u8>)>,
    r: Result<Vec<u8>, Error>,
)
    requires
        saved_image(pe, options, entry, code, r),
        r is Ok,
        pe.nt_headers_offset + 92 <= crate::pe::image::table_start(pe),
        crate::pe::image::data_clear_of(pe, code, pe.nt_headers_offset as int, pe.nt_headers_offset + 92),
        options.recalculate_file_checksum ==> {
            let img = spec_unpacked_image(pe, saved_stub(pe, options), entry, 0, code);
            &&& checksum_clear_of(img, pe.nt_headers_offset + 6, pe.nt_headers_offset + 8)
            &&& checksum_clear_of(img, pe.nt_headers_offset + 40, pe.nt_headers_offset + 44)
        },
    ensures
        le_u32(r->Ok_0@, pe.nt_headers_offset + 40) == entry,
        le_u16(r->Ok_0@, pe.nt_headers_offset + 6) == pe.file_header.number_of_sections,
{
    let nt = pe.nt_headers_offset as int;
    let stub = saved_stub(pe, options);
    let img = spec_unpacked_image(pe, stub, entry, 0, code);
    crate::pe::image::lemma_image_header_fields(pe, stub, entry, 0, code);
    if options.recalculate_file_checksum {
        let e = spec_nt_headers_offset(img)->Some_0;
        let sum = spec_checksum(img, e + 24 + 64) as u32;
        lemma_checksum_keeps(img, e, sum, nt + 6, nt + 8);
        lemma_checksum_keeps(img, e, sum, nt + 40, nt + 44);
        let out = with_checksum(img, e + 88, sum);
        assert(out[nt + 40] == img[nt + 40] && out[nt + 41] == img[nt + 41]);
        assert(out[nt + 42] == img[nt + 42] && out[nt + 43] == img[nt + 43]);
        assert(out[nt + 6] == img[nt + 6] && out[nt + 7] == img[nt + 7]);
    }
}

} // verus!
