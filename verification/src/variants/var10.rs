//! SteamStub DRM Variant 1.0 (x86) unpacker.

use vstd::prelude::*;

use crate::logger::{Level, Logger};
use crate::options::Options;
use crate::pattern::{
    find_pattern, lemma_ascii_pattern_completes, lemma_offset_in_data, pattern_offset,
    pattern_parse_completes,
};
use crate::pe::pe_file::{is_rebuilt, spec_file_offset, spec_section_index};
use crate::pe::reader::{in_bounds, le_u32, Buf};
use crate::pe::PeFile;
use crate::variants::common::{
    bind_removal, find_pattern_in_section, handle_bind_section, pattern_in_section, read_range, removal_result,
    save, saved_image, spec_read_range, Dumps,
};
use crate::variants::var_3x::not_found;
use crate::variants::Unpacker;
use crate::{failure, Error, Failure};

verus! {

/// SteamStub Variant 1.0 unpacker (x86).
pub struct Variant10;

/// Signature found at the start of the v1.x bind unpacker function.
pub const BIND_START_PATTERN: &'static str = "60 81 EC 00 10 00 00 BE ?? ?? ?? ?? B9 6A";
/// Signature near the end of the v1.x bind unpacker function (the OEP jump).
pub const OEP_PATTERN: &'static str = "61 B8 ?? ?? ?? ?? FF E0";

/// The 1.0 patterns parse to completion.
pub proof fn lemma_patterns_complete()
    ensures
        pattern_parse_completes(BIND_START_PATTERN@),
        pattern_parse_completes(OEP_PATTERN@),
{
    reveal_strlit("60 81 EC 00 10 00 00 BE ?? ?? ?? ?? B9 6A");
    reveal_strlit("61 B8 ?? ?? ?? ?? FF E0");
    lemma_ascii_pattern_completes(BIND_START_PATTERN@);
    lemma_ascii_pattern_completes(OEP_PATTERN@);
}

/// `raw` with byte `x` XORed with the low byte of `x * x`.
pub open spec fn square_xor(raw: Seq<u8>) -> Seq<u8> {
    Seq::new(raw.len(), |x: int| raw[x] ^ ((x * x) % 0x100) as u8)
}

/// The little-endian dword at `off`, when it lies inside `d`.
pub open spec fn dword_at(d: Seq<u8>, off: int) -> Option<u32> {
    if in_bounds(d.len() as int, off, 4) {
        Some(le_u32(d, off))
    } else {
        None
    }
}

/// What step 1 gives for `pe`: the original entry point.
pub open spec fn step1_result(pe: PeFile) -> Result<u32, Failure> {
    match spec_section_index(pe.sections@, ".bind"@) {
        None => Err(Failure::Unpack(".bind section not found"@)),
        Some(i) => if !(pe.sections@[i].size_of_raw_data != 0
            && pe.sections@[i].pointer_to_raw_data != 0) {
            Err(Failure::Unpack(".bind section is invalid"@))
        } else if i >= pe.section_data@.len() {
            Err(Failure::Unpack(".bind section data missing"@))
        } else {
            let bind = pe.section_data@[i]@;
            let base = pe.optional.image_base;
            match pattern_offset(bind, BIND_START_PATTERN@) {
                None => Err(not_found(BIND_START_PATTERN@)),
                Some(o) => match (dword_at(bind, o + 8), dword_at(bind, o + 13)) {
                    (Some(ptr), Some(count)) => {
                        let size = count as int * 4;
                        let fo = spec_file_offset(pe.sections@, (ptr as u64).wrapping_sub(base));
                        if size > usize::MAX {
                            Err(Failure::OutOfBounds)
                        } else {
                            match spec_read_range(pe.data@, fo, size as usize) {
                                None => Err(Failure::OutOfBounds),
                                Some(raw) => match dword_at(square_xor(raw), 8) {
                                    None => Err(Failure::OutOfBounds),
                                    Some(bind_function) => if (bind_function as u64).wrapping_sub(
                                        base,
                                    ) != pe.optional.address_of_entry_point as u64 {
                                        Err(
                                            Failure::Unpack(
                                                "header does not match the file entry point"@,
                                            ),
                                        )
                                    } else {
                                        match pattern_offset(bind, OEP_PATTERN@) {
                                            None => Err(not_found(OEP_PATTERN@)),
                                            Some(o2) => match dword_at(bind, o2 + 2) {
                                                None => Err(Failure::OutOfBounds),
                                                Some(v) => Ok(v.wrapping_sub(base as u32)),
                                            },
                                        }
                                    },
                                },
                            }
                        }
                    },
                    _ => Err(Failure::OutOfBounds),
                },
            }
        }
    }
}

/// Reads the dword `add` bytes past `o`, when it lies inside `d`.
fn dword_after(d: &[u8], o: usize, add: usize) -> (r: Option<u32>)
    ensures
        r == dword_at(d@, o + add),
{
    let n = d.len();
    match o.checked_add(add) {
        Some(off) => d.rd_u32(off),
        None => None,
    }
}

/// The first offset of `pat` in `b`, or the error `find_pattern` gives.
fn find(b: &[u8], pat: &str) -> (r: Result<usize, Error>)
    requires
        pattern_parse_completes(pat@),
    ensures
        match pattern_offset(b@, pat@) {
            Some(x) => r matches Ok(y) && y == x && x < b@.len(),
            None => r matches Err(e) && failure(e) == not_found(pat@),
        },
{
    let r = find_pattern(b, pat);
    proof {
        lemma_offset_in_data(b@, pat@);
    }
    r
}

impl Variant10 {
/// Step 1: read, decode and validate the SteamStub DRM header, and find the
/// original entry point.
#[verifier::rlimit(40)]
pub fn step1(&self, pe: &PeFile) -> (r: Result<u32, Error>)
    ensures
        crate::outcome(r) == step1_result(*pe),
{
    proof {
        lemma_patterns_complete();
    }
    let index = match pe.get_section_index(".bind") {
        Some(i) => i,
        None => return Err(Error::Unpack(".bind section not found".to_owned())),
    };
    if !pe.sections[index].is_valid() {
        return Err(Error::Unpack(".bind section is invalid".to_owned()));
    }
    let bind_data = match pe.get_section_data(index) {
        Some(d) => d,
        None => return Err(Error::Unpack(".bind section data missing".to_owned())),
    };

    // Find the header information from the unpacker call.
    let offset = match find(bind_data, BIND_START_PATTERN) {
        Ok(o) => o,
        Err(e) => return Err(e),
    };
    let header_pointer = dword_after(bind_data, offset, 8);
    let count = dword_after(bind_data, offset, 13);
    let (header_pointer, count) = match (header_pointer, count) {
        (Some(p), Some(c)) => (p, c),
        _ => return Err(Error::OutOfBounds),
    };
    let header_size = match (count as usize).checked_mul(4) {
        Some(s) => s,
        None => return Err(Error::OutOfBounds),
    };

    // Calculate the file offset from the pointer.
    let file_offset = pe.get_file_offset_from_rva(
        (header_pointer as u64).wrapping_sub(pe.optional.image_base),
    );

    // Read and decrypt the header data.
    let raw = match read_range(pe, file_offset, header_size) {
        Ok(d) => d,
        Err(e) => return Err(e),
    };
    let mut header_data = raw;
    let ghost orig = header_data@;
    let mut x: usize = 0;
    while x < header_data.len()
        invariant
            header_data@.len() == orig.len(),
            x <= orig.len(),
            forall|k: int| 0 <= k < x ==> header_data@[k] == orig[k] ^ ((k * k) % 0x100) as u8,
            forall|k: int| x <= k < orig.len() ==> header_data@[k] == orig[k],
        decreases orig.len() - x,
    {
        let sq = x.wrapping_mul(x);
        assert(sq % 0x100 == (x * x) % 0x100) by (nonlinear_arith)
            requires
                sq == (x * x) % (usize::MAX as int + 1),
                usize::MAX as int + 1 == 0x1_0000_0000 || usize::MAX as int + 1 == 0x1_0000_0000_0000_0000,
        ;
        let b = header_data[x] ^ ((sq % 0x100) as u8);
        header_data.set(x, b);
        x += 1;
    }
    assert(header_data@ =~= square_xor(orig));

    // Validate the header via the unpacker function matching the file entry point.
    let bind_function = match header_data.as_slice().rd_u32(8) {
        Some(v) => v,
        None => return Err(Error::OutOfBounds),
    };
    if (bind_function as u64).wrapping_sub(pe.optional.image_base)
        != pe.optional.address_of_entry_point as u64 {
        return Err(Error::Unpack("header does not match the file entry point".to_owned()));
    }

    // Find the OEP from the unpacker function.
    let offset = match find(bind_data, OEP_PATTERN) {
        Ok(o) => o,
        Err(e) => return Err(e),
    };
    let oep = match dword_after(bind_data, offset, 2) {
        Some(v) => v,
        None => return Err(Error::OutOfBounds),
    };
    Ok(oep.wrapping_sub(#[verifier::truncate] (pe.optional.image_base as u32)))
}
}

impl Variant10 {
    /// Step 2: remove the .bind section if requested.
    pub fn step2(&self, pe: &mut PeFile, options: &Options, logger: &dyn Logger) -> (r: Result<(), Error>)
        requires
            old(pe).wf(),
        ensures
            final(pe).wf(),
            bind_removal(*old(pe), *final(pe), options.keep_bind_section, removal_result(r, options.keep_bind_section)),
    {
        handle_bind_section(pe, options, logger)
    }
}

/// A run of the 1.0 steps on `pe0`: the original entry point, the file
/// after `.bind` handling, and `r` what saving gave.
pub open spec fn run_10(pe0: PeFile, options: Options, oep: u32, pe2: PeFile, pe: PeFile, r: Result<Vec<u8>, Error>) -> bool {
    &&& step1_result(pe0) == Ok::<u32, Failure>(oep)
    &&& bind_removal(pe0, pe2, options.keep_bind_section, Ok(!options.keep_bind_section))
    &&& is_rebuilt(pe2, pe, options.realign_sections)
    &&& saved_image(pe, options, oep, None, r)
}

/// What unpacking a 1.0 file does: the steps in order, stopping at the
/// first that fails; `pe` ends as that step left it.
pub open spec fn unpack_10_outcome(pe0: PeFile, pe: PeFile, options: Options, r: Result<Vec<u8>, Error>) -> bool {
    ||| r is Err && step1_result(pe0) == Err::<u32, Failure>(failure(r->Err_0)) && pe == pe0
    ||| r is Err && step1_result(pe0) is Ok && bind_removal(
        pe0,
        pe,
        options.keep_bind_section,
        Err(r->Err_0),
    )
    ||| exists|oep: u32, pe2: PeFile| #[trigger] run_10(pe0, options, oep, pe2, pe, r)
}

impl Unpacker for Variant10 {
    open spec fn spec_can_process(&self, pe: PeFile) -> bool {
        (pe.file_header.machine != 0x8664 && spec_section_index(pe.sections@, ".bind"@) is Some
            && pattern_in_section(pe, ".bind"@, BIND_START_PATTERN@))
    }

    open spec fn spec_outcome(
        &self,
        pe0: PeFile,
        pe: PeFile,
        options: Options,
        d0: Dumps,
        d: Dumps,
        r: Result<Vec<u8>, Error>,
    ) -> bool {
        unpack_10_outcome(pe0, pe, options, r) && d == d0
    }

    open spec fn spec_name(&self) -> Seq<char> {
        "SteamStub Variant 1.0 Unpacker (x86)"@
    }

    fn name(&self) -> (r: &'static str)
        ensures
            r@ == "SteamStub Variant 1.0 Unpacker (x86)"@,
    {
        "SteamStub Variant 1.0 Unpacker (x86)"
    }

    fn can_process(&self, pe: &PeFile) -> (r: bool)
        ensures
            r == (pe.file_header.machine != 0x8664 && spec_section_index(pe.sections@, ".bind"@) is Some
                && pattern_in_section(*pe, ".bind"@, BIND_START_PATTERN@)),
    {
        proof {
            lemma_patterns_complete();
        }
        if pe.is_file_64() || !pe.has_section(".bind") {
            return false;
        }
        find_pattern_in_section(pe, ".bind", BIND_START_PATTERN).is_ok()
    }

    fn process(&self, pe: &mut PeFile, options: &Options, logger: &dyn Logger, dumps: &mut Dumps) -> (r: Result<Vec<u8>, Error>)
        ensures
            unpack_10_outcome(*old(pe), *final(pe), *options, r),
            *final(dumps) == *old(dumps),
    {
        let ghost pe0 = *pe;
        logger.log(Level::Info, "File is packed with SteamStub Variant 1.0!");

        logger.log(Level::Info, "Step 1 - Read, decode and validate the SteamStub DRM header.");
        let original_entry_point = match self.step1(pe) {
            Ok(v) => v,
            Err(e) => return Err(e),
        };

        logger.log(Level::Info, "Step 2 - Handle .bind section.");
        match self.step2(pe, options, logger) {
            Ok(()) => {},
            Err(e) => return Err(e),
        }
        let ghost pe2 = *pe;

        logger.log(Level::Info, "Step 3 - Rebuild and save the unpacked file.");
        let r = save(pe, options, original_entry_point);
        assert(run_10(pe0, *options, original_entry_point, pe2, *pe, r));
        if r.is_ok() {
            logger.log(Level::Success, " --> Unpacked file saved to disk!");
        }
        r
    }
}

} // verus!
