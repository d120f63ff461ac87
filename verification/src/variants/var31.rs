//! SteamStub DRM Variant 3.1 unpacker (x86 and x64).

use vstd::prelude::*;

use crate::logger::{Level, Logger};
use crate::options::Options;
use crate::pe::pe_file::spec_section_index;
use crate::pe::PeFile;
use crate::variants::common::Dumps;
use crate::variants::var_3x::{self, spec_header_size, unpack_3x_outcome, Variant};
use crate::variants::Unpacker;
use crate::Error;

verus! {

/// SteamStub Variant 3.1 unpacker.
pub struct Variant31 {
    pub is64: bool,
}

impl Variant31 {
    /// The 32-bit (x86) variant 3.1 unpacker.
    pub fn x86() -> (r: Self)
        ensures
            !r.is64,
    {
        Self { is64: false }
    }

    /// The 64-bit (x64) variant 3.1 unpacker.
    pub fn x64() -> (r: Self)
        ensures
            r.is64,
    {
        Self { is64: true }
    }
}

/// Whether a file is a v3.1 file of the given bitness: the machine type
/// matches, it has a `.bind` section, and the stub names the fixed v3.1
/// header size.
pub open spec fn is_v31_file(pe: PeFile, is64: bool) -> bool {
    &&& (pe.file_header.machine == 0x8664) == is64
    &&& spec_section_index(pe.sections@, ".bind"@) is Some
    &&& spec_header_size(pe, Variant::V31, is64) == Ok::<u32, crate::Failure>(0xF0)
}

impl Unpacker for Variant31 {
    open spec fn spec_can_process(&self, pe: PeFile) -> bool {
        is_v31_file(pe, self.is64)
    }

    open spec fn spec_outcome(
        &self,
        pe0: PeFile,
        pe: PeFile,
        options: Options,
        d0: Dumps,
        d: Dumps,
        r: Result<Vec<u8>, Error>,
    ) -> bool {
        unpack_3x_outcome(pe0, pe, options, Variant::V31, self.is64, d0, d, r)
    }

    open spec fn spec_name(&self) -> Seq<char> {
        if self.is64 {
            "SteamStub Variant 3.1 Unpacker (x64)"@
        } else {
            "SteamStub Variant 3.1 Unpacker (x86)"@
        }
    }

    fn name(&self) -> (r: &'static str)
        ensures
            r@ == (if self.is64 {
                "SteamStub Variant 3.1 Unpacker (x64)"@
            } else {
                "SteamStub Variant 3.1 Unpacker (x86)"@
            }),
    {
        if self.is64 {
            "SteamStub Variant 3.1 Unpacker (x64)"
        } else {
            "SteamStub Variant 3.1 Unpacker (x86)"
        }
    }

    fn can_process(&self, pe: &PeFile) -> (r: bool)
        ensures
            r == is_v31_file(*pe, self.is64),
    {
        if pe.is_file_64() != self.is64 || !pe.has_section(".bind") {
            return false;
        }
        match var_3x::get_header_size(pe, Variant::V31, self.is64) {
            Ok(size) => size == var_3x::expected_size(Variant::V31),
            Err(_) => false,
        }
    }

    fn process(&self, pe: &mut PeFile, options: &Options, logger: &dyn Logger, dumps: &mut Dumps) -> (r: Result<Vec<u8>, Error>)
        ensures
            unpack_3x_outcome(*old(pe), *final(pe), *options, Variant::V31, self.is64, *old(dumps), *final(dumps), r),
    {
        logger.log(Level::Info, "File is packed with SteamStub Variant 3.1!");
        var_3x::unpack(pe, options, Variant::V31, self.is64, logger, dumps)
    }
}

} // verus!
