//! SteamStub DRM Variant 3.0 unpacker (x86 and x64).

use vstd::prelude::*;

use crate::logger::{Level, Logger};
use crate::options::Options;
use crate::pe::pe_file::spec_section_index;
use crate::pe::PeFile;
use crate::variants::common::Dumps;
use crate::variants::var_3x::{self, spec_header_size, unpack_3x_outcome, Variant};
use crate::variants::Unpacker;
use crate::Error;

verus! {

/// SteamStub Variant 3.0 unpacker.
pub struct Variant30 {
    pub is64: bool,
}

impl Variant30 {
    /// The 32-bit (x86) variant 3.0 unpacker.
    pub fn x86() -> (r: Self)
        ensures
            !r.is64,
    {
        Self { is64: false }
    }

    /// The 64-bit (x64) variant 3.0 unpacker.
    pub fn x64() -> (r: Self)
        ensures
            r.is64,
    {
        Self { is64: true }
    }
}

/// Whether a file is a v3.0 file of the given bitness: the machine type
/// matches, it has a `.bind` section, and its header size is a known v3.0
/// size.
pub open spec fn is_v30_file(pe: PeFile, is64: bool) -> bool {
    &&& (pe.file_header.machine == 0x8664) == is64
    &&& spec_section_index(pe.sections@, ".bind"@) is Some
    &&& spec_header_size(pe, Variant::V30, is64) matches Ok(size) && (size == 0xB0 || size == 0xD0)
}

impl Unpacker for Variant30 {
    open spec fn spec_can_process(&self, pe: PeFile) -> bool {
        is_v30_file(pe, self.is64)
    }

    open spec fn spec_outcome(
        &self,
        pe0: PeFile,
        pe: PeFile,
        options: Options,
        d0: Dumps,
        d: Dumps,
        r: Result<Vec<u8>, Error>,
    ) -> bool {
        unpack_3x_outcome(pe0, pe, options, Variant::V30, self.is64, d0, d, r)
    }

    open spec fn spec_name(&self) -> Seq<char> {
        if self.is64 {
            "SteamStub Variant 3.0 Unpacker (x64)"@
        } else {
            "SteamStub Variant 3.0 Unpacker (x86)"@
        }
    }

    fn name(&self) -> (r: &'static str)
        ensures
            r@ == (if self.is64 {
                "SteamStub Variant 3.0 Unpacker (x64)"@
            } else {
                "SteamStub Variant 3.0 Unpacker (x86)"@
            }),
    {
        if self.is64 {
            "SteamStub Variant 3.0 Unpacker (x64)"
        } else {
            "SteamStub Variant 3.0 Unpacker (x86)"
        }
    }

    fn can_process(&self, pe: &PeFile) -> (r: bool)
        ensures
            r == is_v30_file(*pe, self.is64),
    {
        if pe.is_file_64() != self.is64 || !pe.has_section(".bind") {
            return false;
        }
        match var_3x::get_header_size(pe, Variant::V30, self.is64) {
            Ok(size) => var_3x::is_v30_size(size),
            Err(_) => false,
        }
    }

    fn process(&self, pe: &mut PeFile, options: &Options, logger: &dyn Logger, dumps: &mut Dumps) -> (r: Result<Vec<u8>, Error>)
        ensures
            unpack_3x_outcome(*old(pe), *final(pe), *options, Variant::V30, self.is64, *old(dumps), *final(dumps), r),
    {
        logger.log(Level::Info, "File is packed with SteamStub Variant 3.0!");
        var_3x::unpack(pe, options, Variant::V30, self.is64, logger, dumps)
    }
}

} // verus!
