//! Unpacker variants: SteamStub 1.0, 2.0, 2.1, 3.0 and 3.1.
//!
//! [`Unpacker::can_process`] sniffs whether a file matches a variant and
//! [`Unpacker::process`] unpacks it into a new image.

use vstd::prelude::*;

use crate::logger::Logger;
use crate::options::Options;
use crate::pe::PeFile;
use crate::Error;

pub mod common;
pub mod var10;
pub mod var20;
pub mod var21;
pub mod var30;
pub mod var31;
pub mod var_3x;

pub use common::Dumps;

verus! {

/// A SteamStub variant unpacker.
pub trait Unpacker {
    /// The human readable name of the unpacker, as text.
    spec fn spec_name(&self) -> Seq<char>;

    /// The human readable name of the unpacker.
    fn name(&self) -> (r: &'static str)
        ensures
            r@ == self.spec_name(),
    ;

    /// Whether this variant recognises `pe`.
    spec fn spec_can_process(&self, pe: PeFile) -> bool;

    /// Returns true if the file can be processed by this variant.
    fn can_process(&self, pe: &PeFile) -> (r: bool)
        ensures
            r == self.spec_can_process(*pe),
    ;

    /// What unpacking `pe0` with `options` gives: the file `pe` after it,
    /// the dumps `d` left from `d0`, and the result `r`.
    spec fn spec_outcome(
        &self,
        pe0: PeFile,
        pe: PeFile,
        options: Options,
        d0: Dumps,
        d: Dumps,
        r: Result<Vec<u8>, Error>,
    ) -> bool;

    /// Unpacks `pe`, updating it as the unpacking goes, and returns the
    /// unpacked image; the decoded data the options ask to dump is left in
    /// `dumps`.
    fn process(&self, pe: &mut PeFile, options: &Options, logger: &dyn Logger, dumps: &mut Dumps) -> (r: Result<Vec<u8>, Error>)
        requires
            old(pe).wf(),
        ensures
            final(pe).wf(),
            self.spec_outcome(*old(pe), *final(pe), *options, *old(dumps), *final(dumps), r),
    ;
}

/// The unpackers that should be tried against a file, in order: variants
/// 1.0, 2.0, 2.1, 3.0 x64, 3.0 x86, 3.1 x64, 3.1 x86.
pub fn unpackers() -> (r: Vec<Box<dyn Unpacker>>)
    ensures
        r@.len() == 7,
        r@[0].spec_name() == "SteamStub Variant 1.0 Unpacker (x86)"@,
        r@[1].spec_name() == "SteamStub Variant 2.0 Unpacker (x86)"@,
        r@[2].spec_name() == "SteamStub Variant 2.1 Unpacker (x86)"@,
        r@[3].spec_name() == "SteamStub Variant 3.0 Unpacker (x64)"@,
        r@[4].spec_name() == "SteamStub Variant 3.0 Unpacker (x86)"@,
        r@[5].spec_name() == "SteamStub Variant 3.1 Unpacker (x64)"@,
        r@[6].spec_name() == "SteamStub Variant 3.1 Unpacker (x86)"@,
        forall|pe: PeFile| #[trigger] r@[0].spec_can_process(pe) == var10::Variant10.spec_can_process(pe),
        forall|pe0: PeFile, pe: PeFile, o: Options, d0: Dumps, d: Dumps, x: Result<Vec<u8>, Error>|
            #[trigger] r@[0].spec_outcome(pe0, pe, o, d0, d, x) == var10::Variant10.spec_outcome(pe0, pe, o, d0, d, x),
        forall|pe: PeFile| #[trigger] r@[1].spec_can_process(pe) == var20::Variant20.spec_can_process(pe),
        forall|pe0: PeFile, pe: PeFile, o: Options, d0: Dumps, d: Dumps, x: Result<Vec<u8>, Error>|
            #[trigger] r@[1].spec_outcome(pe0, pe, o, d0, d, x) == var20::Variant20.spec_outcome(pe0, pe, o, d0, d, x),
        forall|pe: PeFile| #[trigger] r@[2].spec_can_process(pe) == var21::Variant21.spec_can_process(pe),
        forall|pe0: PeFile, pe: PeFile, o: Options, d0: Dumps, d: Dumps, x: Result<Vec<u8>, Error>|
            #[trigger] r@[2].spec_outcome(pe0, pe, o, d0, d, x) == var21::Variant21.spec_outcome(pe0, pe, o, d0, d, x),
        forall|pe: PeFile| #[trigger] r@[3].spec_can_process(pe) == (var30::Variant30 { is64: true }).spec_can_process(pe),
        forall|pe0: PeFile, pe: PeFile, o: Options, d0: Dumps, d: Dumps, x: Result<Vec<u8>, Error>|
            #[trigger] r@[3].spec_outcome(pe0, pe, o, d0, d, x) == (var30::Variant30 { is64: true }).spec_outcome(pe0, pe, o, d0, d, x),
        forall|pe: PeFile| #[trigger] r@[4].spec_can_process(pe) == (var30::Variant30 { is64: false }).spec_can_process(pe),
        forall|pe0: PeFile, pe: PeFile, o: Options, d0: Dumps, d: Dumps, x: Result<Vec<u8>, Error>|
            #[trigger] r@[4].spec_outcome(pe0, pe, o, d0, d, x) == (var30::Variant30 { is64: false }).spec_outcome(pe0, pe, o, d0, d, x),
        forall|pe: PeFile| #[trigger] r@[5].spec_can_process(pe) == (var31::Variant31 { is64: true }).spec_can_process(pe),
        forall|pe0: PeFile, pe: PeFile, o: Options, d0: Dumps, d: Dumps, x: Result<Vec<u8>, Error>|
            #[trigger] r@[5].spec_outcome(pe0, pe, o, d0, d, x) == (var31::Variant31 { is64: true }).spec_outcome(pe0, pe, o, d0, d, x),
        forall|pe: PeFile| #[trigger] r@[6].spec_can_process(pe) == (var31::Variant31 { is64: false }).spec_can_process(pe),
        forall|pe0: PeFile, pe: PeFile, o: Options, d0: Dumps, d: Dumps, x: Result<Vec<u8>, Error>|
            #[trigger] r@[6].spec_outcome(pe0, pe, o, d0, d, x) == (var31::Variant31 { is64: false }).spec_outcome(pe0, pe, o, d0, d, x),
{
    vec![
        Box::new(var10::Variant10),
        Box::new(var20::Variant20),
        Box::new(var21::Variant21),
        Box::new(var30::Variant30::x64()),
        Box::new(var30::Variant30::x86()),
        Box::new(var31::Variant31::x64()),
        Box::new(var31::Variant31::x86()),
    ]
}

/// The next unpacker to try: the first at or after `from` whose
/// `can_process` answer is true, or `None` when none is left. Unpacking goes
/// through the unpackers in order, skips those that cannot process the file,
/// and, after a failed attempt at index `i`, goes on from `i + 1`.
pub fn next_unpacker(can_process: &[bool], from: usize) -> (r: Option<usize>)
    ensures
        r matches Some(i) ==> from <= i < can_process@.len() && can_process@[i as int] && forall|
            j: int,
        | from <= j < i ==> !can_process@[j],
        r is None ==> forall|j: int| from <= j < can_process@.len() ==> !can_process@[j],
{
    let mut i = from;
    while i < can_process.len()
        invariant
            from <= i,
            forall|j: int| from <= j < i ==> !can_process@[j],
        decreases can_process@.len() - i,
    {
        if can_process[i] {
            return Some(i);
        }
        i += 1;
    }
    None
}

} // verus!
