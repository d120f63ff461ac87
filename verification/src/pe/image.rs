//! Assembly of the unpacked image: headers, section table, section data and
//! overlay laid out at their file offsets.

use vstd::prelude::*;

use super::pe_file::{section_header_bytes, put_u16, put_u32, PeFile, SectionHeader};
use super::reader::{le_u16, le_u32};
use super::reader::{splice, Buf};

verus! {

/// `n` zero bytes.
pub open spec fn zeros(n: int) -> Seq<u8> {
    Seq::new(n as nat, |i: int| 0u8)
}

/// `buf` with `bytes` stored at `off`, zero-extended first when it is too
/// short to hold them.
pub open spec fn write_at(buf: Seq<u8>, off: int, bytes: Seq<u8>) -> Seq<u8> {
    let end = off + bytes.len();
    let b = if buf.len() < end {
        buf + zeros(end - buf.len())
    } else {
        buf
    };
    splice(b, off, bytes)
}

/// The buffer after `write_at` is as long as the longer of the old buffer
/// and the end of the write.
pub proof fn lemma_write_at_len(buf: Seq<u8>, off: int, bytes: Seq<u8>)
    requires
        0 <= off,
    ensures
        write_at(buf, off, bytes).len() == (if buf.len() < off + bytes.len() {
            off + bytes.len()
        } else {
            buf.len() as int
        }),
{
}

/// Stores `bytes` at `off` in `buf`, growing it with zeros as needed.
fn store(buf: &mut Vec<u8>, off: usize, bytes: &[u8])
    requires
        off + bytes@.len() <= usize::MAX,
    ensures
        final(buf)@ == write_at(old(buf)@, off as int, bytes@),
{
    let end = off + bytes.len();
    let ghost orig = buf@;
    while buf.len() < end
        invariant
            end == off + bytes@.len(),
            orig.len() <= buf@.len() <= end || (buf@.len() == orig.len() && orig.len() > end),
            buf@ == orig + zeros(buf@.len() - orig.len()),
        decreases end - buf@.len(),
    {
        buf.push(0);
        assert(buf@ =~= orig + zeros(buf@.len() - orig.len()));
    }
    let ghost grown = buf@;
    assert(grown =~= (if orig.len() < end {
        orig + zeros(end - orig.len())
    } else {
        orig
    }));
    let mut i: usize = 0;
    while i < bytes.len()
        invariant
            end == off + bytes@.len(),
            end <= grown.len(),
            buf@.len() == grown.len(),
            i <= bytes@.len(),
            forall|k: int| 0 <= k < grown.len() && !(off <= k < off + i) ==> buf@[k] == grown[k],
            forall|k: int| off <= k < off + i ==> buf@[k] == bytes@[k - off],
        decreases bytes@.len() - i,
    {
        buf.set(off + i, bytes[i]);
        i += 1;
    }
    assert(buf@ =~= splice(grown, off as int, bytes@));
}

/// `buf` with the on-disk headers of the first `n` sections of `secs` stored
/// one after the other from `start`.
pub open spec fn write_headers(buf: Seq<u8>, start: int, secs: Seq<SectionHeader>, n: nat) -> Seq<u8>
    decreases n,
{
    if n == 0 {
        buf
    } else {
        write_at(
            write_headers(buf, start, secs, (n - 1) as nat),
            start + 40 * (n - 1),
            section_header_bytes(secs[n - 1]),
        )
    }
}

/// Parameters controlling the layout of the unpacked image.
pub struct SaveParameters<'a> {
    /// Replaces the DOS stub bytes (e.g. zeroed). `None` keeps the stub.
    pub dos_stub: Option<&'a [u8]>,
    /// The entry point RVA written into the optional header.
    pub address_of_entry_point: u32,
    /// The checksum value written into the optional header (usually 0).
    pub checksum: u32,
    /// Replacement bytes for a single code section by index.
    pub code_section: Option<(usize, &'a [u8])>,
}

/// The bytes written for section `i`: the replacement when `code` names it,
/// its loaded data otherwise.
pub open spec fn section_bytes(pe: PeFile, code: Option<(usize, Seq<u8>)>, i: int) -> Seq<u8> {
    match code {
        Some((idx, rep)) if idx == i => rep,
        _ => pe.section_data@[i]@,
    }
}

/// `buf` with the data of the first `n` sections stored at their raw
/// pointers.
pub open spec fn write_datas(buf: Seq<u8>, pe: PeFile, code: Option<(usize, Seq<u8>)>, n: nat) -> Seq<
    u8,
>
    decreases n,
{
    if n == 0 {
        buf
    } else {
        write_at(
            write_datas(buf, pe, code, (n - 1) as nat),
            pe.sections@[n - 1].pointer_to_raw_data as int,
            section_bytes(pe, code, n - 1),
        )
    }
}

/// The file offset of the section table.
pub open spec fn table_start(pe: PeFile) -> int {
    pe.nt_headers_offset + 24 + pe.file_header.size_of_optional_header
}

/// The DOS stub that `params` has written.
pub open spec fn stub_bytes(pe: PeFile, params: SaveParameters) -> Seq<u8> {
    match params.dos_stub {
        Some(s) => s@,
        None => pe.dos_stub@,
    }
}

/// The code section replacement that `params` names.
pub open spec fn code_bytes(params: SaveParameters) -> Option<(usize, Seq<u8>)> {
    match params.code_section {
        Some((i, d)) => Some((i, d@)),
        None => None,
    }
}

/// The image up to and including the patched NT headers.
pub open spec fn image_headers(pe: PeFile, stub: Seq<u8>, entry: u32, checksum: u32) -> Seq<u8> {
    let nt = pe.nt_headers_offset as int;
    let s0 = write_at(Seq::empty(), 0, pe.data@.take(64));
    let s1 = write_at(s0, 64, stub);
    let s2 = write_at(s1, nt, pe.data@.subrange(nt, table_start(pe)));
    let s3 = put_u16(s2, nt + 6, pe.file_header.number_of_sections);
    let s4 = put_u32(s3, nt + 40, entry);
    let s5 = put_u32(s4, nt + 80, pe.optional.size_of_image);
    put_u32(s5, nt + 88, checksum)
}

/// The unpacked image: DOS header, DOS stub, patched NT headers (section
/// count, entry point, image size, checksum), section headers, section data
/// at their raw pointers, then the overlay.
pub open spec fn spec_unpacked_image(
    pe: PeFile,
    stub: Seq<u8>,
    entry: u32,
    checksum: u32,
    code: Option<(usize, Seq<u8>)>,
) -> Seq<u8> {
    let n = pe.sections@.len();
    let s7 = write_headers(image_headers(pe, stub, entry, checksum), table_start(pe), pe.sections@, n);
    let s8 = write_datas(s7, pe, code, n);
    match pe.overlay {
        Some(o) => s8 + o@,
        None => s8,
    }
}

/// The length of the overlay, zero when there is none.
pub open spec fn overlay_len(pe: PeFile) -> int {
    match pe.overlay {
        Some(o) => o@.len() as int,
        None => 0,
    }
}

/// Every write of the image, and the overlay after it, fits in memory.
pub open spec fn image_fits(pe: PeFile, stub: Seq<u8>, code: Option<(usize, Seq<u8>)>) -> bool {
    let room = usize::MAX - overlay_len(pe);
    &&& 64 + stub.len() <= room
    &&& table_start(pe) + 40 * pe.sections@.len() <= room
    &&& forall|i: int|
        0 <= i < pe.sections@.len() ==> pe.sections@[i].pointer_to_raw_data + (
        #[trigger] section_bytes(pe, code, i)).len() <= room
}

/// What the image needs of `pe` and the parameters: a DOS header, NT headers
/// inside the data, one data buffer per section, and room in memory.
pub open spec fn image_ok(pe: PeFile, stub: Seq<u8>, code: Option<(usize, Seq<u8>)>) -> bool {
    &&& pe.wf()
    &&& 64 <= pe.data@.len()
    &&& table_start(pe) <= pe.data@.len()
    &&& image_fits(pe, stub, code)
}

impl PeFile {
    /// Lays out the unpacked image in memory: DOS header, DOS stub, patched
    /// NT headers, section headers, section data at their raw pointers, then
    /// the overlay trailing the file.
    #[verifier::rlimit(30)]
    pub fn unpacked_image(&self, params: &SaveParameters) -> (r: Vec<u8>)
        requires
            image_ok(*self, stub_bytes(*self, *params), code_bytes(*params)),
        ensures
            r@ == spec_unpacked_image(
                *self,
                stub_bytes(*self, *params),
                params.address_of_entry_point,
                params.checksum,
                code_bytes(*params),
            ),
    {
        let ghost room = usize::MAX - overlay_len(*self);
        let nt = self.nt_headers_offset;
        let sections_start = nt + 24 + self.file_header.size_of_optional_header as usize;
        let mut out: Vec<u8> = Vec::new();

        // DOS header (first 64 bytes of the image).
        let dos = vstd::slice::slice_subrange(self.data.as_slice(), 0, 64);
        assert(dos@ =~= self.data@.take(64));
        store(&mut out, 0, dos);

        // DOS stub.
        let stub = match params.dos_stub {
            Some(s) => s,
            None => self.dos_stub.as_slice(),
        };
        store(&mut out, 64, stub);

        // NT headers, patched in place.
        let nt_headers = vstd::slice::slice_subrange(self.data.as_slice(), nt, sections_start);
        store(&mut out, nt, nt_headers);
        proof {
            lemma_write_at_len(Seq::empty(), 0, self.data@.take(64));
            lemma_write_at_len(
                write_at(Seq::empty(), 0, self.data@.take(64)),
                64,
                stub_bytes(*self, *params),
            );
            lemma_write_at_len(
                write_at(
                    write_at(Seq::empty(), 0, self.data@.take(64)),
                    64,
                    stub_bytes(*self, *params),
                ),
                nt as int,
                nt_headers@,
            );
        }
        out.as_mut_slice().wr_u16(nt + 6, self.file_header.number_of_sections);
        out.as_mut_slice().wr_u32(nt + 24 + 16, params.address_of_entry_point);
        out.as_mut_slice().wr_u32(nt + 24 + 56, self.optional.size_of_image);
        out.as_mut_slice().wr_u32(nt + 24 + 64, params.checksum);
        assert(out@ == image_headers(
            *self,
            stub_bytes(*self, *params),
            params.address_of_entry_point,
            params.checksum,
        ));
        assert(out@.len() <= room);

        // Section headers.
        let ghost base = out@;
        let n = self.sections.len();
        let mut i: usize = 0;
        while i < n
            invariant
                n == self.sections@.len(),
                i <= n,
                sections_start == table_start(*self),
                sections_start + 40 * n <= room,
                room == usize::MAX - overlay_len(*self),
                base.len() <= room,
                out@ == write_headers(base, sections_start as int, self.sections@, i as nat),
                out@.len() <= room,
            decreases n - i,
        {
            let mut hdr = [0u8; 40];
            self.sections[i].write_into(&mut hdr, 0);
            assert(hdr@ =~= section_header_bytes(self.sections@[i as int]));
            assert(sections_start + i * 40 + 40 <= sections_start + 40 * n) by (nonlinear_arith)
                requires
                    i < n,
            ;
            proof {
                lemma_write_at_len(out@, sections_start + 40 * i, hdr@);
            }
            store(&mut out, sections_start + i * 40, &hdr);
            i += 1;
        }

        // Section data at their raw pointers.
        let ghost base2 = out@;
        let mut i: usize = 0;
        while i < n
            invariant
                n == self.sections@.len(),
                n == self.section_data@.len(),
                i <= n,
                room == usize::MAX - overlay_len(*self),
                image_fits(*self, stub_bytes(*self, *params), code_bytes(*params)),
                base2.len() <= room,
                out@ == write_datas(base2, *self, code_bytes(*params), i as nat),
                out@.len() <= room,
            decreases n - i,
        {
            let data: &[u8] = match params.code_section {
                Some((idx, replacement)) => if idx == i {
                    replacement
                } else {
                    self.section_data[i].as_slice()
                },
                None => self.section_data[i].as_slice(),
            };
            assert(data@ == section_bytes(*self, code_bytes(*params), i as int));
            proof {
                lemma_write_at_len(
                    out@,
                    self.sections@[i as int].pointer_to_raw_data as int,
                    data@,
                );
            }
            store(&mut out, self.sections[i].pointer_to_raw_data as usize, data);
            i += 1;
        }

        // Overlay data.
        match &self.overlay {
            Some(overlay) => {
                let start = out.len();
                let ghost prev = out@;
                store(&mut out, start, overlay.as_slice());
                assert(out@ =~= prev + overlay@);
            },
            None => {},
        }
        out
    }
}

/// `a` and `b` both reach `hi` and agree on the bytes from `lo` to `hi`.
pub open spec fn same_range(a: Seq<u8>, b: Seq<u8>, lo: int, hi: int) -> bool {
    &&& hi <= a.len()
    &&& hi <= b.len()
    &&& forall|i: int| lo <= i < hi ==> #[trigger] a[i] == b[i]
}

/// A write that starts at or after `hi`, or ends at or before `lo`, keeps
/// the bytes from `lo` to `hi`.
proof fn lemma_write_at_keeps(buf: Seq<u8>, off: int, bytes: Seq<u8>, lo: int, hi: int)
    requires
        0 <= off,
        0 <= lo <= hi <= buf.len(),
        off >= hi || off + bytes.len() <= lo,
    ensures
        same_range(buf, write_at(buf, off, bytes), lo, hi),
{
    lemma_write_at_len(buf, off, bytes);
    let w = write_at(buf, off, bytes);
    assert forall|i: int| lo <= i < hi implies #[trigger] buf[i] == w[i] by {
        if i < off {
        } else {
            assert(i >= off + bytes.len());
        }
    }
}

/// Writing section headers from `start` on keeps every byte before it.
proof fn lemma_headers_keep(buf: Seq<u8>, start: int, secs: Seq<SectionHeader>, n: nat, lo: int, hi: int)
    requires
        0 <= lo <= hi <= start,
        hi <= buf.len(),
    ensures
        same_range(buf, write_headers(buf, start, secs, n), lo, hi),
    decreases n,
{
    if n > 0 {
        lemma_headers_keep(buf, start, secs, (n - 1) as nat, lo, hi);
        let prev = write_headers(buf, start, secs, (n - 1) as nat);
        lemma_write_at_keeps(prev, start + 40 * (n - 1), section_header_bytes(secs[n - 1]), lo, hi);
    }
}

/// No section's data is written between `lo` and `hi`.
pub open spec fn data_clear_of(pe: PeFile, code: Option<(usize, Seq<u8>)>, lo: int, hi: int) -> bool {
    forall|i: int|
        0 <= i < pe.sections@.len() ==> pe.sections@[i].pointer_to_raw_data + (
        #[trigger] section_bytes(pe, code, i)).len() <= lo || pe.sections@[i].pointer_to_raw_data
            >= hi
}

/// Writing section data that stays clear of `lo..hi` keeps those bytes.
proof fn lemma_datas_keep(buf: Seq<u8>, pe: PeFile, code: Option<(usize, Seq<u8>)>, n: nat, lo: int, hi: int)
    requires
        0 <= lo <= hi <= buf.len(),
        n <= pe.sections@.len(),
        data_clear_of(pe, code, lo, hi),
    ensures
        same_range(buf, write_datas(buf, pe, code, n), lo, hi),
    decreases n,
{
    if n > 0 {
        lemma_datas_keep(buf, pe, code, (n - 1) as nat, lo, hi);
        let prev = write_datas(buf, pe, code, (n - 1) as nat);
        let k = n - 1;
        assert(pe.sections@[k].pointer_to_raw_data + section_bytes(pe, code, k).len() <= lo
            || pe.sections@[k].pointer_to_raw_data >= hi);
        lemma_write_at_keeps(
            prev,
            pe.sections@[k].pointer_to_raw_data as int,
            section_bytes(pe, code, k),
            lo,
            hi,
        );
    }
}

/// Dwords and words inside a range two buffers agree on read the same.
proof fn lemma_same_reads(a: Seq<u8>, b: Seq<u8>, lo: int, hi: int, at: int)
    requires
        same_range(a, b, lo, hi),
        lo <= at,
    ensures
        at + 4 <= hi ==> le_u32(a, at) == le_u32(b, at),
        at + 2 <= hi ==> le_u16(a, at) == le_u16(b, at),
{
    if at + 2 <= hi {
        assert(a[at] == b[at] && a[at + 1] == b[at + 1]);
    }
    if at + 4 <= hi {
        assert(a[at + 2] == b[at + 2] && a[at + 3] == b[at + 3]);
    }
}

/// A `put` at `at` keeps the bytes of another field that it does not touch.
proof fn lemma_put_keeps(b: Seq<u8>, at: int, n: int, lo: int, hi: int)
    requires
        0 <= lo <= hi <= b.len(),
        0 <= at,
        at + n <= lo || at >= hi,
        n == 2 || n == 4,
    ensures
        n == 4 ==> forall|v: u32| #[trigger] same_range(b, put_u32(b, at, v), lo, hi),
        n == 2 ==> forall|v: u16| #[trigger] same_range(b, put_u16(b, at, v), lo, hi),
{
}

/// The unpacked image's NT headers carry the section count, entry point,
/// image size and checksum they were given, as long as neither the section
/// table nor any section's data overlaps those fields.
pub proof fn lemma_image_header_fields(
    pe: PeFile,
    stub: Seq<u8>,
    entry: u32,
    checksum: u32,
    code: Option<(usize, Seq<u8>)>,
)
    requires
        image_ok(pe, stub, code),
        pe.nt_headers_offset + 92 <= table_start(pe),
        data_clear_of(pe, code, pe.nt_headers_offset as int, pe.nt_headers_offset + 92),
    ensures
        ({
            let img = spec_unpacked_image(pe, stub, entry, checksum, code);
            let nt = pe.nt_headers_offset as int;
            &&& le_u16(img, nt + 6) == pe.file_header.number_of_sections
            &&& le_u32(img, nt + 40) == entry
            &&& le_u32(img, nt + 80) == pe.optional.size_of_image
            &&& le_u32(img, nt + 88) == checksum
            &&& nt + 92 <= img.len()
        }),
{
    let nt = pe.nt_headers_offset as int;
    let start = table_start(pe);
    let s0 = write_at(Seq::empty(), 0, pe.data@.take(64));
    let s1 = write_at(s0, 64, stub);
    let s2 = write_at(s1, nt, pe.data@.subrange(nt, start));
    lemma_write_at_len(s1, nt, pe.data@.subrange(nt, start));
    assert(s2.len() >= start);
    let s3 = put_u16(s2, nt + 6, pe.file_header.number_of_sections);
    let s4 = put_u32(s3, nt + 40, entry);
    let s5 = put_u32(s4, nt + 80, pe.optional.size_of_image);
    let h = put_u32(s5, nt + 88, checksum);
    assert(h == image_headers(pe, stub, entry, checksum));

    // Each field reads back after the later puts.
    super::reader::lemma_write_then_read_u16(s2, nt + 6, pe.file_header.number_of_sections);
    lemma_put_keeps(s3, nt + 40, 4, nt + 6, nt + 8);
    lemma_put_keeps(s4, nt + 80, 4, nt + 6, nt + 8);
    lemma_put_keeps(s5, nt + 88, 4, nt + 6, nt + 8);
    assert(same_range(s3, s4, nt + 6, nt + 8));
    assert(same_range(s4, s5, nt + 6, nt + 8));
    assert(same_range(s5, h, nt + 6, nt + 8));
    lemma_same_reads(s3, s4, nt + 6, nt + 8, nt + 6);
    lemma_same_reads(s4, s5, nt + 6, nt + 8, nt + 6);
    lemma_same_reads(s5, h, nt + 6, nt + 8, nt + 6);

    super::reader::lemma_write_then_read_u32(s3, nt + 40, entry);
    lemma_put_keeps(s4, nt + 80, 4, nt + 40, nt + 44);
    lemma_put_keeps(s5, nt + 88, 4, nt + 40, nt + 44);
    assert(same_range(s4, s5, nt + 40, nt + 44));
    assert(same_range(s5, h, nt + 40, nt + 44));
    lemma_same_reads(s4, s5, nt + 40, nt + 44, nt + 40);
    lemma_same_reads(s5, h, nt + 40, nt + 44, nt + 40);

    super::reader::lemma_write_then_read_u32(s4, nt + 80, pe.optional.size_of_image);
    lemma_put_keeps(s5, nt + 88, 4, nt + 80, nt + 84);
    assert(same_range(s5, h, nt + 80, nt + 84));
    lemma_same_reads(s5, h, nt + 80, nt + 84, nt + 80);

    super::reader::lemma_write_then_read_u32(s5, nt + 88, checksum);

    // The section table and the section data leave the headers alone.
    let n = pe.sections@.len();
    let s7 = write_headers(h, start, pe.sections@, n);
    lemma_headers_keep(h, start, pe.sections@, n, nt, nt + 92);
    let s8 = write_datas(s7, pe, code, n);
    lemma_datas_keep(s7, pe, code, n, nt, nt + 92);
    let img = spec_unpacked_image(pe, stub, entry, checksum, code);
    assert(same_range(s8, img, nt, nt + 92)) by {
        match pe.overlay {
            Some(o) => {
                assert forall|i: int| nt <= i < nt + 92 implies #[trigger] s8[i] == img[i] by {
                    assert(img == s8 + o@);
                }
            },
            None => {},
        }
    }
    lemma_same_reads(h, s7, nt, nt + 92, nt + 6);
    lemma_same_reads(s7, s8, nt, nt + 92, nt + 6);
    lemma_same_reads(s8, img, nt, nt + 92, nt + 6);
    lemma_same_reads(h, s7, nt, nt + 92, nt + 40);
    lemma_same_reads(s7, s8, nt, nt + 92, nt + 40);
    lemma_same_reads(s8, img, nt, nt + 92, nt + 40);
    lemma_same_reads(h, s7, nt, nt + 92, nt + 80);
    lemma_same_reads(s7, s8, nt, nt + 92, nt + 80);
    lemma_same_reads(s8, img, nt, nt + 92, nt + 80);
    lemma_same_reads(h, s7, nt, nt + 92, nt + 88);
    lemma_same_reads(s7, s8, nt, nt + 92, nt + 88);
    lemma_same_reads(s8, img, nt, nt + 92, nt + 88);
}

} // verus!
