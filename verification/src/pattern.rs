//! Byte pattern scanning with `??` wildcards.

use vstd::prelude::*;
use vstd::string::StringExecFns;

use crate::{push_char, Error};

verus! {

/// Whether `c` has the Unicode `White_Space` property (`char::is_whitespace`).
pub open spec fn is_ws(c: char) -> bool {
    let u = c as u32;
    ||| 0x09 <= u <= 0x0d
    ||| u == 0x20
    ||| u == 0x85
    ||| u == 0xa0
    ||| u == 0x1680
    ||| 0x2000 <= u <= 0x200a
    ||| u == 0x2028
    ||| u == 0x2029
    ||| u == 0x202f
    ||| u == 0x205f
    ||| u == 0x3000
}

fn is_whitespace(c: char) -> (r: bool)
    ensures
        r == is_ws(c),
{
    let u = c as u32;
    (0x09 <= u && u <= 0x0d) || u == 0x20 || u == 0x85 || u == 0xa0 || u == 0x1680 || (0x2000
        <= u && u <= 0x200a) || u == 0x2028 || u == 0x2029 || u == 0x202f || u == 0x205f || u
        == 0x3000
}

/// `s` with every whitespace character removed.
pub open spec fn strip_ws(s: Seq<char>) -> Seq<char>
    decreases s.len(),
{
    if s.len() == 0 {
        s
    } else if is_ws(s.last()) {
        strip_ws(s.drop_last())
    } else {
        strip_ws(s.drop_last()).push(s.last())
    }
}

/// The value of a hexadecimal digit (`char::to_digit(16)`).
pub open spec fn hex_value(c: char) -> Option<u8> {
    if '0' <= c <= '9' {
        Some((c as u32 - '0' as u32) as u8)
    } else if 'a' <= c <= 'f' {
        Some((c as u32 - 'a' as u32 + 10) as u8)
    } else if 'A' <= c <= 'F' {
        Some((c as u32 - 'A' as u32 + 10) as u8)
    } else {
        None
    }
}

fn hex_digit(c: char) -> (r: Option<u8>)
    ensures
        r == hex_value(c),
{
    if '0' <= c && c <= '9' {
        Some((c as u32 - '0' as u32) as u8)
    } else if 'a' <= c && c <= 'f' {
        Some((c as u32 - 'a' as u32 + 10) as u8)
    } else if 'A' <= c && c <= 'F' {
        Some((c as u32 - 'A' as u32 + 10) as u8)
    } else {
        None
    }
}

/// The byte that the two-character text `hi lo` denotes in base 16
/// (`u8::from_str_radix`, which also takes a leading `+` sign).
pub open spec fn pair_value(hi: char, lo: char) -> Option<u8> {
    if hi == '+' {
        hex_value(lo)
    } else {
        match (hex_value(hi), hex_value(lo)) {
            (Some(h), Some(l)) => Some((h * 16 + l) as u8),
            _ => None,
        }
    }
}

fn parse_pair(hi: char, lo: char) -> (r: Option<u8>)
    ensures
        r == pair_value(hi, lo),
{
    if hi == '+' {
        hex_digit(lo)
    } else {
        match (hex_digit(hi), hex_digit(lo)) {
            (Some(h), Some(l)) => Some(h * 16 + l),
            _ => None,
        }
    }
}

/// Whether either character of a pair is a `?` wildcard.
pub open spec fn is_wild(hi: char, lo: char) -> bool {
    hi == '?' || lo == '?'
}

/// The error text for a pair that is neither a wildcard nor a hex byte.
pub open spec fn bad_byte_message(hi: char, lo: char) -> Seq<char> {
    "invalid pattern byte '"@ + seq![hi, lo] + "'"@
}

/// Parses the first `k` character pairs of `t` into (byte, must-match)
/// entries, or the error text of the first pair that fails.
pub open spec fn parse_pairs(t: Seq<char>, k: nat) -> Result<Seq<(u8, bool)>, Seq<char>>
    decreases k,
{
    if k == 0 {
        Ok(Seq::empty())
    } else {
        match parse_pairs(t, (k - 1) as nat) {
            Err(m) => Err(m),
            Ok(v) => {
                let hi = t[2 * (k - 1)];
                let lo = t[2 * (k - 1) + 1];
                if is_wild(hi, lo) {
                    Ok(v.push((0u8, false)))
                } else {
                    match pair_value(hi, lo) {
                        Some(b) => Ok(v.push((b, true))),
                        None => Err(bad_byte_message(hi, lo)),
                    }
                }
            },
        }
    }
}

/// The parsed pattern, as (byte, must-match) entries, or the error text.
pub closed spec fn spec_parse_pattern(input: Seq<char>) -> Result<Seq<(u8, bool)>, Seq<char>> {
    let t = strip_ws(input);
    if vstd::utf8::encode_utf8(t).len() % 2 != 0 {
        Err("malformed pattern length"@)
    } else {
        parse_pairs(t, t.len() / 2)
    }
}

/// Parsing `input` runs to completion: the text without whitespace has an
/// even number of characters whenever it has an even number of bytes, or
/// else a bad pair is reported before the unpaired last character is reached.
pub closed spec fn pattern_parse_completes(input: Seq<char>) -> bool {
    let t = strip_ws(input);
    !(vstd::utf8::encode_utf8(t).len() % 2 == 0 && t.len() % 2 == 1 && parse_pairs(
        t,
        t.len() / 2,
    ) is Ok)
}

/// Removing whitespace from ASCII text leaves ASCII text.
proof fn lemma_strip_ws_ascii(s: Seq<char>)
    requires
        vstd::utf8::is_ascii_chars(s),
    ensures
        vstd::utf8::is_ascii_chars(strip_ws(s)),
    decreases s.len(),
{
    if s.len() > 0 {
        lemma_strip_ws_ascii(s.drop_last());
        let t = strip_ws(s.drop_last());
        if !is_ws(s.last()) {
            assert forall|i: int| 0 <= i < t.push(s.last()).len() implies '\0' <= #[trigger] t.push(
                s.last(),
            )[i] <= '\u{7f}' by {
                if i < t.len() {
                    assert(t.push(s.last())[i] == t[i]);
                }
            }
        }
    }
}

/// An ASCII pattern always parses to completion.
pub proof fn lemma_ascii_pattern_completes(s: Seq<char>)
    requires
        vstd::utf8::is_ascii_chars(s),
    ensures
        pattern_parse_completes(s),
{
    lemma_strip_ws_ascii(s);
    vstd::utf8::is_ascii_chars_encode_utf8(strip_ws(s));
}

/// The UTF-8 encoding of a sequence grows by the encoding of a pushed character.
proof fn lemma_encode_utf8_push(s: Seq<char>, c: char)
    ensures
        vstd::utf8::encode_utf8(s.push(c)).len() == vstd::utf8::encode_utf8(s).len()
            + vstd::utf8::encode_scalar(c as u32).len(),
    decreases s.len(),
{
    if s.len() > 0 {
        assert(s.push(c).drop_first() =~= s.drop_first().push(c));
        lemma_encode_utf8_push(s.drop_first(), c);
    } else {
        assert(s.push(c).drop_first() =~= s);
    }
}

/// The number of bytes in the UTF-8 encoding of `c`.
fn utf8_width(c: char) -> (r: usize)
    ensures
        r == vstd::utf8::encode_scalar(c as u32).len(),
{
    proof {
        vstd::utf8::char_is_scalar(c);
    }
    let u = c as u32;
    if u <= 0x7f {
        1
    } else if u <= 0x7ff {
        2
    } else if u <= 0xffff {
        3
    } else {
        4
    }
}

/// Once a pair fails to parse, longer prefixes fail with the same error.
proof fn lemma_parse_pairs_err_persists(t: Seq<char>, k: nat, n: nat)
    requires
        k <= n,
        parse_pairs(t, k) is Err,
    ensures
        parse_pairs(t, n) == parse_pairs(t, k),
    decreases n - k,
{
    if k < n {
        lemma_parse_pairs_err_persists(t, k, (n - 1) as nat);
    }
}

/// A parsed search pattern with its wildcard mask.
struct Pattern {
    bytes: Vec<u8>,
    mask: Vec<bool>,
}

impl Pattern {
    /// The entries of the pattern as (byte, must-match) pairs.
    spec fn entries(&self) -> Seq<(u8, bool)> {
        Seq::new(self.bytes@.len(), |i: int| (self.bytes@[i], self.mask@[i]))
    }

    spec fn wf(&self) -> bool {
        self.bytes@.len() == self.mask@.len()
    }

    fn parse(input: &str) -> (r: Result<Self, Error>)
        requires
            pattern_parse_completes(input@),
        ensures
            match spec_parse_pattern(input@) {
                Ok(v) => r matches Ok(p) && p.wf() && p.entries() == v,
                Err(m) => r matches Err(Error::Unpack(s)) && s@ == m,
            },
    {
        let mut trimmed = String::new();
        let mut chars: Vec<char> = Vec::new();
        let mut odd_bytes = false;
        assert(vstd::utf8::encode_utf8(Seq::<char>::empty()) =~= Seq::<u8>::empty());
        for c in it: input.chars()
            invariant
                it.seq() == input@,
                trimmed@ == strip_ws(it.seq().take(it.index() as int)),
                chars@ == trimmed@,
                odd_bytes == (vstd::utf8::encode_utf8(trimmed@).len() % 2 == 1),
        {
            assert(it.seq().take(it.index() + 1).drop_last() =~= it.seq().take(
                it.index() as int,
            ));
            if !is_whitespace(c) {
                proof {
                    lemma_encode_utf8_push(trimmed@, c);
                }
                let w = utf8_width(c);
                push_char(&mut trimmed, c);
                chars.push(c);
                if w % 2 == 1 {
                    odd_bytes = !odd_bytes;
                }
            }
        }
        assert(input@.take(input@.len() as int) =~= input@);
        let ghost t = strip_ws(input@);
        assert(trimmed@ == t);
        if odd_bytes {
            return Err(Error::Unpack("malformed pattern length".to_owned()));
        }
        let mut bytes: Vec<u8> = Vec::new();
        let mut mask: Vec<bool> = Vec::new();

        let mut i: usize = 0;
        assert(Seq::new(bytes@.len(), |k: int| (bytes@[k], mask@[k])) =~= Seq::<(u8, bool)>::empty());
        while i < chars.len()
            invariant
                chars@ == t,
                i % 2 == 0,
                i <= t.len() + 1,
                vstd::utf8::encode_utf8(t).len() % 2 == 0,
                pattern_parse_completes(input@),
                t == strip_ws(input@),
                bytes@.len() == mask@.len(),
                parse_pairs(t, (i / 2) as nat) == Ok::<Seq<(u8, bool)>, Seq<char>>(
                    Seq::new(bytes@.len(), |k: int| (bytes@[k], mask@[k])),
                ),
            decreases t.len() + 2 - i,
        {
            if i + 1 >= chars.len() {
                assert(t.len() % 2 == 1);
                assert((i / 2) as nat == t.len() / 2);
                assert(false);
            }
            let hi = chars[i];
            let lo = chars[i + 1];
            let ghost k = (i / 2) as nat;
            let ghost prev = parse_pairs(t, k);
            assert(hi == t[2 * k as int] && lo == t[2 * k as int + 1]);
            i += 2;
            assert((i / 2) as nat == k + 1);
            let wildcard = hi == '?' || lo == '?';
            let byte = if wildcard {
                0
            } else {
                match parse_pair(hi, lo) {
                    Some(b) => b,
                    None => {
                        let mut msg = "invalid pattern byte '".to_owned();
                        push_char(&mut msg, hi);
                        push_char(&mut msg, lo);
                        msg.append("'");
                        assert(msg@ =~= bad_byte_message(hi, lo));
                        assert(parse_pairs(t, k + 1) == Err::<Seq<(u8, bool)>, Seq<char>>(
                            bad_byte_message(hi, lo),
                        ));
                        proof {
                            lemma_parse_pairs_err_persists(t, k + 1, (t.len() / 2) as nat);
                        }
                        return Err(Error::Unpack(msg));
                    },
                }
            };
            let ghost old_entries = Seq::new(bytes@.len(), |k: int| (bytes@[k], mask@[k]));
            assert(prev == Ok::<Seq<(u8, bool)>, Seq<char>>(old_entries));
            assert(parse_pairs(t, k + 1) == Ok::<Seq<(u8, bool)>, Seq<char>>(
                old_entries.push((byte, !wildcard)),
            ));
            bytes.push(byte);
            mask.push(!wildcard);
            assert(Seq::new(bytes@.len(), |k: int| (bytes@[k], mask@[k])) =~= old_entries.push(
                (byte, !wildcard),
            ));
        }
        assert((i / 2) as nat == t.len() / 2);
        let p = Self { bytes, mask };
        assert(p.entries() =~= Seq::new(p.bytes@.len(), |k: int| (p.bytes@[k], p.mask@[k])));
        Ok(p)
    }

    fn len(&self) -> (r: usize)
        ensures
            r == self.bytes@.len(),
    {
        self.bytes.len()
    }
}

/// Whether the must-match entries of `pat` equal the bytes of `data` at offset `x`.
pub open spec fn matches_at(data: Seq<u8>, pat: Seq<(u8, bool)>, x: int) -> bool {
    forall|p: int| 0 <= p < pat.len() && #[trigger] pat[p].1 ==> data[x + p] == pat[p].0
}

/// Whether `pat` matches `data` at offset `x` with all of it inside `data`.
pub open spec fn found_at(data: Seq<u8>, pat: Seq<(u8, bool)>, x: int) -> bool {
    0 <= x && x + pat.len() <= data.len() && matches_at(data, pat, x)
}

/// `r` is the first offset at which `pat` is found in `data`, or
/// `PatternNotFound` when the pattern is empty or found nowhere.
pub open spec fn search_outcome(data: Seq<u8>, pat: Seq<(u8, bool)>, r: Result<usize, Error>) -> bool {
    match r {
        Ok(x) => pat.len() > 0 && found_at(data, pat, x as int) && forall|y: int|
            0 <= y < x ==> !#[trigger] found_at(data, pat, y),
        Err(Error::PatternNotFound) => pat.len() == 0 || forall|y: int|
            !#[trigger] found_at(data, pat, y),
        Err(_) => false,
    }
}

/// `x` is the first offset at which the non-empty `pat` is found in `data`.
pub open spec fn first_found(data: Seq<u8>, pat: Seq<(u8, bool)>, x: int) -> bool {
    &&& pat.len() > 0
    &&& found_at(data, pat, x)
    &&& forall|y: int| 0 <= y < x ==> !#[trigger] found_at(data, pat, y)
}

/// The first offset at which the text pattern `pattern` is found in `data`;
/// `None` when it does not parse, is empty, or is found nowhere.
pub closed spec fn pattern_offset(data: Seq<u8>, pattern: Seq<char>) -> Option<int> {
    match spec_parse_pattern(pattern) {
        Ok(p) => if exists|x: int| first_found(data, p, x) {
            Some(choose|x: int| first_found(data, p, x))
        } else {
            None
        },
        Err(_) => None,
    }
}

/// A pattern is only ever found inside the data.
pub proof fn lemma_offset_in_data(data: Seq<u8>, pattern: Seq<char>)
    ensures
        pattern_offset(data, pattern) matches Some(x) ==> 0 <= x < data.len(),
{
    if let Ok(p) = spec_parse_pattern(pattern) {
        if exists|x: int| first_found(data, p, x) {
            let x = choose|x: int| first_found(data, p, x);
            assert(found_at(data, p, x));
        }
    }
}

/// What parsing a text pattern gives: with whitespace removed, an odd number
/// of bytes is a malformed length; otherwise each pair of characters is a
/// hex byte or a `?` wildcard, in order.
pub proof fn lemma_parse_pattern_def(input: Seq<char>)
    ensures
        spec_parse_pattern(input) == ({
            let t = strip_ws(input);
            if vstd::utf8::encode_utf8(t).len() % 2 != 0 {
                Err("malformed pattern length"@)
            } else {
                parse_pairs(t, t.len() / 2)
            }
        }),
        pattern_parse_completes(input) == ({
            let t = strip_ws(input);
            !(vstd::utf8::encode_utf8(t).len() % 2 == 0 && t.len() % 2 == 1 && parse_pairs(
                t,
                t.len() / 2,
            ) is Ok)
        }),
{
}

/// The offset of a text pattern is the first offset at which its parsed
/// entries are found.
pub proof fn lemma_pattern_offset_first(
    data: Seq<u8>,
    pattern: Seq<char>,
    pat: Seq<(u8, bool)>,
    x: int,
)
    requires
        spec_parse_pattern(pattern) == Ok::<Seq<(u8, bool)>, Seq<char>>(pat),
        first_found(data, pat, x),
    ensures
        pattern_offset(data, pattern) == Some(x),
{
    let y = choose|y: int| first_found(data, pat, y);
    assert(first_found(data, pat, y));
    if y < x {
        assert(found_at(data, pat, y));
    } else if x < y {
        assert(found_at(data, pat, x));
    }
}

/// A text pattern that parses to no entries, or to entries found nowhere,
/// has no offset.
pub proof fn lemma_pattern_offset_none(data: Seq<u8>, pattern: Seq<char>, pat: Seq<(u8, bool)>)
    requires
        spec_parse_pattern(pattern) == Ok::<Seq<(u8, bool)>, Seq<char>>(pat),
        pat.len() == 0 || forall|y: int| !#[trigger] found_at(data, pat, y),
    ensures
        pattern_offset(data, pattern) is None,
{
    assert forall|x: int| !first_found(data, pat, x) by {
        if first_found(data, pat, x) {
            assert(found_at(data, pat, x));
        }
    }
}

/// A text pattern that does not parse has no offset.
pub proof fn lemma_pattern_offset_unparsed(data: Seq<u8>, pattern: Seq<char>)
    requires
        spec_parse_pattern(pattern) is Err,
    ensures
        pattern_offset(data, pattern) is None,
{
}

/// A search outcome names the first match exactly.
proof fn lemma_outcome_offset(data: Seq<u8>, pattern: Seq<char>, pat: Seq<(u8, bool)>, r: Result<usize, Error>)
    requires
        spec_parse_pattern(pattern) == Ok::<Seq<(u8, bool)>, Seq<char>>(pat),
        search_outcome(data, pat, r),
    ensures
        match pattern_offset(data, pattern) {
            Some(x) => r matches Ok(y) && y == x,
            None => r is Err,
        },
{
    match r {
        Ok(y) => {
            assert(first_found(data, pat, y as int));
            let x = choose|x: int| first_found(data, pat, x);
            if x < y {
                assert(found_at(data, pat, x));
            } else if y < x {
                assert(found_at(data, pat, y as int));
            }
        },
        Err(_) => {
            assert forall|x: int| !first_found(data, pat, x) by {
                if first_found(data, pat, x) {
                    assert(found_at(data, pat, x));
                }
            }
        },
    }
}

/// Scans `data` for `pattern`, returning the first matching offset.
///
/// Patterns use two-hex-digit bytes separated by spaces; `??` is a wildcard.
pub fn find_pattern(data: &[u8], pattern: &str) -> (r: Result<usize, Error>)
    requires
        pattern_parse_completes(pattern@),
    ensures
        match spec_parse_pattern(pattern@) {
            Err(m) => r matches Err(Error::Unpack(s)) && s@ == m,
            Ok(pat) => search_outcome(data@, pat, r),
        },
        match pattern_offset(data@, pattern@) {
            Some(x) => r matches Ok(y) && y == x,
            None => r is Err,
        },
{
    let r = scan(data, pattern);
    proof {
        if let Ok(pat) = spec_parse_pattern(pattern@) {
            lemma_outcome_offset(data@, pattern@, pat, r);
        }
    }
    r
}

/// The search behind `find_pattern`.
fn scan(data: &[u8], pattern: &str) -> (r: Result<usize, Error>)
    requires
        pattern_parse_completes(pattern@),
    ensures
        match spec_parse_pattern(pattern@) {
            Err(m) => r matches Err(Error::Unpack(s)) && s@ == m,
            Ok(pat) => search_outcome(data@, pat, r),
        },
{
    let pat = match Pattern::parse(pattern) {
        Ok(p) => p,
        Err(e) => return Err(e),
    };
    let ghost entries = pat.entries();
    assert(spec_parse_pattern(pattern@) == Ok::<Seq<(u8, bool)>, Seq<char>>(entries));
    let n = pat.len();
    if n == 0 || data.len() < n {
        return Err(Error::PatternNotFound);
    }
    let last = data.len() - n;
    assert(data@.len() == data.len());
    let mut x: usize = 0;
    while x <= last
        invariant
            pat.wf(),
            entries == pat.entries(),
            spec_parse_pattern(pattern@) == Ok::<Seq<(u8, bool)>, Seq<char>>(entries),
            n == entries.len(),
            n > 0,
            last + n == data@.len(),
            data@.len() <= usize::MAX,
            x <= last + 1,
            forall|y: int| 0 <= y < x ==> !#[trigger] found_at(data@, entries, y),
        decreases last + 1 - x,
    {
        let mut y: usize = 0;
        let mut ok = true;
        while y < n && ok
            invariant
                pat.wf(),
                entries == pat.entries(),
                n == entries.len(),
                x <= last,
                last + n == data@.len(),
                data@.len() <= usize::MAX,
                y <= n,
                ok ==> (forall|p: int|
                    0 <= p < y && #[trigger] entries[p].1 ==> data@[x + p] == entries[p].0),
                !ok ==> !matches_at(data@, entries, x as int),
            decreases n - y + (if ok { 1int } else { 0int }),
        {
            if pat.mask[y] && data[x + y] != pat.bytes[y] {
                ok = false;
                assert(entries[y as int].1 && data@[x + y] != entries[y as int].0);
            } else {
                y += 1;
            }
        }
        if ok {
            assert(y == n);
            assert(found_at(data@, entries, x as int));
            return Ok(x);
        }
        assert(!found_at(data@, entries, x as int));
        x += 1;
    }
    assert forall|y: int| !#[trigger] found_at(data@, entries, y) by {
        if 0 <= y && y + n <= data@.len() {
            assert(y < x);
        }
    }
    Err(Error::PatternNotFound)
}

} // verus!
