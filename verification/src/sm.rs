//! Simfile chart text: parsing chart blocks out of `.sm`/`.ssc` files,
//! generating replacement note rows, and writing chart blocks back.
//!
//! All text is handled as UTF-8 bytes; the markers this format cares
//! about are ASCII.

use vstd::prelude::*;
use vstd::string::StringSliceAdditionalSpecFns;
use crate::generator::{Generator, GenError};
use crate::params::GeneratorParameters;
use crate::style::{Style, append_str, bytes_eq};
use crate::angle::{PI_U, PI_2_U};

verus! {

/// ASCII whitespace, as `trim` treats it.
pub open spec fn is_ws(b: u8) -> bool {
    b == 32 || b == 9 || b == 10 || b == 13 || b == 11 || b == 12
}

/// Drop leading whitespace.
pub open spec fn spec_trim_front(s: Seq<u8>) -> Seq<u8>
    decreases s.len(),
{
    if s.len() > 0 && is_ws(s[0]) {
        spec_trim_front(s.drop_first())
    } else {
        s
    }
}

/// Drop trailing whitespace.
pub open spec fn spec_trim_back(s: Seq<u8>) -> Seq<u8>
    decreases s.len(),
{
    if s.len() > 0 && is_ws(s.last()) {
        spec_trim_back(s.drop_last())
    } else {
        s
    }
}

/// Trim ASCII whitespace from both ends.
pub open spec fn spec_trim(s: Seq<u8>) -> Seq<u8> {
    spec_trim_back(spec_trim_front(s))
}

proof fn lemma_trim_front_skip(s: Seq<u8>, i: int)
    requires
        0 <= i <= s.len(),
        forall|k: int| 0 <= k < i ==> is_ws(s[k]),
        i < s.len() ==> !is_ws(s[i]),
    ensures
        spec_trim_front(s) =~= s.skip(i),
    decreases i,
{
    if i == 0 {
        if s.len() > 0 {
            assert(!is_ws(s[0]));
        }
        assert(s.skip(0) =~= s);
    } else {
        assert(is_ws(s[0]));
        lemma_trim_front_skip(s.drop_first(), i - 1);
        assert(s.drop_first().skip(i - 1) =~= s.skip(i));
    }
}

proof fn lemma_trim_back_take(s: Seq<u8>, j: int)
    requires
        0 <= j <= s.len(),
        forall|k: int| j <= k < s.len() ==> is_ws(s[k]),
        j > 0 ==> !is_ws(s[j - 1]),
    ensures
        spec_trim_back(s) =~= s.take(j),
    decreases s.len() - j,
{
    if j == s.len() {
        if s.len() > 0 {
            assert(!is_ws(s.last()));
        }
        assert(s.take(j) =~= s);
    } else {
        assert(is_ws(s.last()));
        lemma_trim_back_take(s.drop_last(), j);
        assert(s.drop_last().take(j) =~= s.take(j));
    }
}

/// Whether a byte is ASCII whitespace.
fn is_ws_byte(b: u8) -> (r: bool)
    ensures
        r == is_ws(b),
{
    b == 32 || b == 9 || b == 10 || b == 13 || b == 11 || b == 12
}

/// Trim ASCII whitespace from both ends of a byte slice.
pub fn trim_bytes(s: &[u8]) -> (r: Vec<u8>)
    ensures
        r@ == spec_trim(s@),
{
    let n = s.len();
    let mut i: usize = 0;
    while i < n && is_ws_byte(s[i])
        invariant
            0 <= i <= n,
            n == s@.len(),
            forall|k: int| 0 <= k < i ==> is_ws(s@[k]),
        decreases n - i,
    {
        i = i + 1;
    }
    proof {
        lemma_trim_front_skip(s@, i as int);
    }
    let mut j: usize = n;
    while j > i && is_ws_byte(s[j - 1])
        invariant
            i <= j <= n,
            n == s@.len(),
            forall|k: int| j <= k < n ==> is_ws(s@[k]),
        decreases j,
    {
        j = j - 1;
    }
    proof {
        let front = s@.skip(i as int);
        if j == i {
            lemma_trim_back_take(front, 0);
        } else {
            lemma_trim_back_take(front, j - i);
        }
        assert(front.take(j - i) =~= s@.subrange(i as int, j as int));
    }
    let sub = vstd::slice::slice_subrange(s, i, j);
    vstd::slice::slice_to_vec(sub)
}

/// Whether the pattern occurs in `s` at position `i`.
pub open spec fn match_at(s: Seq<u8>, pat: Seq<u8>, i: int) -> bool {
    &&& 0 <= i
    &&& i + pat.len() <= s.len()
    &&& s.subrange(i, i + pat.len()) == pat
}

/// The first occurrence of `pat` in `slice` at or after `at`, if any.
pub fn find_start_at(slice: &[u8], at: usize, pat: &[u8]) -> (r: Option<usize>)
    requires
        at <= slice@.len(),
        pat@.len() >= 1,
    ensures
        match r {
            Some(i) => {
                &&& at <= i
                &&& match_at(slice@, pat@, i as int)
                &&& forall|j: int| at <= j < i ==> !match_at(slice@, pat@, j)
            },
            None => forall|j: int| at <= j ==> !match_at(slice@, pat@, j),
        },
{
    let n = slice.len();
    let m = pat.len();
    if m > n || at > n - m {
        proof {
            assert forall|j: int| at <= j implies !match_at(slice@, pat@, j) by {
                assert(j + pat@.len() > slice@.len());
            }
        }
        return None;
    }
    let mut i: usize = at;
    while i <= n - m
        invariant
            at <= i,
            i <= n - m + 1,
            n == slice@.len(),
            m == pat@.len(),
            m >= 1,
            m <= n,
            forall|j: int| at <= j < i ==> !match_at(slice@, pat@, j),
        decreases n - i,
    {
        let sub = vstd::slice::slice_subrange(slice, i, i + m);
        if bytes_eq(sub, pat) {
            return Some(i);
        }
        i = i + 1;
    }
    proof {
        assert forall|j: int| at <= j implies !match_at(slice@, pat@, j) by {
            if j < i {
            } else {
                assert(j + pat@.len() > slice@.len());
            }
        }
    }
    None
}

/// How a notation character counts toward the active columns: a press, a
/// non-press, or an unknown character.
pub open spec fn col_flag(b: u8) -> Option<bool> {
    if b == 49 || b == 50 || b == 52 || b == 76 {
        // '1' '2' '4' 'L'
        Some(true)
    } else if b == 48 || b == 51 || b == 77 || b == 70 {
        // '0' '3' 'M' 'F'
        Some(false)
    } else {
        None
    }
}

/// The indices of the pressed columns among the first `i` characters.
pub open spec fn spec_pressed(s: Seq<u8>, i: int) -> Seq<i8>
    decreases i,
{
    if i <= 0 {
        Seq::empty()
    } else if col_flag(s[i - 1]) == Some(true) {
        spec_pressed(s, i - 1).push((i - 1) as i8)
    } else {
        spec_pressed(s, i - 1)
    }
}

/// The input columns pressed in one notation row, truncated to the jump
/// limit; `None` when the row holds a character the engine does not know.
pub fn columns(s: &[u8], remove_jumps: bool) -> (r: Option<Vec<i8>>)
    requires
        s@.len() <= 127,
    ensures
        match r {
            Some(v) => {
                &&& forall|k: int| 0 <= k < s@.len()
                    ==> (#[trigger] col_flag(s@[k])) is Some
                &&& v@ == spec_pressed(s@, s@.len() as int)
                    .take(vstd::math::min(
                        spec_pressed(s@, s@.len() as int).len() as int,
                        if remove_jumps { 1int } else { 2int }))
            },
            None => exists|k: int| 0 <= k < s@.len()
                && (#[trigger] col_flag(s@[k])) is None,
        },
{
    let mut ret: Vec<i8> = Vec::new();
    let n = s.len();
    let mut i: usize = 0;
    while i < n
        invariant
            0 <= i <= n,
            n == s@.len(),
            n <= 127,
            forall|k: int| 0 <= k < i ==> (#[trigger] col_flag(s@[k])) is Some,
            ret@ == spec_pressed(s@, i as int),
        decreases n - i,
    {
        let b = s[i];
        let flag: bool = match b {
            49 | 50 | 52 | 76 => true,
            48 | 51 | 77 | 70 => false,
            _ => {
                proof {
                    assert(col_flag(s@[i as int]) is None);
                }
                return None;
            }
        };
        if flag {
            ret.push(i as i8);
        }
        i = i + 1;
    }
    let limit: usize = if remove_jumps {
        1
    } else {
        2
    };
    ret.truncate(limit);
    proof {
        let full = spec_pressed(s@, s@.len() as int);
        let lim = if remove_jumps { 1int } else { 2int };
        if limit <= full.len() {
            assert(ret@ =~= full.take(vstd::math::min(full.len() as int, lim)));
        } else {
            assert(ret@ =~= full.take(vstd::math::min(full.len() as int, lim)));
        }
    }
    Some(ret)
}

/// The first match of `pat` in `s` at or after `from`, as a function.
pub open spec fn spec_find_sub(s: Seq<u8>, pat: Seq<u8>, from: int) -> Option<int>
    decreases s.len() - from,
{
    if from < 0 || from + pat.len() > s.len() {
        None
    } else if pat.len() == 0 {
        Some(from)
    } else if s.subrange(from, from + pat.len() as int) == pat {
        Some(from)
    } else {
        spec_find_sub(s, pat, from + 1)
    }
}

/// The first-occurrence characterization determines `spec_find_sub`.
pub proof fn lemma_find_sub_agrees(s: Seq<u8>, pat: Seq<u8>, at: int, r: Option<int>)
    requires
        0 <= at <= s.len(),
        match r {
            Some(i) => at <= i && match_at(s, pat, i)
                && forall|j: int| at <= j < i ==> !match_at(s, pat, j),
            None => forall|j: int| at <= j ==> !match_at(s, pat, j),
        },
    ensures
        r == spec_find_sub(s, pat, at),
    decreases s.len() - at,
{
    if at + pat.len() > s.len() {
        if r is Some {
            assert(match_at(s, pat, r.unwrap()));
        }
    } else if pat.len() == 0 {
        assert(s.subrange(at, at) =~= pat);
        assert(match_at(s, pat, at));
        match r {
            Some(i) => {
                if i > at {
                    assert(!match_at(s, pat, at));
                }
                assert(s.subrange(i, i) =~= pat);
            }
            None => {
                assert(!match_at(s, pat, at));
            }
        }
    } else if match_at(s, pat, at) {
        match r {
            Some(i) => {
                if i > at {
                    assert(!match_at(s, pat, at));
                }
            }
            None => {
                assert(!match_at(s, pat, at));
            }
        }
    } else {
        let r2 = r;
        lemma_find_sub_agrees(s, pat, at + 1, r2);
    }
}

/// Find a pattern and return the position as `spec_find_sub` gives it.
pub fn find_sub(slice: &[u8], at: usize, pat: &[u8]) -> (r: Option<usize>)
    requires
        at <= slice@.len(),
    ensures
        match r {
            Some(i) => at <= i && i + pat@.len() <= slice@.len()
                && Some(i as int) == spec_find_sub(slice@, pat@, at as int),
            None => spec_find_sub(slice@, pat@, at as int) is None,
        },
{
    if pat.len() == 0 {
        proof {
            assert(slice@.subrange(at as int, at as int) =~= pat@);
        }
        return Some(at);
    }
    let r = find_start_at(slice, at, pat);
    proof {
        match r {
            Some(i) => {
                lemma_find_sub_agrees(slice@, pat@, at as int, Some(i as int));
            }
            None => {
                lemma_find_sub_agrees(slice@, pat@, at as int, None);
            }
        }
    }
    r
}

/// A line with any comment tail removed: everything before the first
/// comment marker.
pub open spec fn spec_strip_comment(l: Seq<u8>) -> Seq<u8> {
    match spec_find_sub(l, "//".spec_bytes(), 0) {
        Some(i) => l.take(i),
        None => l,
    }
}

/// A cleaned line: comment removed, then whitespace trimmed.
pub open spec fn spec_clean_line(l: Seq<u8>) -> Seq<u8> {
    spec_trim(spec_strip_comment(l))
}

/// Strip a comment tail and trim one line.
pub fn clean_line(l: &[u8]) -> (r: Vec<u8>)
    ensures
        r@ == spec_clean_line(l@),
{
    let stripped: &[u8] = match find_sub(l, 0, "//".as_bytes()) {
        Some(i) => vstd::slice::slice_subrange(l, 0, i),
        None => l,
    };
    proof {
        assert(stripped@ == spec_strip_comment(l@));
    }
    trim_bytes(stripped)
}

/// The cleaned, non-empty lines of a chart text, from position `pos` on:
/// split at newlines, strip comments, trim, and drop blank lines.
pub open spec fn spec_lines_from(s: Seq<u8>, pos: int) -> Seq<Seq<u8>>
    decreases s.len() - pos,
{
    if pos < 0 || pos >= s.len() {
        Seq::empty()
    } else {
        match spec_find_sub(s, "\n".spec_bytes(), pos) {
            Some(i) => {
                let line = spec_clean_line(s.subrange(pos, i));
                let nx = if i + 1 > pos { i + 1 } else { pos + 1 };
                let next = if nx > s.len() { s.len() as int } else { nx };
                let rest = spec_lines_from(s, next);
                if line.len() > 0 {
                    seq![line] + rest
                } else {
                    rest
                }
            },
            None => {
                let line = spec_clean_line(s.subrange(pos, s.len() as int));
                if line.len() > 0 {
                    seq![line]
                } else {
                    Seq::empty()
                }
            },
        }
    }
}

/// The cleaned, non-empty lines of a chart text.
pub open spec fn spec_to_lines(s: Seq<u8>) -> Seq<Seq<u8>> {
    spec_lines_from(s, 0)
}

/// The newline marker is a single byte.
proof fn lemma_nl_bytes()
    ensures
        "\n".spec_bytes().len() == 1,
{
    reveal_strlit("\n");
    assert(vstd::string::is_ascii("\n"));
    vstd::string::is_ascii_spec_bytes("\n");
}

/// Split a chart text into cleaned, non-empty lines.
pub fn to_lines(s: &[u8]) -> (r: Vec<Vec<u8>>)
    ensures
        r@.map_values(|v: Vec<u8>| v@) == spec_to_lines(s@),
{
    let n = s.len();
    let mut out: Vec<Vec<u8>> = Vec::new();
    let mut pos: usize = 0;
    let mut running = true;
    while running
        invariant
            0 <= pos <= n,
            n == s@.len(),
            running ==> out@.map_values(|v: Vec<u8>| v@) + spec_lines_from(s@, pos as int)
                == spec_to_lines(s@),
            !running ==> out@.map_values(|v: Vec<u8>| v@) == spec_to_lines(s@),
        decreases n - pos + (if running { 1int } else { 0int }),
    {
        let ghost out0 = out@;
        proof {
            lemma_nl_bytes();
        }
        match find_sub(s, pos, "\n".as_bytes()) {
            Some(i) => {
                proof {
                    assert(i < n);
                }
                let line = clean_line(vstd::slice::slice_subrange(s, pos, i));
                let nonempty = line.len() > 0;
                if nonempty {
                    out.push(line);
                }
                proof {
                    if nonempty {
                        assert(out@.map_values(|v: Vec<u8>| v@)
                            =~= out0.map_values(|v: Vec<u8>| v@)
                                + seq![spec_clean_line(s@.subrange(pos as int, i as int))]);
                        assert(out0.map_values(|v: Vec<u8>| v@)
                            + (seq![spec_clean_line(s@.subrange(pos as int, i as int))]
                                + spec_lines_from(s@, i + 1))
                            =~= out@.map_values(|v: Vec<u8>| v@)
                                + spec_lines_from(s@, i + 1));
                    }
                }
                pos = i + 1;
            }
            None => {
                let line = clean_line(vstd::slice::slice_subrange(s, pos, n));
                if line.len() > 0 {
                    out.push(line);
                    proof {
                        assert(out@.map_values(|v: Vec<u8>| v@)
                            =~= out0.map_values(|v: Vec<u8>| v@)
                                + seq![spec_clean_line(s@.subrange(pos as int, n as int))]);
                    }
                }
                running = false;
            }
        }
    }
    out
}

/// One chart block of a simfile: its style name, description, difficulty
/// slot, numeric level, and raw note rows.
pub struct SMChart {
    pub style: Vec<u8>,
    pub description: Vec<u8>,
    pub difficulty: Vec<u8>,
    pub level: i32,
    pub notes_lines: Vec<Vec<u8>>,
}

/// Whether a byte sequence starts with the given prefix.
pub open spec fn starts_with(s: Seq<u8>, p: Seq<u8>) -> bool {
    s.len() >= p.len() && s.take(p.len() as int) == p
}

/// Whether a slice starts with a prefix, byte for byte.
pub fn starts_with_bytes(s: &[u8], p: &[u8]) -> (r: bool)
    ensures
        r == starts_with(s@, p@),
{
    if s.len() < p.len() {
        return false;
    }
    let head = vstd::slice::slice_subrange(s, 0, p.len());
    bytes_eq(head, p)
}

impl SMChart {
    /// Whether this chart's description marks it as one of this tool's
    /// own generated charts.
    pub fn is_autogen(&self) -> (r: bool)
        ensures
            r == (starts_with(self.description@, "AYEAG".spec_bytes())
                || starts_with(self.description@, "AUTO".spec_bytes())),
    {
        starts_with_bytes(self.description.as_slice(), "AYEAG".as_bytes())
            || starts_with_bytes(self.description.as_slice(), "AUTO".as_bytes())
    }
}

/// One step of the 64-bit FNV-1a fold: xor the byte in, multiply by the
/// FNV prime, truncated to 64 bits.
pub open spec fn spec_fnv_step(h: u64, b: u8) -> u64 {
    (((h ^ (b as u64)) as u128) * 0x100000001b3) as u64
}

/// FNV-1a folded over a byte sequence.
pub open spec fn spec_fnv_bytes(h: u64, s: Seq<u8>) -> u64
    decreases s.len(),
{
    if s.len() == 0 {
        h
    } else {
        spec_fnv_bytes(spec_fnv_step(h, s[0]), s.drop_first())
    }
}

/// FNV-1a folded over a sequence of lines, a newline after each line.
pub open spec fn spec_fnv_lines(h: u64, lines: Seq<Seq<u8>>) -> u64
    decreases lines.len(),
{
    if lines.len() == 0 {
        h
    } else {
        spec_fnv_lines(spec_fnv_step(spec_fnv_bytes(h, lines[0]), 10), lines.drop_first())
    }
}

fn fnv_step(h: u64, b: u8) -> (r: u64)
    ensures
        r == spec_fnv_step(h, b),
{
    let x = h ^ (b as u64);
    let p = (x as u128) * 0x100000001b3;
    let r = #[verifier::truncate] (p as u64);
    r
}

/// The deterministic content hash of a chart's note rows: a 64-bit
/// FNV-1a fold over the rows with a newline after each.  Used to derive
/// a reproducible seed when none is given.
pub fn chart_hash(chart: &SMChart) -> (r: u64)
    ensures
        r == spec_fnv_lines(0xcbf29ce484222325u64,
            chart.notes_lines@.map_values(|v: Vec<u8>| v@)),
{
    let mut h: u64 = 0xcbf29ce484222325;
    let ghost lines = chart.notes_lines@.map_values(|v: Vec<u8>| v@);
    proof {
        assert(lines.skip(0) =~= lines);
    }
    let mut i: usize = 0;
    while i < chart.notes_lines.len()
        invariant
            0 <= i <= chart.notes_lines@.len(),
            lines == chart.notes_lines@.map_values(|v: Vec<u8>| v@),
            spec_fnv_lines(h, lines.skip(i as int))
                == spec_fnv_lines(0xcbf29ce484222325u64, lines),
        decreases chart.notes_lines@.len() - i,
    {
        let line = &chart.notes_lines[i];
        let ghost lv = line@;
        let ghost h0 = h;
        proof {
            assert(lv.skip(0) =~= lv);
        }
        let mut j: usize = 0;
        while j < line.len()
            invariant
                0 <= j <= lv.len(),
                lv == line@,
                spec_fnv_bytes(h, lv.skip(j as int)) == spec_fnv_bytes(h0, lv),
            decreases lv.len() - j,
        {
            proof {
                assert(lv.skip(j as int).drop_first() =~= lv.skip(j as int + 1));
            }
            h = fnv_step(h, line[j]);
            j = j + 1;
        }
        h = fnv_step(h, 10);
        proof {
            assert(lines.skip(i as int).drop_first() =~= lines.skip(i as int + 1));
            assert(lines.skip(i as int)[0] == lv);
        }
        i = i + 1;
    }
    h
}

/// The decimal digits of a nonnegative number.
pub open spec fn spec_dec(n: int) -> Seq<u8>
    decreases n,
{
    if n < 10 {
        seq![(48 + if n >= 0 { n } else { 0 }) as u8]
    } else {
        spec_dec(n / 10).push((48 + n % 10) as u8)
    }
}

/// Append the decimal digits of `n`.
fn push_dec(n: u64, out: &mut Vec<u8>)
    ensures
        final(out)@ == old(out)@ + spec_dec(n as int),
    decreases n,
{
    if n < 10 {
        out.push(48 + n as u8);
        proof {
            assert(final(out)@ =~= old(out)@ + spec_dec(n as int));
        }
    } else {
        push_dec(n / 10, out);
        out.push(48 + (n % 10) as u8);
        proof {
            assert(final(out)@ =~= old(out)@ + spec_dec(n as int));
        }
    }
}

/// The decimal rendering of a signed number.
pub open spec fn spec_dec_i32(n: int) -> Seq<u8> {
    if n < 0 {
        seq![45u8] + spec_dec(-n)
    } else {
        spec_dec(n)
    }
}

/// Append the decimal rendering of a signed level number.
pub fn push_dec_i32(n: i32, out: &mut Vec<u8>)
    ensures
        final(out)@ == old(out)@ + spec_dec_i32(n as int),
{
    if n < 0 {
        out.push(45);
        let m = (-(n as i64)) as u64;
        push_dec(m, out);
        proof {
            assert(final(out)@ =~= old(out)@ + spec_dec_i32(n as int));
        }
    } else {
        push_dec(n as u64, out);
    }
}

/// Parse an optionally signed decimal integer, mirroring digit-by-digit
/// accumulation with an explicit out-of-range failure.
pub open spec fn spec_parse_digits(s: Seq<u8>, i: int, acc: int) -> Option<int>
    decreases s.len() - i,
{
    if i < 0 || i >= s.len() {
        Some(acc)
    } else if 48 <= s[i] <= 57 {
        let acc2 = acc * 10 + (s[i] - 48);
        if acc2 > 0x8000_0000 {
            None
        } else {
            spec_parse_digits(s, i + 1, acc2)
        }
    } else {
        None
    }
}

/// Where the digits of a signed decimal start.
pub open spec fn spec_parse_start(s: Seq<u8>) -> int {
    if s.len() > 0 && (s[0] == 45 || s[0] == 43) {
        1
    } else {
        0
    }
}

/// Whether a signed decimal is negative.
pub open spec fn spec_parse_neg(s: Seq<u8>) -> bool {
    s.len() > 0 && s[0] == 45
}

/// The `i32` a byte string denotes, if it is a well-formed, in-range,
/// optionally signed decimal number.
pub open spec fn spec_parse_i32(s: Seq<u8>) -> Option<i32> {
    let neg = spec_parse_neg(s);
    let start = spec_parse_start(s);
    if s.len() <= start {
        None
    } else {
        match spec_parse_digits(s, start, 0) {
            Some(v) => {
                if neg {
                    if -v >= -0x8000_0000 {
                        Some((-v) as i32)
                    } else {
                        None
                    }
                } else {
                    if v <= 0x7fff_ffff {
                        Some(v as i32)
                    } else {
                        None
                    }
                }
            },
            None => None,
        }
    }
}

/// Parse a level number.
pub fn parse_i32(s: &[u8]) -> (r: Option<i32>)
    ensures
        r == spec_parse_i32(s@),
{
    let n = s.len();
    let (neg, start): (bool, usize) = if n > 0 && s[0] == 45 {
        (true, 1)
    } else if n > 0 && s[0] == 43 {
        (false, 1)
    } else {
        (false, 0)
    };
    if n <= start {
        return None;
    }
    let mut acc: u64 = 0;
    let mut i: usize = start;
    while i < n
        invariant
            start <= i <= n,
            start < n,
            n == s@.len(),
            start as int == spec_parse_start(s@),
            neg == spec_parse_neg(s@),
            acc <= 0x8000_0000,
            spec_parse_digits(s@, i as int, acc as int)
                == spec_parse_digits(s@, start as int, 0),
        decreases n - i,
    {
        let b = s[i];
        if b < 48 || b > 57 {
            proof {
                assert(spec_parse_digits(s@, start as int, 0) is None);
                assert(spec_parse_i32(s@) is None);
            }
            return None;
        }
        let acc2 = acc * 10 + ((b - 48) as u64);
        if acc2 > 0x8000_0000 {
            proof {
                assert(spec_parse_digits(s@, start as int, 0) is None);
                assert(spec_parse_i32(s@) is None);
            }
            return None;
        }
        acc = acc2;
        i = i + 1;
    }
    if neg {
        Some((-(acc as i64)) as i32)
    } else {
        if acc > 0x7fff_ffff {
            None
        } else {
            Some(acc as i32)
        }
    }
}


/// Whether `pat` occurs anywhere in `s`.
pub open spec fn contains_sub(s: Seq<u8>, pat: Seq<u8>) -> bool {
    spec_find_sub(s, pat, 0) is Some
}

/// Whether a pattern occurs anywhere in a slice.
pub fn contains_bytes(s: &[u8], pat: &[u8]) -> (r: bool)
    ensures
        r == contains_sub(s@, pat@),
{
    find_sub(s, 0, pat).is_some()
}

/// The compact marker of the parameters a chart was generated with:
/// `P` preserves input repetitions, `F` allows footswitches, `C` marks a
/// crossover-permitting maximum angle and `C+` a fully open one.
pub open spec fn spec_params_str(params: GeneratorParameters) -> Seq<u8> {
    (if params.preserve_input_repetitions is Some {
        "P".spec_bytes()
    } else {
        Seq::empty()
    }) + (if !params.disallow_footswitch {
        "F".spec_bytes()
    } else {
        Seq::empty()
    }) + (match params.max_angle {
        Some(ma) => if ma > PI_2_U {
            "C".spec_bytes() + (if ma >= PI_U {
                "+".spec_bytes()
            } else {
                Seq::empty()
            })
        } else {
            Seq::empty()
        },
        None => Seq::empty(),
    })
}

/// Render the parameter marker.
pub fn params_str(params: &GeneratorParameters) -> (r: Vec<u8>)
    ensures
        r@ == spec_params_str(*params),
{
    let mut r: Vec<u8> = Vec::new();
    if params.preserve_input_repetitions.is_some() {
        append_str(&mut r, "P");
    }
    if !params.disallow_footswitch {
        append_str(&mut r, "F");
    }
    if let Some(ma) = params.max_angle {
        if ma > PI_2_U {
            append_str(&mut r, "C");
            if ma >= PI_U {
                append_str(&mut r, "+");
            }
        }
    }
    proof {
        assert(r@ =~= spec_params_str(*params));
    }
    r
}

/// The description line written into a generated chart: the generator
/// tag, the parameter marker, optionally the source difficulty initial,
/// then any extra description and the source chart's own description.
pub open spec fn spec_write_description(chart_difficulty: Seq<u8>, chart_description: Seq<u8>,
    params: GeneratorParameters, extra: Option<Seq<u8>>, from_difficulty: bool) -> Seq<u8> {
    let ps = spec_params_str(params);
    "AYEAG".spec_bytes()
    + (if ps.len() > 0 {
        "(".spec_bytes() + ps + ")".spec_bytes()
    } else {
        Seq::empty()
    })
    + (if from_difficulty && chart_difficulty.len() > 0 {
        "[".spec_bytes() + seq![chart_difficulty[0]] + "]".spec_bytes()
    } else {
        Seq::empty()
    })
    + (match extra {
        Some(e) => " - ".spec_bytes() + e,
        None => Seq::empty(),
    })
    + (if chart_description.len() > 0 {
        " - ".spec_bytes() + chart_description
    } else {
        Seq::empty()
    })
}

/// Render the description line for a generated chart.
#[verifier::rlimit(100)]
#[verifier::spinoff_prover]
pub fn write_description(chart: &SMChart, params: &GeneratorParameters,
    extra_description: Option<&Vec<u8>>, should_write_from_difficulty: bool) -> (r: Vec<u8>)
    ensures
        r@ == spec_write_description(chart.difficulty@, chart.description@, *params,
            match extra_description {
                Some(e) => Some(e@),
                None => None,
            }, should_write_from_difficulty),
{
    let mut r: Vec<u8> = Vec::new();
    append_str(&mut r, "AYEAG");
    let ps = params_str(params);
    if ps.len() > 0 {
        append_str(&mut r, "(");
        r.extend_from_slice(ps.as_slice());
        append_str(&mut r, ")");
    }
    if should_write_from_difficulty {
        if chart.difficulty.len() > 0 {
            append_str(&mut r, "[");
            r.push(chart.difficulty[0]);
            append_str(&mut r, "]");
        }
    }
    if let Some(extra) = extra_description {
        append_str(&mut r, " - ");
        r.extend_from_slice(extra.as_slice());
    }
    if chart.description.len() > 0 {
        append_str(&mut r, " - ");
        r.extend_from_slice(chart.description.as_slice());
    }
    proof {
        assert(r@ =~= spec_write_description(chart.difficulty@, chart.description@, *params,
            match extra_description {
                Some(e) => Some(e@),
                None => None,
            }, should_write_from_difficulty));
    }
    r
}

/// The text of one generated `.sm` chart block, as `write_sm_chart`
/// renders it for chart `c` and generated note rows `notes`.
pub open spec fn spec_sm_chart_out(c: SMChart, to_style: Style, params: GeneratorParameters,
    extra: Option<Seq<u8>>, swfd: bool, edit: bool, notes: Seq<u8>) -> Seq<u8> {
    "#NOTES:\n     ".spec_bytes() + to_style.spec_sm_string()
        + ":\n     ".spec_bytes()
        + spec_write_description(c.difficulty@, c.description@, params, extra, swfd)
        + ":\n     ".spec_bytes()
        + (if edit { "Edit".spec_bytes() } else { c.difficulty@ })
        + ":\n     ".spec_bytes() + spec_dec_i32(c.level as int)
        + ":\n     :\n".spec_bytes() + notes
}

/// The text of one generated `.ssc` chart block, as `write_ssc_chart`
/// renders it.
pub open spec fn spec_ssc_chart_out(c: SMChart, to_style: Style, params: GeneratorParameters,
    extra: Option<Seq<u8>>, swfd: bool, edit: bool, notes: Seq<u8>) -> Seq<u8> {
    "#NOTEDATA:;\n#STEPSTYPE:".spec_bytes() + to_style.spec_sm_string()
        + ";\n#DESCRIPTION:".spec_bytes()
        + spec_write_description(c.difficulty@, c.description@, params, extra, swfd)
        + ";\n#DIFFICULTY:".spec_bytes()
        + (if edit { "Edit".spec_bytes() } else { c.difficulty@ })
        + ";\n#METER:".spec_bytes() + spec_dec_i32(c.level as int)
        + ";\n#NOTES:\n".spec_bytes() + notes + ";\n".spec_bytes()
}

/// A chart block rendered for the requested notation.
pub open spec fn spec_chart_out(c: SMChart, to_style: Style, params: GeneratorParameters,
    extra: Option<Seq<u8>>, swfd: bool, edit: bool, is_ssc: bool, notes: Seq<u8>) -> Seq<u8> {
    if is_ssc {
        spec_ssc_chart_out(c, to_style, params, extra, swfd, edit, notes)
    } else {
        spec_sm_chart_out(c, to_style, params, extra, swfd, edit, notes)
    }
}

/// The concatenation of a list of byte strings.
pub open spec fn spec_concat(ss: Seq<Seq<u8>>) -> Seq<u8>
    decreases ss.len(),
{
    if ss.len() == 0 {
        Seq::empty()
    } else {
        ss[0] + spec_concat(ss.drop_first())
    }
}

proof fn lemma_concat_push(ss: Seq<Seq<u8>>, x: Seq<u8>)
    ensures
        spec_concat(ss.push(x)) =~= spec_concat(ss) + x,
    decreases ss.len(),
{
    if ss.len() == 0 {
        assert(ss.push(x)[0] == x);
        assert(ss.push(x).drop_first() =~= Seq::<Seq<u8>>::empty());
        assert(spec_concat(Seq::<Seq<u8>>::empty()) =~= Seq::<u8>::empty());
        assert(x + Seq::<u8>::empty() =~= x);
        assert(Seq::<u8>::empty() + x =~= x);
    } else {
        assert(ss.push(x)[0] == ss[0]);
        assert(ss.push(x).drop_first() =~= ss.drop_first().push(x));
        lemma_concat_push(ss.drop_first(), x);
        assert(ss[0] + (spec_concat(ss.drop_first()) + x)
            =~= (ss[0] + spec_concat(ss.drop_first())) + x);
    }
}

/// A generated chart block in `.sm` notation.
pub fn write_sm_chart(chart: &SMChart, to_style: Style, params: &GeneratorParameters,
    edit: bool, extra_description: Option<&Vec<u8>>, should_write_from_difficulty: bool,
    generated_notes: &[u8]) -> (r: Vec<u8>)
    ensures
        r@ == spec_sm_chart_out(*chart, to_style, *params,
            match extra_description {
                Some(e) => Some(e@),
                None => None,
            }, should_write_from_difficulty, edit, generated_notes@),
{
    let mut r: Vec<u8> = Vec::new();
    append_str(&mut r, "#NOTES:\n     ");
    append_str(&mut r, to_style.sm_string());
    append_str(&mut r, ":\n     ");
    let desc = write_description(chart, params, extra_description, should_write_from_difficulty);
    r.extend_from_slice(desc.as_slice());
    append_str(&mut r, ":\n     ");
    if edit {
        append_str(&mut r, "Edit");
    } else {
        r.extend_from_slice(chart.difficulty.as_slice());
    }
    append_str(&mut r, ":\n     ");
    push_dec_i32(chart.level, &mut r);
    append_str(&mut r, ":\n     :\n");
    r.extend_from_slice(generated_notes);
    proof {
        assert(r@ =~= spec_sm_chart_out(*chart, to_style, *params,
            match extra_description {
                Some(e) => Some(e@),
                None => None,
            }, should_write_from_difficulty, edit, generated_notes@));
    }
    r
}

/// A generated chart block in `.ssc` notation.
pub fn write_ssc_chart(chart: &SMChart, to_style: Style, params: &GeneratorParameters,
    edit: bool, extra_description: Option<&Vec<u8>>, should_write_from_difficulty: bool,
    generated_notes: &[u8]) -> (r: Vec<u8>)
    ensures
        r@ == spec_ssc_chart_out(*chart, to_style, *params,
            match extra_description {
                Some(e) => Some(e@),
                None => None,
            }, should_write_from_difficulty, edit, generated_notes@),
{
    let mut r: Vec<u8> = Vec::new();
    append_str(&mut r, "#NOTEDATA:;\n#STEPSTYPE:");
    append_str(&mut r, to_style.sm_string());
    append_str(&mut r, ";\n#DESCRIPTION:");
    let desc = write_description(chart, params, extra_description, should_write_from_difficulty);
    r.extend_from_slice(desc.as_slice());
    append_str(&mut r, ";\n#DIFFICULTY:");
    if edit {
        append_str(&mut r, "Edit");
    } else {
        r.extend_from_slice(chart.difficulty.as_slice());
    }
    append_str(&mut r, ";\n#METER:");
    push_dec_i32(chart.level, &mut r);
    append_str(&mut r, ";\n#NOTES:\n");
    r.extend_from_slice(generated_notes);
    append_str(&mut r, ";\n");
    proof {
        assert(r@ =~= spec_ssc_chart_out(*chart, to_style, *params,
            match extra_description {
                Some(e) => Some(e@),
                None => None,
            }, should_write_from_difficulty, edit, generated_notes@));
    }
    r
}

/// One output notation row: a `1` in every physical column lit by one of
/// the chosen logical columns, `0` elsewhere, padded on both sides.
pub fn row_notes(cols: &[i8], style: Style) -> (r: Vec<u8>)
    requires
        forall|i: int| 0 <= i < cols@.len()
            ==> 0 <= #[trigger] cols@[i] < style.spec_num_cols(),
    ensures
        r@.len() == style.spec_num_cols() + 2 * style.spec_extra_0s(),
        forall|k: int| 0 <= k < r@.len() ==> (r@[k] == 48 || r@[k] == 49),
        forall|k: int| 0 <= k < style.spec_extra_0s() ==> r@[k] == 48,
        forall|k: int| style.spec_extra_0s() + style.spec_num_cols() <= k < r@.len()
            ==> r@[k] == 48,
        forall|m: int| 0 <= m < style.spec_num_cols() ==> (
            (#[trigger] r@[style.spec_extra_0s() + m] == 49) <==> exists|i: int, j: int|
                0 <= i < cols@.len()
                && 0 <= j < style.spec_sm_cols_for_col(cols@[i] as int).len()
                && #[trigger] style.spec_sm_cols_for_col(cols@[i] as int)[j] == m),
{
    let n = style.num_cols() as usize;
    let extra = style.extra_0s();
    let mut row: Vec<u8> = vec![48u8; n];
    let mut i: usize = 0;
    while i < cols.len()
        invariant
            0 <= i <= cols@.len(),
            row@.len() == style.spec_num_cols(),
            n == style.spec_num_cols(),
            forall|idx: int| 0 <= idx < cols@.len()
                ==> 0 <= #[trigger] cols@[idx] < style.spec_num_cols(),
            forall|k: int| 0 <= k < row@.len() ==> (row@[k] == 48 || row@[k] == 49),
            forall|m: int| 0 <= m < row@.len() ==> (
                (row@[m] == 49) <==> exists|a: int, j: int|
                    0 <= a < i
                    && 0 <= j < style.spec_sm_cols_for_col(cols@[a] as int).len()
                    && #[trigger] style.spec_sm_cols_for_col(cols@[a] as int)[j] == m),
        decreases cols@.len() - i,
    {
        let sm_cols = style.sm_cols_for_col(cols[i]);
        let ghost row0 = row@;
        let mut j: usize = 0;
        while j < sm_cols.len()
            invariant
                0 <= j <= sm_cols@.len(),
                0 <= i < cols@.len(),
                sm_cols@ == style.spec_sm_cols_for_col(cols@[i as int] as int),
                row@.len() == style.spec_num_cols(),
                forall|e: int| 0 <= e < sm_cols@.len()
                    ==> 0 <= #[trigger] sm_cols@[e] < style.spec_num_cols(),
                forall|k: int| 0 <= k < row@.len() ==> (row@[k] == 48 || row@[k] == 49),
                forall|m: int| 0 <= m < row@.len() ==> (
                    ((#[trigger] row@[m]) == 49) <==> (row0[m] == 49 || exists|e: int|
                        0 <= e < j && #[trigger] sm_cols@[e] == m)),
                forall|m: int| 0 <= m < row@.len() ==> (
                    (row0[m] == 49) <==> exists|a: int, jj: int|
                        0 <= a < i
                        && 0 <= jj < style.spec_sm_cols_for_col(cols@[a] as int).len()
                        && #[trigger] style.spec_sm_cols_for_col(cols@[a] as int)[jj] == m),
            decreases sm_cols@.len() - j,
        {
            let c = sm_cols[j] as usize;
            let ghost rowprev = row@;
            row[c] = 49;
            proof {
                assert forall|m: int| 0 <= m < row@.len() implies (
                    ((#[trigger] row@[m]) == 49) <==> (row0[m] == 49 || exists|e: int|
                        0 <= e < j + 1 && #[trigger] sm_cols@[e] == m)) by {
                    if m == c as int {
                        assert(sm_cols@[j as int] == m);
                        assert(row@[m] == 49);
                    } else {
                        assert(row@[m] == rowprev[m]);
                        if rowprev[m] == 49 {
                            if row0[m] == 49 {
                            } else {
                                assert(exists|e: int| 0 <= e < j
                                    && #[trigger] sm_cols@[e] == m);
                                let e0 = choose|e: int| 0 <= e < j
                                    && #[trigger] sm_cols@[e] == m;
                                assert(0 <= e0 < j + 1 && sm_cols@[e0] == m);
                            }
                        } else {
                            assert(row0[m] != 49);
                            if exists|e: int| 0 <= e < j + 1
                                && #[trigger] sm_cols@[e] == m {
                                let e0 = choose|e: int| 0 <= e < j + 1
                                    && #[trigger] sm_cols@[e] == m;
                                if e0 == j {
                                    assert(sm_cols@[j as int] == m);
                                    assert(m == c as int);
                                    assert(false);
                                } else {
                                    assert(exists|e: int| 0 <= e < j
                                        && #[trigger] sm_cols@[e] == m);
                                    assert(rowprev[m] == 49);
                                    assert(false);
                                }
                            }
                        }
                    }
                }
            }
            j = j + 1;
        }
        proof {
            assert forall|m: int| 0 <= m < row@.len() implies (
                (row@[m] == 49) <==> exists|a: int, jj: int|
                    0 <= a < i + 1
                    && 0 <= jj < style.spec_sm_cols_for_col(cols@[a] as int).len()
                    && #[trigger] style.spec_sm_cols_for_col(cols@[a] as int)[jj] == m) by {
                if row@[m] == 49 {
                    if row0[m] == 49 {
                    } else {
                        let e = choose|e: int| 0 <= e < sm_cols@.len()
                            && sm_cols@[e] == m;
                        assert(style.spec_sm_cols_for_col(cols@[i as int] as int)[e] == m);
                    }
                } else {
                    if exists|a: int, jj: int| 0 <= a < i + 1
                        && 0 <= jj < style.spec_sm_cols_for_col(cols@[a] as int).len()
                        && #[trigger] style.spec_sm_cols_for_col(cols@[a] as int)[jj] == m {
                        let (a, jj) = choose|a: int, jj: int| 0 <= a < i + 1
                            && 0 <= jj < style.spec_sm_cols_for_col(cols@[a] as int).len()
                            && #[trigger] style.spec_sm_cols_for_col(cols@[a] as int)[jj] == m;
                        if a < i {
                            assert(row0[m] == 49);
                        } else {
                            assert(sm_cols@[jj] == m);
                            assert(row@[m] == 49);
                        }
                    }
                }
            }
        }
        i = i + 1;
    }
    let mut r: Vec<u8> = Vec::new();
    let mut k: usize = 0;
    while k < extra
        invariant
            0 <= k <= extra,
            r@.len() == k,
            forall|m: int| 0 <= m < r@.len() ==> r@[m] == 48,
        decreases extra - k,
    {
        r.push(48);
        k = k + 1;
    }
    r.extend_from_slice(row.as_slice());
    let mut k2: usize = 0;
    let ghost mid = r@;
    while k2 < extra
        invariant
            0 <= k2 <= extra,
            r@ == mid + Seq::new(k2 as nat, |x: int| 48u8),
        decreases extra - k2,
    {
        r.push(48);
        proof {
            assert(r@ =~= mid + Seq::new(k2 as nat + 1, |x: int| 48u8));
        }
        k2 = k2 + 1;
    }
    r
}

/// The bytes of `s[..i]` that are not colons.
pub open spec fn spec_no_colons(s: Seq<u8>, i: int) -> Seq<u8>
    decreases i,
{
    if i <= 0 {
        Seq::empty()
    } else if s[i - 1] == 58 {
        spec_no_colons(s, i - 1)
    } else {
        spec_no_colons(s, i - 1).push(s[i - 1])
    }
}

/// Remove every colon from a line.
fn remove_colons(s: &[u8]) -> (r: Vec<u8>)
    ensures
        r@ == spec_no_colons(s@, s@.len() as int),
{
    let mut r: Vec<u8> = Vec::new();
    let n = s.len();
    let mut i: usize = 0;
    while i < n
        invariant
            0 <= i <= n,
            n == s@.len(),
            r@ == spec_no_colons(s@, i as int),
        decreases n - i,
    {
        let b = s[i];
        if b != 58 {
            r.push(b);
        }
        i = i + 1;
    }
    r
}

/// Whether a parsed chart is exactly what one `.sm` block of text holds:
/// six metadata lines (the `#NOTES:` marker, then style, description and
/// difficulty each ending in a stripped colon, the numeric level, and one
/// ignored line), then the note rows.
pub open spec fn chart_matches_sm_block(c: SMChart, block: Seq<u8>) -> bool {
    let lines = spec_to_lines(block);
    &&& lines.len() >= 6
    &&& lines[0] == "#NOTES:".spec_bytes()
    &&& lines[1].len() > 0 && lines[1].last() == 58
        && c.style@ == lines[1].drop_last()
    &&& lines[2].len() > 0 && lines[2].last() == 58
        && c.description@ == lines[2].drop_last()
    &&& lines[3].len() > 0 && lines[3].last() == 58
        && c.difficulty@ == lines[3].drop_last()
    &&& Some(c.level) == spec_parse_i32(
        spec_no_colons(lines[4], lines[4].len() as int))
    &&& c.notes_lines@.len() == lines.len() - 6
    &&& forall|k: int| 0 <= k < c.notes_lines@.len()
        ==> (#[trigger] c.notes_lines@[k])@ == lines[6 + k]
}

/// Parse one `.sm` chart block, exactly as `chart_matches_sm_block`
/// describes.
pub fn parse_sm_chart(contents: &[u8]) -> (r: Result<SMChart, Vec<u8>>)
    ensures
        ({
            let lines = spec_to_lines(contents@);
            match r {
                Ok(c) => chart_matches_sm_block(c, contents@),
                Err(_) => {
                    ||| lines.len() < 6
                    ||| lines[0] != "#NOTES:".spec_bytes()
                    ||| spec_parse_i32(spec_no_colons(lines[4], lines[4].len() as int))
                        is None
                    ||| !(lines[1].len() > 0 && lines[1].last() == 58)
                    ||| !(lines[2].len() > 0 && lines[2].last() == 58)
                    ||| !(lines[3].len() > 0 && lines[3].last() == 58)
                },
            }
        }),
{
    let lines = to_lines(contents);
    proof {
        assert(lines@.map_values(|v: Vec<u8>| v@) == spec_to_lines(contents@));
    }
    if lines.len() < 6 {
        let mut e: Vec<u8> = Vec::new();
        append_str(&mut e, "invalid metadata");
        return Err(e);
    }
    proof {
        assert(lines@[0]@ == spec_to_lines(contents@)[0]);
        assert(lines@[1]@ == spec_to_lines(contents@)[1]);
        assert(lines@[2]@ == spec_to_lines(contents@)[2]);
        assert(lines@[3]@ == spec_to_lines(contents@)[3]);
        assert(lines@[4]@ == spec_to_lines(contents@)[4]);
    }
    if !bytes_eq(lines[0].as_slice(), "#NOTES:".as_bytes()) {
        let mut e: Vec<u8> = Vec::new();
        append_str(&mut e, "expected '#NOTES:', got '");
        e.extend_from_slice(lines[0].as_slice());
        append_str(&mut e, "'");
        return Err(e);
    }
    let level_digits = remove_colons(lines[4].as_slice());
    let level = match parse_i32(level_digits.as_slice()) {
        Some(v) => v,
        None => {
            let mut e: Vec<u8> = Vec::new();
            append_str(&mut e, "Couldn't parse difficulty: invalid number");
            return Err(e);
        }
    };
    let mut style = vstd::slice::slice_to_vec(lines[1].as_slice());
    let last_s = style.pop();
    if !matches!(last_s, Some(58)) {
        let mut e: Vec<u8> = Vec::new();
        append_str(&mut e, "Invalid style");
        return Err(e);
    }
    let mut description = vstd::slice::slice_to_vec(lines[2].as_slice());
    let last_d = description.pop();
    if !matches!(last_d, Some(58)) {
        let mut e: Vec<u8> = Vec::new();
        append_str(&mut e, "Invalid description");
        return Err(e);
    }
    let mut difficulty = vstd::slice::slice_to_vec(lines[3].as_slice());
    let last_f = difficulty.pop();
    if !matches!(last_f, Some(58)) {
        let mut e: Vec<u8> = Vec::new();
        append_str(&mut e, "Invalid difficulty");
        return Err(e);
    }
    let mut notes_lines: Vec<Vec<u8>> = Vec::new();
    let mut i: usize = 6;
    while i < lines.len()
        invariant
            6 <= i <= lines@.len(),
            notes_lines@.len() == i - 6,
            forall|k: int| 0 <= k < notes_lines@.len()
                ==> (#[trigger] notes_lines@[k])@
                    == lines@.map_values(|v: Vec<u8>| v@)[6 + k],
        decreases lines@.len() - i,
    {
        notes_lines.push(vstd::slice::slice_to_vec(lines[i].as_slice()));
        i = i + 1;
    }
    Ok(SMChart { style, description, difficulty, level, notes_lines })
}

/// The spans of the `.sm` chart blocks of a file: each runs from a
/// `#NOTES:` marker through the next semicolon; a marker with no closing
/// semicolon is an error.
pub open spec fn spec_sm_blocks(s: Seq<u8>, from: int) -> Option<Seq<(int, int)>>
    decreases s.len() - from,
{
    if from < 0 || from >= s.len() {
        Some(Seq::empty())
    } else {
        match spec_find_sub(s, "#NOTES:".spec_bytes(), from) {
            None => Some(Seq::empty()),
            Some(ni) => match spec_find_sub(s, ";".spec_bytes(), ni) {
                None => None,
                Some(si) => {
                    let adv = if si + 1 > from { si + 1 } else { from + 1 };
                    let nxt = if adv > s.len() { s.len() as int } else { adv };
                    match spec_sm_blocks(s, nxt) {
                        None => None,
                        Some(rest) => Some(seq![(ni, si)] + rest),
                    }
                },
            },
        }
    }
}

/// Parse every `.sm` chart block in a file: one chart per span that
/// `spec_sm_blocks` names, each matching its block's text.
pub fn parse_sm_charts(contents: &[u8]) -> (r: Result<Vec<SMChart>, Vec<u8>>)
    ensures
        match r {
            Ok(v) => match spec_sm_blocks(contents@, 0) {
                Some(bl) => {
                    &&& v@.len() == bl.len()
                    &&& forall|k: int| 0 <= k < bl.len()
                        ==> chart_matches_sm_block(v@[k],
                            contents@.subrange((#[trigger] bl[k]).0, bl[k].1 + 1))
                },
                None => false,
            },
            Err(_) => true,
        },
{
    let mut ret: Vec<SMChart> = Vec::new();
    let mut search_from: usize = 0;
    let n = contents.len();
    let ghost mut bounds: Seq<(int, int)> = Seq::empty();
    proof {
        lemma_marker_bytes();
    }
    loop
        invariant
            search_from <= n,
            n == contents@.len(),
            ret@.len() == bounds.len(),
            forall|k: int| 0 <= k < bounds.len()
                ==> chart_matches_sm_block(ret@[k],
                    contents@.subrange((#[trigger] bounds[k]).0, bounds[k].1 + 1)),
            match spec_sm_blocks(contents@, search_from as int) {
                Some(rem) => spec_sm_blocks(contents@, 0) == Some(bounds + rem),
                None => spec_sm_blocks(contents@, 0) is None,
            },
        decreases n - search_from,
    {
        proof {
            lemma_marker_bytes();
        }
        let notes_idx = match find_sub(contents, search_from, "#NOTES:".as_bytes()) {
            Some(i) => i,
            None => {
                proof {
                    assert(spec_sm_blocks(contents@, search_from as int)
                        == Some(Seq::<(int, int)>::empty()));
                    assert(bounds + Seq::<(int, int)>::empty() =~= bounds);
                }
                return Ok(ret);
            }
        };
        let semicolon_idx = match find_sub(contents, notes_idx, ";".as_bytes()) {
            Some(i) => i,
            None => {
                let mut e: Vec<u8> = Vec::new();
                append_str(&mut e, "couldn't find semicolon after #NOTES");
                return Err(e);
            }
        };
        let notes_str = vstd::slice::slice_subrange(contents, notes_idx, semicolon_idx + 1);
        match parse_sm_chart(notes_str) {
            Ok(chart) => {
                let ghost bounds0 = bounds;
                ret.push(chart);
                proof {
                    bounds = bounds0 + seq![(notes_idx as int, semicolon_idx as int)];
                    assert(ret@[bounds0.len() as int] == chart);
                    assert(bounds0 + (seq![(notes_idx as int, semicolon_idx as int)]
                        + spec_sm_blocks(contents@, semicolon_idx + 1).unwrap())
                        =~= bounds + spec_sm_blocks(contents@, semicolon_idx + 1).unwrap());
                }
            }
            Err(e) => {
                let mut msg: Vec<u8> = Vec::new();
                append_str(&mut msg, "Couldn't parse chart: ");
                msg.extend_from_slice(e.as_slice());
                return Err(msg);
            }
        }
        search_from = semicolon_idx + 1;
    }
}

/// The block markers are single ASCII tokens of known length.
proof fn lemma_marker_bytes()
    ensures
        "#NOTES:".spec_bytes().len() == 7,
        ";".spec_bytes().len() == 1,
        ":".spec_bytes().len() == 1,
        "#NOTEDATA:".spec_bytes().len() == 10,
{
    reveal_strlit("#NOTES:");
    reveal_strlit(";");
    reveal_strlit(":");
    reveal_strlit("#NOTEDATA:");
    assert(vstd::string::is_ascii("#NOTES:"));
    assert(vstd::string::is_ascii(";"));
    assert(vstd::string::is_ascii(":"));
    assert(vstd::string::is_ascii("#NOTEDATA:"));
    vstd::string::is_ascii_spec_bytes("#NOTES:");
    vstd::string::is_ascii_spec_bytes(";");
    vstd::string::is_ascii_spec_bytes(":");
    vstd::string::is_ascii_spec_bytes("#NOTEDATA:");
}


/// The accumulating state of the `.ssc` key-value scan: the recognized
/// fields found so far, the key being read, and the value lines collected
/// for it.
pub struct SscScan {
    pub style: Option<Seq<u8>>,
    pub description: Option<Seq<u8>>,
    pub difficulty: Option<Seq<u8>>,
    pub level: Option<i32>,
    pub notes: Seq<Seq<u8>>,
    pub new_kv: bool,
    pub cur_key: Seq<u8>,
    pub cur_vals: Seq<Seq<u8>>,
}

/// The scan before any line: nothing found, expecting a `#KEY:` opener.
pub open spec fn ssc_scan_init() -> SscScan {
    SscScan {
        style: None,
        description: None,
        difficulty: None,
        level: None,
        notes: Seq::empty(),
        new_kv: true,
        cur_key: Seq::empty(),
        cur_vals: Seq::empty(),
    }
}

/// One line of the `.ssc` scan: open a new `#KEY:` pair when expected,
/// collect the value line, and on a closing semicolon record the value
/// under its key.  `None` is a malformed line or value.
pub open spec fn ssc_step(st: SscScan, line0: Seq<u8>) -> Option<SscScan> {
    let keyline = if st.new_kv {
        if line0.len() == 0 || line0[0] != 35 {
            None
        } else {
            let rest = line0.drop_first();
            match spec_find_sub(rest, ":".spec_bytes(), 0) {
                None => None,
                Some(ci) => Some((rest.take(ci), rest.skip(ci + 1))),
            }
        }
    } else {
        Some((st.cur_key, line0))
    };
    match keyline {
        None => None,
        Some((key, line1)) => {
            let ends = line1.len() > 0 && line1.last() == 59;
            let line2 = if ends {
                line1.drop_last()
            } else {
                line1
            };
            let vals = if line2.len() > 0 {
                st.cur_vals.push(line2)
            } else {
                st.cur_vals
            };
            if !ends {
                Some(SscScan { new_kv: false, cur_key: key, cur_vals: vals, ..st })
            } else if key == "STEPSTYPE".spec_bytes() {
                if vals.len() != 1 {
                    None
                } else {
                    Some(SscScan { style: Some(vals[0]), new_kv: true, cur_key: key,
                        cur_vals: Seq::empty(), ..st })
                }
            } else if key == "DESCRIPTION".spec_bytes() {
                if vals.len() == 0 {
                    Some(SscScan { description: Some(Seq::empty()), new_kv: true,
                        cur_key: key, cur_vals: Seq::empty(), ..st })
                } else if vals.len() == 1 {
                    Some(SscScan { description: Some(vals[0]), new_kv: true,
                        cur_key: key, cur_vals: Seq::empty(), ..st })
                } else {
                    None
                }
            } else if key == "DIFFICULTY".spec_bytes() {
                if vals.len() != 1 {
                    None
                } else {
                    Some(SscScan { difficulty: Some(vals[0]), new_kv: true, cur_key: key,
                        cur_vals: Seq::empty(), ..st })
                }
            } else if key == "METER".spec_bytes() {
                if vals.len() != 1 {
                    None
                } else {
                    match spec_parse_i32(vals[0]) {
                        Some(lv) => Some(SscScan { level: Some(lv), new_kv: true,
                            cur_key: key, cur_vals: Seq::empty(), ..st }),
                        None => None,
                    }
                }
            } else if key == "NOTES".spec_bytes() {
                Some(SscScan { notes: vals, new_kv: true, cur_key: key,
                    cur_vals: Seq::empty(), ..st })
            } else {
                Some(SscScan { new_kv: true, cur_key: key, cur_vals: Seq::empty(), ..st })
            }
        },
    }
}

/// The scan folded over the lines from position `i` on.
pub open spec fn ssc_run(lines: Seq<Seq<u8>>, i: int, st: SscScan) -> Option<SscScan>
    decreases lines.len() - i,
{
    if i < 0 || i >= lines.len() {
        Some(st)
    } else {
        match ssc_step(st, lines[i]) {
            None => None,
            Some(st2) => ssc_run(lines, i + 1, st2),
        }
    }
}

/// The views of a list of byte vectors.
pub open spec fn views_of(s: Seq<Vec<u8>>) -> Seq<Seq<u8>> {
    s.map_values(|v: Vec<u8>| v@)
}

proof fn lemma_views_push(s: Seq<Vec<u8>>, v: Vec<u8>)
    ensures
        views_of(s.push(v)) =~= views_of(s).push(v@),
{
    assert forall|k: int| 0 <= k < s.len() + 1 implies
        #[trigger] views_of(s.push(v))[k] == views_of(s).push(v@)[k] by {
        if k < s.len() {
            assert(s.push(v)[k] == s[k]);
        } else {
            assert(s.push(v)[k] == v);
        }
    }
}

/// The view of an optional byte vector.
pub open spec fn opt_view(o: Option<Vec<u8>>) -> Option<Seq<u8>> {
    match o {
        Some(v) => Some(v@),
        None => None,
    }
}

/// Whether a parsed chart is exactly what the `.ssc` key-value scan of
/// one block of text yields: the scan succeeds, finds all four required
/// keys, and its fields match the chart.
pub open spec fn chart_matches_ssc_block(c: SMChart, block: Seq<u8>) -> bool {
    match ssc_run(spec_to_lines(block), 0, ssc_scan_init()) {
        Some(st) => {
            &&& st.style == Some(c.style@)
            &&& st.description == Some(c.description@)
            &&& st.difficulty == Some(c.difficulty@)
            &&& st.level == Some(c.level)
            &&& c.notes_lines@.len() == st.notes.len()
            &&& forall|k: int| 0 <= k < st.notes.len()
                ==> (#[trigger] c.notes_lines@[k])@ == st.notes[k]
        },
        None => false,
    }
}

/// Parse one `.ssc` chart block: `#KEY:VALUE;` pairs, where a value may
/// span lines; the style, description, difficulty, level and note rows
/// come from their respective keys, exactly as the `ssc_run` scan of the
/// cleaned lines describes.
pub fn parse_ssc_chart(contents: &[u8]) -> (r: Result<SMChart, Vec<u8>>)
    ensures
        match r {
            Ok(c) => chart_matches_ssc_block(c, contents@),
            Err(_) => match ssc_run(spec_to_lines(contents@), 0, ssc_scan_init()) {
                Some(st) => st.style is None || st.description is None
                    || st.difficulty is None || st.level is None,
                None => true,
            },
        },
{
    let lines = to_lines(contents);
    let ghost lv = spec_to_lines(contents@);
    proof {
        assert forall|k: int| 0 <= k < lines@.len() implies
            (#[trigger] lines@[k])@ == lv[k] by {
            assert(lines@.map_values(|v: Vec<u8>| v@)[k] == lines@[k]@);
        }
    }
    let mut style: Option<Vec<u8>> = None;
    let mut description: Option<Vec<u8>> = None;
    let mut difficulty: Option<Vec<u8>> = None;
    let mut level: Option<i32> = None;
    let mut notes_lines: Vec<Vec<u8>> = Vec::new();
    let mut new_kv = true;
    let mut cur_key: Vec<u8> = Vec::new();
    let mut cur_val_lines: Vec<Vec<u8>> = Vec::new();
    let mut li: usize = 0;
    proof {
        assert(views_of(notes_lines@) =~= Seq::<Seq<u8>>::empty());
        assert(views_of(cur_val_lines@) =~= Seq::<Seq<u8>>::empty());
        assert(SscScan {
            style: opt_view(style),
            description: opt_view(description),
            difficulty: opt_view(difficulty),
            level: level,
            notes: views_of(notes_lines@),
            new_kv: new_kv,
            cur_key: cur_key@,
            cur_vals: views_of(cur_val_lines@),
        } == ssc_scan_init());
    }
    while li < lines.len()
        invariant
            li <= lines@.len(),
            lv == spec_to_lines(contents@),
            lines@.len() == lv.len(),
            forall|k: int| 0 <= k < lines@.len() ==> (#[trigger] lines@[k])@ == lv[k],
            ssc_run(lv, li as int, SscScan {
                style: opt_view(style),
                description: opt_view(description),
                difficulty: opt_view(difficulty),
                level: level,
                notes: views_of(notes_lines@),
                new_kv: new_kv,
                cur_key: cur_key@,
                cur_vals: views_of(cur_val_lines@),
            }) == ssc_run(lv, 0, ssc_scan_init()),
        decreases lines@.len() - li,
    {
        let ghost st0 = SscScan {
            style: opt_view(style),
            description: opt_view(description),
            difficulty: opt_view(difficulty),
            level: level,
            notes: views_of(notes_lines@),
            new_kv: new_kv,
            cur_key: cur_key@,
            cur_vals: views_of(cur_val_lines@),
        };
        let mut line: Vec<u8> = vstd::slice::slice_to_vec(lines[li].as_slice());
        if new_kv {
            if line.len() == 0 || line[0] != 35 {
                proof {
                    assert(ssc_step(st0, lv[li as int]) is None);
                }
                let mut e: Vec<u8> = Vec::new();
                append_str(&mut e, "New key value line didn't start with #");
                return Err(e);
            }
            let rest = vstd::slice::slice_subrange(line.as_slice(), 1, line.len());
            proof {
                lemma_marker_bytes();
                assert(rest@ =~= lv[li as int].drop_first());
            }
            let semicolon_idx = match find_sub(rest, 0, ":".as_bytes()) {
                Some(i) => i,
                None => {
                    proof {
                        assert(ssc_step(st0, lv[li as int]) is None);
                    }
                    let mut e: Vec<u8> = Vec::new();
                    append_str(&mut e, "couldn't find semicolon");
                    return Err(e);
                }
            };
            let key = vstd::slice::slice_subrange(rest, 0, semicolon_idx);
            cur_key = vstd::slice::slice_to_vec(key);
            let val = vstd::slice::slice_subrange(rest, semicolon_idx + 1, rest.len());
            line = vstd::slice::slice_to_vec(val);
            proof {
                assert(cur_key@ =~= lv[li as int].drop_first().take(semicolon_idx as int));
                assert(line@ =~= lv[li as int].drop_first().skip(semicolon_idx + 1));
            }
        }
        new_kv = line.len() > 0 && line[line.len() - 1] == 59;
        let ghost line1 = line@;
        if new_kv {
            let _ = line.pop();
            proof {
                assert(line@ =~= line1.drop_last());
            }
        }
        let ghost vals0 = views_of(cur_val_lines@);
        if line.len() > 0 {
            let ghost cvl0 = cur_val_lines@;
            let lcopy = line;
            cur_val_lines.push(lcopy);
            proof {
                lemma_views_push(cvl0, cur_val_lines@[cvl0.len() as int]);
            }
        }
        if new_kv {
            if bytes_eq(cur_key.as_slice(), "STEPSTYPE".as_bytes()) {
                if cur_val_lines.len() != 1 {
                    proof {
                        assert(ssc_step(st0, lv[li as int]) is None);
                    }
                    let mut e: Vec<u8> = Vec::new();
                    append_str(&mut e, "STEPSTYPE should be one line");
                    return Err(e);
                }
                style = cur_val_lines.pop();
            } else if bytes_eq(cur_key.as_slice(), "DESCRIPTION".as_bytes()) {
                if cur_val_lines.len() == 0 {
                    description = Some(Vec::new());
                } else if cur_val_lines.len() == 1 {
                    description = cur_val_lines.pop();
                } else {
                    proof {
                        assert(ssc_step(st0, lv[li as int]) is None);
                    }
                    let mut e: Vec<u8> = Vec::new();
                    append_str(&mut e, "DESCRIPTION should be one line");
                    return Err(e);
                }
            } else if bytes_eq(cur_key.as_slice(), "DIFFICULTY".as_bytes()) {
                if cur_val_lines.len() != 1 {
                    proof {
                        assert(ssc_step(st0, lv[li as int]) is None);
                    }
                    let mut e: Vec<u8> = Vec::new();
                    append_str(&mut e, "DIFFICULTY should be one line");
                    return Err(e);
                }
                difficulty = cur_val_lines.pop();
            } else if bytes_eq(cur_key.as_slice(), "METER".as_bytes()) {
                if cur_val_lines.len() != 1 {
                    proof {
                        assert(ssc_step(st0, lv[li as int]) is None);
                    }
                    let mut e: Vec<u8> = Vec::new();
                    append_str(&mut e, "METER should be one line");
                    return Err(e);
                }
                let v = match cur_val_lines.pop() {
                    Some(v) => v,
                    None => Vec::new(),
                };
                level = match parse_i32(v.as_slice()) {
                    Some(lv2) => Some(lv2),
                    None => {
                        proof {
                            assert(ssc_step(st0, lv[li as int]) is None);
                        }
                        let mut e: Vec<u8> = Vec::new();
                        append_str(&mut e, "Couldn't parse METER: invalid number");
                        return Err(e);
                    }
                };
            } else if bytes_eq(cur_key.as_slice(), "NOTES".as_bytes()) {
                notes_lines = cur_val_lines;
                cur_val_lines = Vec::new();
            }
            cur_val_lines = Vec::new();
        }
        proof {
            let st1 = SscScan {
                style: opt_view(style),
                description: opt_view(description),
                difficulty: opt_view(difficulty),
                level: level,
                notes: views_of(notes_lines@),
                new_kv: new_kv,
                cur_key: cur_key@,
                cur_vals: views_of(cur_val_lines@),
            };
            assert(views_of(Seq::<Vec<u8>>::empty()) =~= Seq::<Seq<u8>>::empty());
            assert(ssc_step(st0, lv[li as int]) == Some(st1));
        }
        li = li + 1;
    }
    let style = match style {
        Some(v) => v,
        None => {
            let mut e: Vec<u8> = Vec::new();
            append_str(&mut e, "No STEPSTYPE");
            return Err(e);
        }
    };
    let description = match description {
        Some(v) => v,
        None => {
            let mut e: Vec<u8> = Vec::new();
            append_str(&mut e, "No DESCRIPTION");
            return Err(e);
        }
    };
    let difficulty = match difficulty {
        Some(v) => v,
        None => {
            let mut e: Vec<u8> = Vec::new();
            append_str(&mut e, "No DIFFICULTY");
            return Err(e);
        }
    };
    let level = match level {
        Some(v) => v,
        None => {
            let mut e: Vec<u8> = Vec::new();
            append_str(&mut e, "No METER");
            return Err(e);
        }
    };
    Ok(SMChart { style, description, difficulty, level, notes_lines })
}

/// The spans of the `.ssc` chart blocks of a file: each runs from one
/// `#NOTEDATA:` marker to the next, the last to the end of the file.
pub open spec fn spec_ssc_blocks_from(s: Seq<u8>, idx: int) -> Seq<(int, int)>
    decreases s.len() - idx,
{
    if idx < 0 || idx >= s.len() {
        Seq::empty()
    } else {
        match spec_find_sub(s, "#NOTEDATA:".spec_bytes(), idx + 1) {
            Some(j) => {
                let adv = if j > idx + 1 { j } else { idx + 1 };
                let nxt = if adv > s.len() { s.len() as int } else { adv };
                seq![(idx, nxt)] + spec_ssc_blocks_from(s, nxt)
            },
            None => seq![(idx, s.len() as int)],
        }
    }
}

/// Parse every `.ssc` chart block in a file: one chart per span from the
/// first `#NOTEDATA:` marker on, each matching its block's text.
pub fn parse_ssc_charts(contents: &[u8]) -> (r: Result<Vec<SMChart>, Vec<u8>>)
    ensures
        match r {
            Ok(v) => match spec_find_sub(contents@, "#NOTEDATA:".spec_bytes(), 0) {
                None => v@.len() == 0,
                Some(i0) => {
                    let bl = spec_ssc_blocks_from(contents@, i0);
                    &&& v@.len() == bl.len()
                    &&& forall|k: int| 0 <= k < bl.len()
                        ==> chart_matches_ssc_block(v@[k],
                            contents@.subrange((#[trigger] bl[k]).0, bl[k].1))
                },
            },
            Err(_) => true,
        },
{
    let mut ret: Vec<SMChart> = Vec::new();
    let n = contents.len();
    proof {
        lemma_marker_bytes();
    }
    let first_idx = match find_sub(contents, 0, "#NOTEDATA:".as_bytes()) {
        Some(i) => i,
        None => {
            return Ok(ret);
        }
    };
    let ghost i0 = first_idx as int;
    let ghost mut bounds: Seq<(int, int)> = Seq::empty();
    let mut notedata_idx = first_idx;
    loop
        invariant
            i0 <= notedata_idx < n,
            n == contents@.len(),
            Some(i0) == spec_find_sub(contents@, "#NOTEDATA:".spec_bytes(), 0),
            ret@.len() == bounds.len(),
            forall|k: int| 0 <= k < bounds.len()
                ==> chart_matches_ssc_block(ret@[k],
                    contents@.subrange((#[trigger] bounds[k]).0, bounds[k].1)),
            spec_ssc_blocks_from(contents@, i0)
                == bounds + spec_ssc_blocks_from(contents@, notedata_idx as int),
        decreases n - notedata_idx,
    {
        proof {
            lemma_marker_bytes();
        }
        match find_sub(contents, notedata_idx + 1, "#NOTEDATA:".as_bytes()) {
            Some(next_notedata) => {
                let chart_str = vstd::slice::slice_subrange(
                    contents, notedata_idx, next_notedata);
                match parse_ssc_chart(chart_str) {
                    Ok(chart) => {
                        let ghost bounds0 = bounds;
                        ret.push(chart);
                        proof {
                            bounds = bounds0
                                + seq![(notedata_idx as int, next_notedata as int)];
                            assert(ret@[bounds0.len() as int] == chart);
                            assert(bounds0 + (seq![(notedata_idx as int,
                                next_notedata as int)]
                                + spec_ssc_blocks_from(contents@, next_notedata as int))
                                =~= bounds
                                + spec_ssc_blocks_from(contents@, next_notedata as int));
                        }
                    }
                    Err(e) => {
                        let mut msg: Vec<u8> = Vec::new();
                        append_str(&mut msg, "Couldn't parse chart: ");
                        msg.extend_from_slice(e.as_slice());
                        return Err(msg);
                    }
                }
                notedata_idx = next_notedata;
            }
            None => {
                let chart_str = vstd::slice::slice_subrange(contents, notedata_idx, n);
                match parse_ssc_chart(chart_str) {
                    Ok(chart) => {
                        let ghost bounds0 = bounds;
                        ret.push(chart);
                        proof {
                            bounds = bounds0 + seq![(notedata_idx as int, n as int)];
                            assert(ret@[bounds0.len() as int] == chart);
                            assert(spec_ssc_blocks_from(contents@, notedata_idx as int)
                                =~= seq![(notedata_idx as int, n as int)]);
                            assert(bounds0 + seq![(notedata_idx as int, n as int)]
                                =~= bounds);
                        }
                    }
                    Err(e) => {
                        let mut msg: Vec<u8> = Vec::new();
                        append_str(&mut msg, "Couldn't parse chart: ");
                        msg.extend_from_slice(e.as_slice());
                        return Err(msg);
                    }
                }
                return Ok(ret);
            }
        }
    }
}

/// What remains of a chart file after a leading separator, with every
/// generated block (one containing the generator tag) dropped.
pub open spec fn spec_rm_tail(t: Seq<u8>, sep: Seq<u8>) -> Seq<u8>
    decreases t.len(),
{
    if sep.len() == 0 {
        t
    } else {
        match spec_find_sub(t, sep, 0) {
            None => if contains_sub(t, "AYEAG".spec_bytes()) {
                Seq::empty()
            } else {
                sep + t
            },
            Some(j) => {
                let seg = t.take(j);
                let kept: Seq<u8> = if contains_sub(seg, "AYEAG".spec_bytes()) {
                    Seq::empty()
                } else {
                    sep + seg
                };
                let adv = if j + sep.len() < 1 {
                    1int
                } else {
                    j + sep.len()
                };
                let adv2 = if adv > t.len() {
                    t.len() as int
                } else {
                    adv
                };
                kept + spec_rm_tail(t.skip(adv2), sep)
            },
        }
    }
}

/// A chart file with every previously generated block removed: the text
/// before the first block separator is kept, and each following block is
/// kept exactly when it does not carry the generator tag.
pub open spec fn spec_remove_autogen(s: Seq<u8>, sep: Seq<u8>) -> Seq<u8> {
    if sep.len() == 0 {
        s
    } else {
        match spec_find_sub(s, sep, 0) {
            None => s,
            Some(i) => s.take(i) + spec_rm_tail(s.skip(i + sep.len() as int), sep),
        }
    }
}

fn rm_tail(t: &[u8], sep: &[u8], out: &mut Vec<u8>)
    requires
        sep@.len() >= 1,
    ensures
        final(out)@ == old(out)@ + spec_rm_tail(t@, sep@),
    decreases t@.len(),
{
    match find_sub(t, 0, sep) {
        None => {
            if !contains_bytes(t, "AYEAG".as_bytes()) {
                out.extend_from_slice(sep);
                out.extend_from_slice(t);
            }
        }
        Some(j) => {
            let seg = vstd::slice::slice_subrange(t, 0, j);
            if !contains_bytes(seg, "AYEAG".as_bytes()) {
                out.extend_from_slice(sep);
                out.extend_from_slice(seg);
            }
            let tlen = t.len();
            proof {
                assert(j + sep@.len() <= t@.len());
            }
            let rest = vstd::slice::slice_subrange(t, j + sep.len(), tlen);
            rm_tail(rest, sep, out);
        }
    }
}

/// Strip every chart block this tool generated earlier from a file, so a
/// fresh generation pass can replace them.
pub fn remove_existing_autogen(contents: &[u8], is_ssc: bool) -> (r: Vec<u8>)
    ensures
        is_ssc ==> r@ == spec_remove_autogen(contents@, "#NOTEDATA:".spec_bytes()),
        !is_ssc ==> r@ == spec_remove_autogen(contents@, "#NOTES:".spec_bytes()),
{
    let sep: &[u8] = if is_ssc {
        "#NOTEDATA:".as_bytes()
    } else {
        "#NOTES:".as_bytes()
    };
    if sep.len() == 0 {
        return vstd::slice::slice_to_vec(contents);
    }
    let mut res: Vec<u8> = Vec::new();
    match find_sub(contents, 0, sep) {
        None => {
            res.extend_from_slice(contents);
        }
        Some(i) => {
            let head = vstd::slice::slice_subrange(contents, 0, i);
            res.extend_from_slice(head);
            let clen = contents.len();
            proof {
                assert(i + sep@.len() <= contents@.len());
            }
            let rest = vstd::slice::slice_subrange(contents, i + sep.len(), clen);
            rm_tail(rest, sep, &mut res);
        }
    }
    res
}

/// A short text for a generation failure.
fn gen_error_bytes(e: &GenError) -> (r: Vec<u8>)
{
    let mut msg: Vec<u8> = Vec::new();
    match e {
        GenError::NoValidColumns { .. } => {
            append_str(&mut msg, "no available columns!");
        }
        GenError::ZeroTotalWeight { .. } => {
            append_str(&mut msg, "All valid columns have probability 0");
        }
        GenError::AngleOutOfRange => {
            append_str(&mut msg, "angle drifted out of range");
        }
    }
    msg
}

/// A measure-separator line: a lone comma or semicolon.
pub open spec fn spec_sep_line(l: Seq<u8>) -> bool {
    l.len() == 1 && (l[0] == 44 || l[0] == 59)
}

/// One concrete row-by-row composition of a generated notes body: one
/// output row per input line, separators passed through, every other
/// line replaced by a newline-terminated notation row of the target
/// style's width.
pub open spec fn spec_notes_rows(rows: Seq<Seq<u8>>, notes: Seq<u8>,
    lines: Seq<Vec<u8>>, to_style: Style) -> bool {
    &&& rows.len() == lines.len()
    &&& notes == spec_concat(rows)
    &&& forall|k: int| 0 <= k < rows.len() ==> {
        let l = (#[trigger] lines[k])@;
        if spec_sep_line(l) {
            rows[k] == seq![l[0], 10u8]
        } else {
            &&& rows[k].len() == to_style.spec_num_cols()
                + 2 * to_style.spec_extra_0s() + 1
            &&& rows[k][rows[k].len() - 1] == 10
            &&& forall|m: int| 0 <= m < rows[k].len() - 1
                ==> ((#[trigger] rows[k][m]) == 48 || rows[k][m] == 49)
        }
    }
}

/// A generated notes body decomposes into one row per input line.
pub open spec fn spec_notes_out(notes: Seq<u8>, lines: Seq<Vec<u8>>,
    to_style: Style) -> bool {
    exists|rows: Seq<Seq<u8>>| #[trigger] spec_notes_rows(rows, notes, lines, to_style)
}

/// What `generate_notes` promises of its result: on success, a notes
/// body over the note alphabet that decomposes into one row per input
/// line.
pub open spec fn spec_generate_notes_post(r: Result<Vec<u8>, Vec<u8>>,
    lines: Seq<Vec<u8>>, to_style: Style) -> bool {
    match r {
        Ok(notes) => spec_note_bytes(notes@) && spec_notes_out(notes@, lines, to_style),
        Err(_) => true,
    }
}

/// Generate replacement note rows for one chart: every input row becomes
/// a row for the target style with the engine's chosen columns lit;
/// measure separators pass through.  Without an explicit seed the engine
/// is seeded from the chart's content hash, so repeated runs agree.
pub fn generate_notes(chart: &SMChart, to_style: Style, params: &GeneratorParameters)
    -> (r: Result<Vec<u8>, Vec<u8>>)
    requires
        params.wf(),
    ensures
        spec_generate_notes_post(r, chart.notes_lines@, to_style),
{
    let mut p = *params;
    if p.seed.is_none() {
        p.seed = Some(chart_hash(chart));
    }
    let mut g = Generator::new(to_style, p);
    let mut ret: Vec<u8> = Vec::new();
    let ghost mut rows: Seq<Seq<u8>> = Seq::empty();
    proof {
        assert(ret@ =~= spec_concat(rows));
    }
    let mut li: usize = 0;
    while li < chart.notes_lines.len()
        invariant
            li <= chart.notes_lines@.len(),
            g.wf(),
            g.style == to_style,
            forall|k: int| 0 <= k < ret@.len()
                ==> (#[trigger] ret@[k] == 48 || ret@[k] == 49
                    || ret@[k] == 44 || ret@[k] == 59 || ret@[k] == 10),
            rows.len() == li,
            ret@ == spec_concat(rows),
            forall|k: int| 0 <= k < rows.len() ==> {
                let l = (#[trigger] chart.notes_lines@[k])@;
                if spec_sep_line(l) {
                    rows[k] == seq![l[0], 10u8]
                } else {
                    &&& rows[k].len() == to_style.spec_num_cols()
                        + 2 * to_style.spec_extra_0s() + 1
                    &&& rows[k][rows[k].len() - 1] == 10
                    &&& forall|m: int| 0 <= m < rows[k].len() - 1
                        ==> ((#[trigger] rows[k][m]) == 48 || rows[k][m] == 49)
                }
            },
        decreases chart.notes_lines@.len() - li,
    {
        let l = &chart.notes_lines[li];
        let cols_opt = if l.len() <= 127 {
            columns(l.as_slice(), p.remove_jumps)
        } else {
            None
        };
        match cols_opt {
            Some(cols) => {
                let mut out_cols: Vec<i8> = Vec::new();
                let mut ci: usize = 0;
                while ci < cols.len()
                    invariant
                        ci <= cols@.len(),
                        g.wf(),
                        g.style == to_style,
                        forall|k: int| 0 <= k < out_cols@.len()
                            ==> 0 <= #[trigger] out_cols@[k] < to_style.spec_num_cols(),
                    decreases cols@.len() - ci,
                {
                    match g.gen_with_input_col(cols[ci]) {
                        Ok(idx) => {
                            out_cols.push(idx);
                        }
                        Err(e) => {
                            return Err(gen_error_bytes(&e));
                        }
                    }
                    ci = ci + 1;
                }
                let row = row_notes(out_cols.as_slice(), to_style);
                let ghost rows0 = rows;
                ret.extend_from_slice(row.as_slice());
                ret.push(10);
                proof {
                    rows = rows0.push(row@ + seq![10u8]);
                    lemma_concat_push(rows0, row@ + seq![10u8]);
                    assert(ret@ =~= spec_concat(rows0) + (row@ + seq![10u8]));
                    assert(!spec_sep_line(l@));
                    assert(rows[li as int].len() == to_style.spec_num_cols()
                        + 2 * to_style.spec_extra_0s() + 1);
                    assert(rows[li as int][rows[li as int].len() - 1] == 10);
                }
            }
            None => {
                if l.len() == 1 && (l[0] == 44 || l[0] == 59) {
                    let ghost rows0 = rows;
                    ret.push(l[0]);
                    ret.push(10);
                    proof {
                        rows = rows0.push(seq![l@[0], 10u8]);
                        lemma_concat_push(rows0, seq![l@[0], 10u8]);
                        assert(ret@ =~= spec_concat(rows0) + seq![l@[0], 10u8]);
                        assert(spec_sep_line(l@));
                    }
                } else {
                    let mut e: Vec<u8> = Vec::new();
                    append_str(&mut e, "unknown notes line: ");
                    e.extend_from_slice(l.as_slice());
                    return Err(e);
                }
            }
        }
        li = li + 1;
    }
    let result: Result<Vec<u8>, Vec<u8>> = Ok(ret);
    proof {
        match &result {
            Ok(notes) => {
                assert(spec_notes_rows(rows, notes@, chart.notes_lines@, to_style));
                assert(spec_notes_out(notes@, chart.notes_lines@, to_style));
            }
            Err(_) => {}
        }
    }
    result
}

/// A parsed chart already in the target style outside edit mode: the
/// conversion refuses the whole file rather than adding duplicates.
pub open spec fn spec_chart_clash(c: SMChart, to_style: Style, edit: bool) -> bool {
    !edit && c.style@ == to_style.spec_sm_string() && c.difficulty@ != "Edit".spec_bytes()
}

/// Whether a parsed chart takes part in the conversion: it is in the
/// source style, not a previously generated chart, and within the
/// configured difficulty bounds.
pub open spec fn spec_chart_keep(c: SMChart, from_style: Style,
    params: GeneratorParameters) -> bool {
    &&& c.style@ == from_style.spec_sm_string()
    &&& !starts_with(c.description@, "AYEAG".spec_bytes())
    &&& !starts_with(c.description@, "AUTO".spec_bytes())
    &&& (match params.min_difficulty {
        Some(min) => c.level >= min,
        None => true,
    })
    &&& (match params.max_difficulty {
        Some(max) => c.level <= max,
        None => true,
    })
}

/// The bytes a generated notes body may hold: note digits, measure
/// separators, and newlines.
pub open spec fn spec_note_bytes(s: Seq<u8>) -> bool {
    forall|k: int| 0 <= k < s.len() ==> (#[trigger] s[k] == 48 || s[k] == 49
        || s[k] == 44 || s[k] == 59 || s[k] == 10)
}

/// Whether `c` is the chart one of the file's blocks holds, in the
/// requested notation.
pub open spec fn spec_chart_from_block(c: SMChart, contents: Seq<u8>, is_ssc: bool) -> bool {
    if is_ssc {
        match spec_find_sub(contents, "#NOTEDATA:".spec_bytes(), 0) {
            Some(i0) => {
                let bl = spec_ssc_blocks_from(contents, i0);
                exists|b: int| 0 <= b < bl.len()
                    && chart_matches_ssc_block(c,
                        contents.subrange((#[trigger] bl[b]).0, bl[b].1))
            },
            None => false,
        }
    } else {
        match spec_sm_blocks(contents, 0) {
            Some(bl) => exists|b: int| 0 <= b < bl.len()
                && chart_matches_sm_block(c,
                    contents.subrange((#[trigger] bl[b]).0, bl[b].1 + 1)),
            None => false,
        }
    }
}

/// No chart held by any block of the file clashes with the target style.
pub open spec fn spec_no_block_clash(contents: Seq<u8>, to_style: Style, edit: bool,
    is_ssc: bool) -> bool {
    forall|c: SMChart| #[trigger] spec_chart_from_block(c, contents, is_ssc)
        ==> !spec_chart_clash(c, to_style, edit)
}

/// The parse result covering every block of the file, as the parsers
/// promise it.
pub open spec fn spec_parsed_all(ac: Seq<SMChart>, contents: Seq<u8>, is_ssc: bool) -> bool {
    if is_ssc {
        match spec_find_sub(contents, "#NOTEDATA:".spec_bytes(), 0) {
            None => ac.len() == 0,
            Some(i0) => {
                let bl = spec_ssc_blocks_from(contents, i0);
                &&& ac.len() == bl.len()
                &&& forall|k: int| 0 <= k < bl.len()
                    ==> chart_matches_ssc_block(ac[k],
                        contents.subrange((#[trigger] bl[k]).0, bl[k].1))
            },
        }
    } else {
        match spec_sm_blocks(contents, 0) {
            Some(bl) => {
                &&& ac.len() == bl.len()
                &&& forall|k: int| 0 <= k < bl.len()
                    ==> chart_matches_sm_block(ac[k],
                        contents.subrange((#[trigger] bl[k]).0, bl[k].1 + 1))
            },
            None => false,
        }
    }
}

/// One concrete composition of the conversion's output: kept charts in
/// order, each with one generated notes body, rendered and concatenated.
pub open spec fn spec_generate_pieces(cs: Seq<SMChart>, ns: Seq<Seq<u8>>, out: Seq<u8>,
    contents: Seq<u8>, from_style: Style, to_style: Style, params: GeneratorParameters,
    extra: Option<Seq<u8>>, edit: bool, is_ssc: bool) -> bool {
    &&& cs.len() == ns.len()
    &&& out == spec_concat(Seq::new(cs.len(), |k: int| spec_chart_out(cs[k], to_style,
        params, extra, cs.len() > 1 && edit, edit, is_ssc, ns[k])))
    &&& forall|k: int| 0 <= k < cs.len()
        ==> #[trigger] spec_chart_from_block(cs[k], contents, is_ssc)
    &&& forall|k: int| 0 <= k < cs.len()
        ==> spec_chart_keep(#[trigger] cs[k], from_style, params)
    &&& forall|k: int| 0 <= k < ns.len() ==> spec_note_bytes(#[trigger] ns[k])
}

/// The conversion's output decomposes into rendered blocks, one per kept
/// parsed chart, each holding some generated notes body.
pub open spec fn spec_generate_out(out: Seq<u8>, contents: Seq<u8>, from_style: Style,
    to_style: Style, params: GeneratorParameters, extra: Option<Seq<u8>>, edit: bool,
    is_ssc: bool) -> bool {
    exists|cs: Seq<SMChart>, ns: Seq<Seq<u8>>|
        #[trigger] spec_generate_pieces(cs, ns, out, contents, from_style, to_style,
            params, extra, edit, is_ssc)
}

/// Convert every matching chart in a simfile: parse the chart blocks,
/// refuse a file that already holds charts in the target style (unless
/// writing edits), skip other styles, previously generated charts and
/// charts outside the difficulty bounds, then generate and render one
/// replacement block per remaining chart.
///
/// Success rules out the already-contains clash for every block of the
/// file, and the output is exactly a concatenation of rendered blocks,
/// one per kept parsed chart; only each block's sampled note rows are
/// left open by the contract.
#[verifier::rlimit(100)]
#[verifier::spinoff_prover]
pub fn generate(contents: &[u8], from_style: Style, to_style: Style,
    params: &GeneratorParameters, edit: bool, extra_description: Option<&Vec<u8>>,
    is_ssc: bool) -> (r: Result<Vec<u8>, Vec<u8>>)
    requires
        params.wf(),
    ensures
        match r {
            Ok(out) => {
                &&& spec_no_block_clash(contents@, to_style, edit, is_ssc)
                &&& spec_generate_out(out@, contents@, from_style, to_style, *params,
                    match extra_description {
                        Some(e) => Some(e@),
                        None => None,
                    }, edit, is_ssc)
            },
            Err(_) => true,
        },
{
    let ghost extra_view: Option<Seq<u8>> = match extra_description {
        Some(e) => Some(e@),
        None => None,
    };
    let parsed = if is_ssc {
        parse_ssc_charts(contents)
    } else {
        parse_sm_charts(contents)
    };
    let all_charts = match parsed {
        Ok(cs) => cs,
        Err(e) => {
            return Err(e);
        }
    };
    let ghost ac = all_charts@;
    proof {
        assert(spec_parsed_all(ac, contents@, is_ssc));
    }
    let mut charts: Vec<SMChart> = Vec::new();
    let mut i: usize = 0;
    while i < all_charts.len()
        invariant
            i <= all_charts@.len(),
            ac == all_charts@,
            spec_parsed_all(ac, contents@, is_ssc),
            forall|j: int| 0 <= j < i
                ==> !spec_chart_clash(#[trigger] ac[j], to_style, edit),
            forall|k: int| 0 <= k < charts@.len()
                ==> #[trigger] spec_chart_from_block(charts@[k], contents@, is_ssc),
            forall|k: int| 0 <= k < charts@.len()
                ==> spec_chart_keep(#[trigger] charts@[k], from_style, *params),
        decreases all_charts@.len() - i,
    {
        let chart = &all_charts[i];
        let keep = match keep_chart(chart, from_style, to_style, params, edit) {
            Ok(k) => k,
            Err(e) => {
                return Err(e);
            }
        };
        if keep {
            let copy = SMChart {
                style: vstd::slice::slice_to_vec(chart.style.as_slice()),
                description: vstd::slice::slice_to_vec(chart.description.as_slice()),
                difficulty: vstd::slice::slice_to_vec(chart.difficulty.as_slice()),
                level: chart.level,
                notes_lines: copy_lines(&chart.notes_lines),
            };
            proof {
                if is_ssc {
                    match spec_find_sub(contents@, "#NOTEDATA:".spec_bytes(), 0) {
                        Some(i0) => {
                            let bl = spec_ssc_blocks_from(contents@, i0);
                            assert(chart_matches_ssc_block(ac[i as int],
                                contents@.subrange(bl[i as int].0, bl[i as int].1)));
                            assert(chart_matches_ssc_block(copy,
                                contents@.subrange(bl[i as int].0, bl[i as int].1)));
                        }
                        None => {
                            assert(false);
                        }
                    }
                } else {
                    match spec_sm_blocks(contents@, 0) {
                        Some(bl) => {
                            assert(chart_matches_sm_block(ac[i as int],
                                contents@.subrange(bl[i as int].0, bl[i as int].1 + 1)));
                            assert(chart_matches_sm_block(copy,
                                contents@.subrange(bl[i as int].0, bl[i as int].1 + 1)));
                        }
                        None => {
                            assert(false);
                        }
                    }
                }
                assert(spec_chart_from_block(copy, contents@, is_ssc));
                assert(spec_chart_keep(copy, from_style, *params));
            }
            charts.push(copy);
        }
        i = i + 1;
    }
    proof {
        assert forall|c: SMChart| #[trigger] spec_chart_from_block(c, contents@, is_ssc)
            implies !spec_chart_clash(c, to_style, edit) by {
            if is_ssc {
                match spec_find_sub(contents@, "#NOTEDATA:".spec_bytes(), 0) {
                    Some(i0) => {
                        let bl = spec_ssc_blocks_from(contents@, i0);
                        let b = choose|b: int| 0 <= b < bl.len()
                            && chart_matches_ssc_block(c,
                                contents@.subrange((#[trigger] bl[b]).0, bl[b].1));
                        assert(chart_matches_ssc_block(ac[b],
                            contents@.subrange(bl[b].0, bl[b].1)));
                        assert(c.style@ == ac[b].style@);
                        assert(c.difficulty@ == ac[b].difficulty@);
                        assert(!spec_chart_clash(ac[b], to_style, edit));
                    }
                    None => {}
                }
            } else {
                match spec_sm_blocks(contents@, 0) {
                    Some(bl) => {
                        let b = choose|b: int| 0 <= b < bl.len()
                            && chart_matches_sm_block(c,
                                contents@.subrange((#[trigger] bl[b]).0, bl[b].1 + 1));
                        assert(chart_matches_sm_block(ac[b],
                            contents@.subrange(bl[b].0, bl[b].1 + 1)));
                        assert(c.style@ == ac[b].style@);
                        assert(c.difficulty@ == ac[b].difficulty@);
                        assert(!spec_chart_clash(ac[b], to_style, edit));
                    }
                    None => {}
                }
            }
        }
    }
    let many = charts.len() > 1;
    let mut ret: Vec<u8> = Vec::new();
    let ghost mut ns: Seq<Seq<u8>> = Seq::empty();
    proof {
        assert(Seq::new(0nat, |k: int| spec_chart_out(charts@[k], to_style, *params,
            extra_view, charts@.len() > 1 && edit, edit, is_ssc, ns[k])).len() == 0);
        assert(ret@ =~= spec_concat(Seq::new(0nat, |k: int| spec_chart_out(charts@[k],
            to_style, *params, extra_view, charts@.len() > 1 && edit, edit, is_ssc,
            ns[k]))));
    }
    let mut j: usize = 0;
    while j < charts.len()
        invariant
            j <= charts@.len(),
            params.wf(),
            many == (charts@.len() > 1),
            extra_view == (match extra_description {
                Some(e) => Some(e@),
                None => None,
            }),
            spec_no_block_clash(contents@, to_style, edit, is_ssc),
            forall|k: int| 0 <= k < charts@.len()
                ==> #[trigger] spec_chart_from_block(charts@[k], contents@, is_ssc),
            forall|k: int| 0 <= k < charts@.len()
                ==> spec_chart_keep(#[trigger] charts@[k], from_style, *params),
            ns.len() == j,
            forall|k: int| 0 <= k < ns.len() ==> spec_note_bytes(#[trigger] ns[k]),
            ret@ == spec_concat(Seq::new(j as nat, |k: int| spec_chart_out(charts@[k],
                to_style, *params, extra_view, charts@.len() > 1 && edit, edit, is_ssc,
                ns[k]))),
        decreases charts@.len() - j,
    {
        let chart = &charts[j];
        let generated_notes = match generate_notes(chart, to_style, params) {
            Ok(n) => n,
            Err(e) => {
                return Err(e);
            }
        };
        let block = if is_ssc {
            write_ssc_chart(chart, to_style, params, edit, extra_description,
                many && edit, generated_notes.as_slice())
        } else {
            write_sm_chart(chart, to_style, params, edit, extra_description,
                many && edit, generated_notes.as_slice())
        };
        let ghost ns0 = ns;
        proof {
            ns = ns0.push(generated_notes@);
            let f0 = |k: int| spec_chart_out(charts@[k], to_style, *params, extra_view,
                charts@.len() > 1 && edit, edit, is_ssc, ns0[k]);
            let f1 = |k: int| spec_chart_out(charts@[k], to_style, *params, extra_view,
                charts@.len() > 1 && edit, edit, is_ssc, ns[k]);
            assert(Seq::new(j as nat, f1) =~= Seq::new(j as nat, f0));
            assert(block@ == f1(j as int));
            assert(Seq::new(j as nat + 1, f1) =~= Seq::new(j as nat, f1).push(f1(j as int)));
            lemma_concat_push(Seq::new(j as nat, f1), f1(j as int));
        }
        ret.extend_from_slice(block.as_slice());
        j = j + 1;
    }
    proof {
        assert(spec_generate_pieces(charts@, ns, ret@, contents@, from_style, to_style,
            *params, extra_view, edit, is_ssc));
        assert(spec_generate_out(ret@, contents@, from_style, to_style, *params,
            extra_view, edit, is_ssc));
    }
    Ok(ret)
}


/// Whether one parsed chart takes part in this conversion.  Finding a
/// chart already in the target style (outside edit mode) is an error;
/// charts in other styles, previously generated charts, and charts
/// outside the difficulty bounds are skipped.
pub fn keep_chart(chart: &SMChart, from_style: Style, to_style: Style,
    params: &GeneratorParameters, edit: bool) -> (r: Result<bool, Vec<u8>>)
    ensures
        match r {
            Ok(keep) => !spec_chart_clash(*chart, to_style, edit)
                && keep == spec_chart_keep(*chart, from_style, *params),
            Err(_) => spec_chart_clash(*chart, to_style, edit),
        },
{
    if !edit && bytes_eq(chart.style.as_slice(), to_style.sm_string().as_bytes())
        && !bytes_eq(chart.difficulty.as_slice(), "Edit".as_bytes()) {
        let mut e: Vec<u8> = Vec::new();
        append_str(&mut e, "already contains ");
        append_str(&mut e, to_style.sm_string());
        append_str(&mut e, " charts");
        return Err(e);
    }
    let mut keep = true;
    if !bytes_eq(chart.style.as_slice(), from_style.sm_string().as_bytes()) {
        keep = false;
    }
    if keep && chart.is_autogen() {
        keep = false;
    }
    if keep {
        if let Some(min) = params.min_difficulty {
            if chart.level < min {
                keep = false;
            }
        }
    }
    if keep {
        if let Some(max) = params.max_difficulty {
            if chart.level > max {
                keep = false;
            }
        }
    }
    Ok(keep)
}

/// Deep-copy a list of note rows.
fn copy_lines(lines: &Vec<Vec<u8>>) -> (r: Vec<Vec<u8>>)
    ensures
        r@.len() == lines@.len(),
        forall|k: int| 0 <= k < r@.len() ==> (#[trigger] r@[k])@ == lines@[k]@,
{
    let mut r: Vec<Vec<u8>> = Vec::new();
    let mut i: usize = 0;
    while i < lines.len()
        invariant
            i <= lines@.len(),
            r@.len() == i,
            forall|k: int| 0 <= k < r@.len() ==> (#[trigger] r@[k])@ == lines@[k]@,
        decreases lines@.len() - i,
    {
        r.push(vstd::slice::slice_to_vec(lines[i].as_slice()));
        i = i + 1;
    }
    r
}
} // verus!
