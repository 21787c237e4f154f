//! Envelope and continuation ingestion.
//!
//! A log line carries a fixed-grammar prefix (level, month/day,
//! time-with-microseconds, thread id, source path and line) followed by a
//! JSON payload at a computable offset.  A line that does not match the
//! grammar is dropped and counted; ingestion continues with the next
//! line.  Continuation payloads follow a record announcing an expected
//! content hash: every following tab-prefixed physical line is consumed,
//! the tabs stripped, and the block joined with newlines (no trailing
//! newline).  The block's MD5 is compared byte for byte against the
//! hex-decoded expectation; a mismatch is counted but the payload is
//! still delivered.

use vstd::prelude::*;
use md5::Digest;
use vstd::string::StrSliceExecFns;
use crate::strutil::str_chars;
use crate::strutil::chars_to_string;

verus! {

/// Decimal digit test.
pub open spec fn spec_is_digit(c: char) -> bool {
    48 <= c as int && c as int <= 57
}

/// The index just after the maximal digit run starting at `from`.
pub open spec fn spec_digits_end(s: Seq<char>, from: int) -> int
    decreases s.len() - from,
{
    if 0 <= from < s.len() && spec_is_digit(s[from]) {
        spec_digits_end(s, from + 1)
    } else {
        from
    }
}

/// The index just after the maximal colon-free run starting at `from`.
pub open spec fn spec_noncolon_end(s: Seq<char>, from: int) -> int
    decreases s.len() - from,
{
    if 0 <= from < s.len() && s[from] != ':' {
        spec_noncolon_end(s, from + 1)
    } else {
        from
    }
}

/// The value of the digit run `s[from..to]`.
pub open spec fn spec_digits_val(s: Seq<char>, from: int, to: int) -> int
    decreases to - from,
{
    if from >= to {
        0
    } else {
        spec_digits_val(s, from, to - 1) * 10 + (s[to - 1] as int - 48)
    }
}

/// Whether `c` is one of the accepted severity levels.
pub open spec fn spec_is_level(c: char) -> bool {
    c == 'V' || c == 'I' || c == 'W' || c == 'E' || c == 'C'
}

/// Where the thread-id digits begin.
pub open spec fn spec_thread_start() -> int {
    22
}

/// The fixed line grammar: level, 2-digit month and day, a space,
/// hh:mm:ss, one separator character, 6 microsecond digits, a space, the
/// thread id digits, the source path (everything up to the next colon),
/// a colon, the source line digits, "] ", and at least one payload
/// character.  The thread id and line number are capped at 19 digits,
/// which always fit a `u64`.
pub open spec fn glog_ok(s: Seq<char>) -> bool {
    let te = spec_digits_end(s, 22);
    let pe = spec_noncolon_end(s, te);
    let le = spec_digits_end(s, pe + 1);
    &&& s.len() >= 23
    &&& spec_is_level(s[0])
    &&& spec_is_digit(s[1]) && spec_is_digit(s[2]) && spec_is_digit(s[3]) && spec_is_digit(s[4])
    &&& s[5] == ' '
    &&& spec_is_digit(s[6]) && spec_is_digit(s[7])
    &&& s[8] == ':'
    &&& spec_is_digit(s[9]) && spec_is_digit(s[10])
    &&& s[11] == ':'
    &&& spec_is_digit(s[12]) && spec_is_digit(s[13])
    &&& spec_is_digit(s[15]) && spec_is_digit(s[16]) && spec_is_digit(s[17]) && spec_is_digit(
        s[18],
    ) && spec_is_digit(s[19]) && spec_is_digit(s[20])
    &&& s[21] == ' '
    &&& te > 22 && te - 22 <= 19
    &&& pe > te
    &&& pe < s.len() && s[pe] == ':'
    &&& le > pe + 1 && le - (pe + 1) <= 19
    &&& le + 2 < s.len()
    &&& le < s.len() && s[le] == ']'
    &&& le + 1 < s.len() && s[le + 1] == ' '
}

/// The decoded prefix of one grammar-conforming line.
pub struct GlogHeader {
    pub level: char,
    pub month: u64,
    pub day: u64,
    pub hour: u64,
    pub minute: u64,
    pub second: u64,
    pub micros: u64,
    pub thread: u64,
    pub pathname: String,
    pub source_line: u64,
    pub payload: String,
}

/// The fields a correct decode must carry.
pub open spec fn header_matches(s: Seq<char>, h: GlogHeader) -> bool {
    let te = spec_digits_end(s, 22);
    let pe = spec_noncolon_end(s, te);
    let le = spec_digits_end(s, pe + 1);
    &&& h.level == s[0]
    &&& h.month == spec_digits_val(s, 1, 3)
    &&& h.day == spec_digits_val(s, 3, 5)
    &&& h.hour == spec_digits_val(s, 6, 8)
    &&& h.minute == spec_digits_val(s, 9, 11)
    &&& h.second == spec_digits_val(s, 12, 14)
    &&& h.micros == spec_digits_val(s, 15, 21)
    &&& h.thread == spec_digits_val(s, 22, te)
    &&& h.pathname@ == s.subrange(te, pe)
    &&& h.source_line == spec_digits_val(s, pe + 1, le)
    &&& h.payload@ == s.subrange(le + 2, s.len() as int)
}

/// Exec scan for the end of a digit run.
fn digits_end(v: &Vec<char>, from: usize) -> (r: usize)
    requires
        from <= v@.len(),
    ensures
        r == spec_digits_end(v@, from as int),
        from <= r <= v@.len(),
{
    let mut i = from;
    while i < v.len() && is_digit_exec(v[i])
        invariant
            from <= i <= v@.len(),
            spec_digits_end(v@, from as int) == spec_digits_end(v@, i as int),
        decreases v@.len() - i,
    {
        i = i + 1;
    }
    proof {
        assert(spec_digits_end(v@, i as int) == i);
        assert(spec_digits_end(v@, from as int) >= from) by {
            lemma_digits_end_ge(v@, from as int);
        }
    }
    i
}

proof fn lemma_digits_end_ge(s: Seq<char>, from: int)
    ensures
        spec_digits_end(s, from) >= from,
    decreases s.len() - from,
{
    if 0 <= from < s.len() && spec_is_digit(s[from]) {
        lemma_digits_end_ge(s, from + 1);
    }
}

/// Every character of a digit run is a digit, and the run is maximal.
proof fn lemma_digits_end_props(s: Seq<char>, from: int)
    requires
        0 <= from <= s.len(),
    ensures
        from <= spec_digits_end(s, from) <= s.len(),
        forall|k: int| from <= k < spec_digits_end(s, from) ==> spec_is_digit(#[trigger] s[k]),
        spec_digits_end(s, from) < s.len() ==> !spec_is_digit(s[spec_digits_end(s, from)]),
    decreases s.len() - from,
{
    if from < s.len() && spec_is_digit(s[from]) {
        lemma_digits_end_props(s, from + 1);
    }
}

/// Every character of a colon-free run avoids the colon, and the run is
/// maximal.
proof fn lemma_noncolon_end_props(s: Seq<char>, from: int)
    requires
        0 <= from <= s.len(),
    ensures
        from <= spec_noncolon_end(s, from) <= s.len(),
        forall|k: int| from <= k < spec_noncolon_end(s, from) ==> #[trigger] s[k] != ':',
        spec_noncolon_end(s, from) < s.len() ==> s[spec_noncolon_end(s, from)] == ':',
    decreases s.len() - from,
{
    if from < s.len() && s[from] != ':' {
        lemma_noncolon_end_props(s, from + 1);
    }
}

/// Exec scan for the end of a colon-free run.
fn noncolon_end(v: &Vec<char>, from: usize) -> (r: usize)
    requires
        from <= v@.len(),
    ensures
        r == spec_noncolon_end(v@, from as int),
        from <= r <= v@.len(),
{
    let mut i = from;
    while i < v.len() && v[i] != ':'
        invariant
            from <= i <= v@.len(),
            spec_noncolon_end(v@, from as int) == spec_noncolon_end(v@, i as int),
        decreases v@.len() - i,
    {
        i = i + 1;
    }
    i
}

/// Exec digit test.
pub fn is_digit_exec(c: char) -> (r: bool)
    ensures
        r == spec_is_digit(c),
{
    '0' <= c && c <= '9'
}

/// The value of a digit run of at most 19 digits.
fn digits_val(v: &Vec<char>, from: usize, to: usize) -> (r: u64)
    requires
        from <= to <= v@.len(),
        to - from <= 19,
        forall|k: int| from <= k < to ==> spec_is_digit(v@[k]),
    ensures
        r == spec_digits_val(v@, from as int, to as int),
{
    let mut acc: u64 = 0;
    let mut i = from;
    while i < to
        invariant
            from <= i <= to <= v@.len(),
            to - from <= 19,
            forall|k: int| from <= k < to ==> spec_is_digit(v@[k]),
            acc == spec_digits_val(v@, from as int, i as int),
            acc < 0x8AC7_2304_89E8_0000,  // 10^19
        decreases to - i,
    {
        proof {
            lemma_digits_val_bound(v@, from as int, i as int);
            vstd::arithmetic::power::lemma_pow_increases(10, (i - from) as nat, 18);
            assert(vstd::arithmetic::power::pow(10, 18) == 0xDE0_B6B3_A764_0000) by {
                reveal_with_fuel(vstd::arithmetic::power::pow, 19);
            }
            let a: int = acc as int;
            assert(a * 10 + 9 < u64::MAX) by (nonlinear_arith)
                requires
                    0 <= a < 0xDE0_B6B3_A764_0000,
            ;
        }
        let d: u64 = (v[i] as u32 as u64) - 48;
        acc = acc * 10 + d;
        i = i + 1;
        proof {
            lemma_digits_val_bound(v@, from as int, i as int);
        }
    }
    acc
}

/// A run of at most 19 digits stays below 10^19.
proof fn lemma_digits_val_bound(s: Seq<char>, from: int, to: int)
    requires
        from <= to,
        to - from <= 19,
        forall|k: int| from <= k < to ==> spec_is_digit(s[k]),
    ensures
        0 <= spec_digits_val(s, from, to),
        spec_digits_val(s, from, to) < vstd::arithmetic::power::pow(10, (to - from) as nat),
        spec_digits_val(s, from, to) < 0x8AC7_2304_89E8_0000,
    decreases to - from,
{
    vstd::arithmetic::power::lemma_pow_positive(10, (to - from) as nat);
    if from >= to {
        vstd::arithmetic::power::lemma_pow0(10);
    } else {
        lemma_digits_val_bound(s, from, to - 1);
        let p = vstd::arithmetic::power::pow(10, (to - 1 - from) as nat);
        assert(vstd::arithmetic::power::pow(10, (to - from) as nat) == 10 * p) by {
            vstd::arithmetic::power::lemma_pow1(10);
            vstd::arithmetic::power::lemma_pow_adds(10, (to - 1 - from) as nat, 1);
            vstd::arithmetic::power::lemma_pow1(10);
        }
        assert(spec_digits_val(s, from, to - 1) * 10 + 9 < 10 * p) by (nonlinear_arith)
            requires
                spec_digits_val(s, from, to - 1) < p,
                p >= 1,
        ;
        assert(spec_digits_val(s, from, to) < 10 * p);
        assert(vstd::arithmetic::power::pow(10, 19) == 0x8AC7_2304_89E8_0000) by {
            reveal_with_fuel(vstd::arithmetic::power::pow, 20);
        }
        if to - from < 19 {
            vstd::arithmetic::power::lemma_pow_increases(10, (to - from) as nat, 19);
        }
        assert(spec_digits_val(s, from, to - 1) >= 0);
        assert(spec_digits_val(s, from, to) >= 0) by (nonlinear_arith)
            requires
                spec_digits_val(s, from, to) == spec_digits_val(s, from, to - 1) * 10 + (s[to - 1]
                    as int - 48),
                spec_digits_val(s, from, to - 1) >= 0,
                s[to - 1] as int >= 48,
        ;
    }
}

/// Decodes one line against the fixed grammar; `None` exactly on a
/// grammar mismatch.
pub fn parse_glog_line(line: &str) -> (r: Option<GlogHeader>)
    ensures
        (r is Some) == glog_ok(line@),
        r matches Some(h) ==> header_matches(line@, h),
{
    let v = str_chars(line);
    let n = v.len();
    if n < 23 {
        return None;
    }
    let lv = v[0];
    if !(lv == 'V' || lv == 'I' || lv == 'W' || lv == 'E' || lv == 'C') {
        return None;
    }
    if !(is_digit_exec(v[1]) && is_digit_exec(v[2]) && is_digit_exec(v[3]) && is_digit_exec(v[4])) {
        return None;
    }
    if !(v[5] == ' ') {
        return None;
    }
    if !(is_digit_exec(v[6]) && is_digit_exec(v[7]) && v[8] == ':' && is_digit_exec(v[9])
        && is_digit_exec(v[10]) && v[11] == ':' && is_digit_exec(v[12]) && is_digit_exec(v[13])) {
        return None;
    }
    if !(is_digit_exec(v[15]) && is_digit_exec(v[16]) && is_digit_exec(v[17]) && is_digit_exec(
        v[18],
    ) && is_digit_exec(v[19]) && is_digit_exec(v[20]) && v[21] == ' ') {
        return None;
    }
    let te = digits_end(&v, 22);
    if !(te > 22 && te - 22 <= 19) {
        return None;
    }
    let pe = noncolon_end(&v, te);
    if !(pe > te && pe < n) {
        return None;
    }
    let le = digits_end(&v, pe + 1);
    if !(le > pe + 1 && le - (pe + 1) <= 19) {
        return None;
    }
    if le >= n || n - le <= 2 {
        return None;
    }
    if !(v[le] == ']' && v[le + 1] == ' ') {
        return None;
    }
    proof {
        lemma_digits_end_props(v@, 22);
        lemma_noncolon_end_props(v@, te as int);
        lemma_digits_end_props(v@, pe as int + 1);
        assert(glog_ok(line@));
    }
    let thread = digits_val(&v, 22, te);
    let month = digits_val(&v, 1, 3);
    let day = digits_val(&v, 3, 5);
    let hour = digits_val(&v, 6, 8);
    let minute = digits_val(&v, 9, 11);
    let second = digits_val(&v, 12, 14);
    let micros = digits_val(&v, 15, 21);
    let source_line = digits_val(&v, pe + 1, le);
    let mut path_chars: Vec<char> = Vec::new();
    let mut i = te;
    while i < pe
        invariant
            te <= i <= pe <= v@.len(),
            path_chars@ == v@.subrange(te as int, i as int),
        decreases pe - i,
    {
        path_chars.push(v[i]);
        i = i + 1;
        proof {
            assert(path_chars@ =~= v@.subrange(te as int, i as int));
        }
    }
    let pathname = chars_to_string(&path_chars);
    let mut payload_chars: Vec<char> = Vec::new();
    let mut j = le + 2;
    while j < n
        invariant
            le + 2 <= j <= n == v@.len(),
            payload_chars@ == v@.subrange(le + 2, j as int),
        decreases n - j,
    {
        payload_chars.push(v[j]);
        j = j + 1;
        proof {
            assert(payload_chars@ =~= v@.subrange(le + 2, j as int));
        }
    }
    let payload = chars_to_string(&payload_chars);
    Some(
        GlogHeader {
            level: lv,
            month,
            day,
            hour,
            minute,
            second,
            micros,
            thread,
            pathname,
            source_line,
            payload,
        },
    )
}

/// Whether a physical line is a continuation line (tab-prefixed).
pub open spec fn spec_is_cont(l: Seq<char>) -> bool {
    l.len() > 0 && l[0] == '\t'
}

/// The index of the first line at or after `start` that is not
/// tab-prefixed: the continuation block ends there.
pub open spec fn spec_cont_end(lines: Seq<Seq<char>>, start: int) -> int
    decreases lines.len() - start,
{
    if 0 <= start < lines.len() && spec_is_cont(lines[start]) {
        spec_cont_end(lines, start + 1)
    } else {
        start
    }
}

/// The continuation block: the tab-stripped lines of
/// `lines[start..end]`, joined with newlines, no trailing newline.
pub open spec fn spec_cont_payload(lines: Seq<Seq<char>>, start: int, end: int) -> Seq<char>
    decreases end - start,
{
    if start >= end {
        Seq::empty()
    } else if end == start + 1 {
        lines[start].drop_first()
    } else {
        spec_cont_payload(lines, start, end - 1) + seq!['\n'] + lines[end - 1].drop_first()
    }
}

/// Consumes the continuation block that follows line `start`: every
/// immediately following tab-prefixed physical line, stopping at the
/// first line that does not start with a tab.  Returns the joined block
/// and the index of the first unconsumed line.
pub fn gather_payload(lines: &Vec<String>, start: usize) -> (r: (String, usize))
    requires
        start <= lines@.len(),
    ensures
        r.1 == spec_cont_end(lines@.map_values(|l: String| l@), start as int),
        start <= r.1 <= lines@.len(),
        r.0@ == spec_cont_payload(
            lines@.map_values(|l: String| l@),
            start as int,
            r.1 as int,
        ),
{
    let ghost lv = lines@.map_values(|l: String| l@);
    let mut out = String::new();
    let mut i = start;
    while i < lines.len() && first_is_tab(lines[i].as_str())
        invariant
            start <= i <= lines@.len(),
            lv == lines@.map_values(|l: String| l@),
            spec_cont_end(lv, start as int) == spec_cont_end(lv, i as int),
            out@ == spec_cont_payload(lv, start as int, i as int),
        decreases lines@.len() - i,
    {
        let l = &lines[i];
        let ll = l.as_str().unicode_len();
        if i > start {
            crate::strutil::push_char(&mut out, '\n');
        }
        let stripped = l.as_str().substring_char(1, ll);
        out.append(stripped);
        proof {
            assert(lv[i as int] == l@);
            assert(lv[i as int].drop_first() =~= l@.subrange(1, l@.len() as int));
        }
        i = i + 1;
        proof {
            assert(out@ =~= spec_cont_payload(lv, start as int, i as int));
        }
    }
    proof {
        assert(spec_cont_end(lv, i as int) == i);
    }
    (out, i)
}

/// Whether a string's first character is a tab.
fn first_is_tab(s: &str) -> (r: bool)
    ensures
        r == spec_is_cont(s@),
{
    let n = s.unicode_len();
    if n == 0 {
        false
    } else {
        s.get_char(0) == '\t'
    }
}

/// The MD5 digest of the payload text, named; the digest is a function
/// of the characters alone.
pub uninterp spec fn md5_of(s: Seq<char>) -> Seq<u8>;

/// Relies on the `md-5` crate's `Md5`: computes the 16-byte MD5 digest
/// of the text's UTF-8 bytes.
#[verifier::external_body]
fn md5_digest(s: &str) -> (r: Vec<u8>)
    ensures
        r@ == md5_of(s@),
        r@.len() == 16,
{
    md5::Md5::digest(s.as_bytes()).to_vec()
}

/// The value of one lowercase hex digit, or -1.
pub open spec fn spec_hex_val(c: char) -> int {
    if 48 <= c as int && c as int <= 57 {
        c as int - 48
    } else if 97 <= c as int && c as int <= 102 {
        c as int - 87
    } else {
        -1
    }
}

/// The bytes a lowercase hex string denotes (two digits per byte).
pub open spec fn spec_hex_bytes(s: Seq<char>, nbytes: int) -> Seq<u8>
    decreases nbytes,
{
    if nbytes <= 0 {
        Seq::empty()
    } else {
        spec_hex_bytes(s, nbytes - 1) + seq![
            (spec_hex_val(s[2 * (nbytes - 1)]) * 16 + spec_hex_val(s[2 * nbytes - 1])) as u8,
        ]
    }
}

/// Whether the expectation decodes into a 16-byte buffer: even length,
/// at most 32 lowercase hex digits.
pub open spec fn spec_hex_decodes(s: Seq<char>) -> bool {
    &&& s.len() % 2 == 0
    &&& s.len() <= 32
    &&& forall|k: int| 0 <= k < s.len() ==> spec_hex_val(#[trigger] s[k]) >= 0
}

/// The expected digest: the decoded bytes, zero-padded to 16.
pub open spec fn spec_expect_buf(s: Seq<char>) -> Seq<u8> {
    spec_hex_bytes(s, (s.len() / 2) as int) + Seq::new((16 - s.len() / 2) as nat, |k: int| 0u8)
}

/// The payload passes the integrity check: the expectation is valid
/// lowercase hex and its zero-padded decoding equals the payload's MD5.
pub open spec fn spec_integrity_ok(expect: Seq<char>, payload: Seq<char>) -> bool {
    spec_hex_decodes(expect) && spec_expect_buf(expect) == md5_of(payload)
}

/// Exec value of one hex digit (-1 encoded as None).
fn hex_val(c: char) -> (r: Option<u8>)
    ensures
        match r {
            Some(d) => spec_hex_val(c) == d,
            None => spec_hex_val(c) < 0,
        },
{
    if '0' <= c && c <= '9' {
        Some(((c as u32) - 48) as u8)
    } else if 'a' <= c && c <= 'f' {
        Some(((c as u32) - 87) as u8)
    } else {
        None
    }
}

/// Verifies a continuation block against its expected content hash.
/// True exactly when the expectation is well-formed lowercase hex and
/// its zero-padded decoding equals the block's MD5 digest.
pub fn check_payload_integrity(expect: &str, payload: &str) -> (ok: bool)
    ensures
        ok == spec_integrity_ok(expect@, payload@),
{
    let ev = str_chars(expect);
    let n = ev.len();
    if n % 2 != 0 || n > 32 {
        return false;
    }
    let nb = n / 2;
    let mut buf: Vec<u8> = Vec::new();
    let mut i: usize = 0;
    while i < nb
        invariant
            i <= nb,
            nb == ev@.len() / 2,
            ev@.len() % 2 == 0,
            ev@.len() <= 32,
            buf@.len() == i,
            ev@ == expect@,
            forall|k: int| 0 <= k < 2 * i ==> spec_hex_val(#[trigger] ev@[k]) >= 0,
            buf@ == spec_hex_bytes(ev@, i as int),
        decreases nb - i,
    {
        let hi = hex_val(ev[2 * i]);
        let lo = hex_val(ev[2 * i + 1]);
        match (hi, lo) {
            (Some(h), Some(l)) => {
                proof {
                    assert(spec_hex_val(ev@[2 * i]) <= 15);
                    assert(spec_hex_val(ev@[2 * i + 1]) <= 15);
                }
                buf.push(h * 16 + l);
                proof {
                    assert(buf@ =~= spec_hex_bytes(ev@, i + 1));
                }
            },
            _ => {
                proof {
                    if hi is None {
                        assert(spec_hex_val(ev@[2 * i as int]) < 0);
                    } else {
                        assert(spec_hex_val(ev@[2 * i as int + 1]) < 0);
                    }
                    assert(!spec_hex_decodes(expect@));
                }
                return false;
            },
        }
        i = i + 1;
    }
    while buf.len() < 16
        invariant
            buf@.len() >= nb,
            buf@.len() <= 16,
            nb == ev@.len() / 2,
            ev@.len() % 2 == 0,
            ev@.len() <= 32,
            forall|k: int| 0 <= k < 2 * nb ==> spec_hex_val(#[trigger] ev@[k]) >= 0,
            buf@ == spec_hex_bytes(ev@, nb as int) + Seq::new(
                (buf@.len() - nb) as nat,
                |k: int| 0u8,
            ),
        decreases 16 - buf@.len(),
    {
        buf.push(0);
        proof {
            assert(buf@ =~= spec_hex_bytes(ev@, nb as int) + Seq::new(
                (buf@.len() - nb) as nat,
                |k: int| 0u8,
            ));
        }
    }
    proof {
        assert(spec_hex_decodes(ev@));
        assert(buf@ == spec_expect_buf(ev@));
    }
    let digest = md5_digest(payload);
    let mut k: usize = 0;
    while k < 16
        invariant
            k <= 16,
            buf@.len() == 16,
            digest@.len() == 16,
            buf@ == spec_expect_buf(expect@),
            digest@ == md5_of(payload@),
            spec_hex_decodes(expect@),
            forall|m: int| 0 <= m < k ==> buf@[m] == digest@[m],
        decreases 16 - k,
    {
        if buf[k] != digest[k] {
            proof {
                assert(buf@ != digest@);
            }
            return false;
        }
        k = k + 1;
    }
    proof {
        assert(buf@ =~= digest@);
    }
    true
}

} // verus!
