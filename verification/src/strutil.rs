//! Small verified string helpers: decimal rendering of integers,
//! zero-padding, character access and substring search.

use vstd::prelude::*;
use vstd::string::StrSliceExecFns;
use vstd::string::StringExecFns;

verus! {

/// The character for one decimal digit value.
pub open spec fn dec_digit(d: int) -> char {
    if d == 0 {
        '0'
    } else if d == 1 {
        '1'
    } else if d == 2 {
        '2'
    } else if d == 3 {
        '3'
    } else if d == 4 {
        '4'
    } else if d == 5 {
        '5'
    } else if d == 6 {
        '6'
    } else if d == 7 {
        '7'
    } else if d == 8 {
        '8'
    } else {
        '9'
    }
}

/// The decimal digit sequence of a natural number, most significant first.
pub open spec fn spec_dec(n: nat) -> Seq<char>
    decreases n,
{
    if n < 10 {
        seq![dec_digit(n as int)]
    } else {
        spec_dec(n / 10) + seq![dec_digit((n % 10) as int)]
    }
}

/// Executable form of `dec_digit`.
pub fn dec_digit_exec(d: u64) -> (c: char)
    requires
        d < 10,
    ensures
        c == dec_digit(d as int),
{
    if d == 0 {
        '0'
    } else if d == 1 {
        '1'
    } else if d == 2 {
        '2'
    } else if d == 3 {
        '3'
    } else if d == 4 {
        '4'
    } else if d == 5 {
        '5'
    } else if d == 6 {
        '6'
    } else if d == 7 {
        '7'
    } else if d == 8 {
        '8'
    } else {
        '9'
    }
}

/// Relies on `String::push` of std: appends the given character to the
/// end of the string.
#[verifier::external_body]
pub fn push_char(s: &mut String, c: char)
    ensures
        final(s)@ == old(s)@ + seq![c],
{
    s.push(c);
}

/// Renders a `u64` in decimal.
pub fn u64_to_string(n: u64) -> (r: String)
    ensures
        r@ == spec_dec(n as nat),
{
    let mut m: u64 = n;
    let mut r = String::new();
    let mut done = false;
    while !done
        invariant
            !done ==> spec_dec(n as nat) == spec_dec(m as nat) + r@,
            done ==> r@ == spec_dec(n as nat),
        decreases m, (if done { 0int } else { 1int }),
    {
        let d: u64 = m % 10;
        let c: char = dec_digit_exec(d);
        let mut t = String::new();
        push_char(&mut t, c);
        t.append(r.as_str());
        r = t;
        if m < 10 {
            done = true;
            proof {
                assert(spec_dec(m as nat) == seq![dec_digit(d as int)]);
                assert(r@ =~= spec_dec(n as nat));
            }
        } else {
            m = m / 10;
            proof {
                assert(spec_dec(n as nat) =~= spec_dec(m as nat) + r@);
            }
        }
    }
    r
}

/// `n` in decimal, left-padded with zeros to at least `width` characters.
pub open spec fn spec_dec_pad(n: nat, width: nat) -> Seq<char> {
    let d = spec_dec(n);
    if d.len() >= width {
        d
    } else {
        seq_repeat_zero((width - d.len()) as nat) + d
    }
}

/// A sequence of `k` zero characters.
pub open spec fn seq_repeat_zero(k: nat) -> Seq<char>
    decreases k,
{
    if k == 0 {
        Seq::empty()
    } else {
        seq!['0'] + seq_repeat_zero((k - 1) as nat)
    }
}

/// Renders a `u64` in decimal, zero-padded to at least `width` characters.
pub fn u64_to_string_pad(n: u64, width: usize) -> (r: String)
    requires
        width <= 16,
    ensures
        r@ == spec_dec_pad(n as nat, width as nat),
{
    let digits = u64_to_string(n);
    let len = digits.as_str().unicode_len();
    if len >= width {
        proof {
            assert(spec_dec_pad(n as nat, width as nat) == digits@);
        }
        digits
    } else {
        let mut k = width - len;
        let mut r = String::new();
        while k > 0
            invariant
                k <= width - len,
                r@ == seq_repeat_zero((width - len - k) as nat),
            decreases k,
        {
            push_char(&mut r, '0');
            k = k - 1;
            proof {
                lemma_seq_repeat_zero_snoc((width - len - k) as nat);
            }
        }
        r.append(digits.as_str());
        proof {
            assert(r@ == seq_repeat_zero((width - len) as nat) + digits@);
        }
        r
    }
}

proof fn lemma_seq_repeat_zero_snoc(k: nat)
    requires
        k >= 1,
    ensures
        seq_repeat_zero(k) == seq_repeat_zero((k - 1) as nat) + seq!['0'],
    decreases k,
{
    if k == 1 {
        assert(seq_repeat_zero(1) =~= seq_repeat_zero(0) + seq!['0']);
    } else {
        lemma_seq_repeat_zero_snoc((k - 1) as nat);
        assert(seq_repeat_zero(k) =~= seq_repeat_zero((k - 1) as nat) + seq!['0']);
    }
}

/// The characters of a `&str`, as a vector.
pub fn str_chars(s: &str) -> (v: Vec<char>)
    ensures
        v@ == s@,
{
    let n = s.unicode_len();
    let mut v: Vec<char> = Vec::new();
    let mut i: usize = 0;
    while i < n
        invariant
            n == s@.len(),
            i <= n,
            v@ == s@.subrange(0, i as int),
        decreases n - i,
    {
        v.push(s.get_char(i));
        i = i + 1;
        proof {
            assert(v@ =~= s@.subrange(0, i as int));
        }
    }
    proof {
        assert(s@.subrange(0, n as int) =~= s@);
    }
    v
}

/// A `String` with exactly the given characters.
pub fn chars_to_string(v: &Vec<char>) -> (r: String)
    ensures
        r@ == v@,
{
    let mut r = String::new();
    let mut i: usize = 0;
    while i < v.len()
        invariant
            i <= v@.len(),
            r@ == v@.subrange(0, i as int),
        decreases v@.len() - i,
    {
        push_char(&mut r, v[i]);
        i = i + 1;
        proof {
            assert(r@ =~= v@.subrange(0, i as int));
        }
    }
    proof {
        assert(v@.subrange(0, v@.len() as int) =~= v@);
    }
    r
}

/// Whether `p` occurs as a contiguous run inside `s`.
pub open spec fn spec_contains_seq(s: Seq<char>, p: Seq<char>) -> bool {
    exists|i: int| spec_match_at(s, p, i)
}

/// Whether `p` occurs at position `i` of `s`.
pub open spec fn spec_match_at(s: Seq<char>, p: Seq<char>, i: int) -> bool {
    0 <= i && i + p.len() <= s.len() && s.subrange(i, i + p.len() as int) == p
}

pub fn match_at(s: &Vec<char>, p: &Vec<char>, i: usize) -> (r: bool)
    requires
        i + p@.len() <= s@.len(),
    ensures
        r == spec_match_at(s@, p@, i as int),
{
    let slen = s.len();
    let mut j: usize = 0;
    while j < p.len()
        invariant
            i + p@.len() <= s@.len(),
            slen == s@.len(),
            j <= p@.len(),
            forall|k: int| 0 <= k < j ==> s@[i + k] == p@[k],
        decreases p@.len() - j,
    {
        if s[i + j] != p[j] {
            proof {
                assert(s@.subrange(i as int, i + p@.len() as int)[j as int] != p@[j as int]);
            }
            return false;
        }
        j = j + 1;
    }
    proof {
        assert(s@.subrange(i as int, i + p@.len() as int) =~= p@);
    }
    true
}

/// Substring search over character sequences.
pub fn contains_chars(s: &Vec<char>, p: &Vec<char>) -> (r: bool)
    ensures
        r == spec_contains_seq(s@, p@),
{
    if p.len() > s.len() {
        return false;
    }
    if p.len() == 0 {
        proof {
            assert(spec_match_at(s@, p@, 0)) by {
                assert(s@.subrange(0, 0) =~= p@);
            }
        }
        return true;
    }
    let bound = s.len() - p.len();
    let mut i: usize = 0;
    while i <= bound
        invariant
            1 <= p@.len() <= s@.len(),
            bound == s@.len() - p@.len(),
            bound < usize::MAX,
            i <= bound + 1,
            forall|k: int| 0 <= k < i ==> !spec_match_at(s@, p@, k),
        decreases bound + 1 - i,
    {
        if match_at(s, p, i) {
            return true;
        }
        i = i + 1;
    }
    false
}

/// Substring search over `&str`.
pub fn str_contains(s: &str, p: &str) -> (r: bool)
    ensures
        r == spec_contains_seq(s@, p@),
{
    let sv = str_chars(s);
    let pv = str_chars(p);
    contains_chars(&sv, &pv)
}

/// Whether `s` starts with prefix `p`.
pub open spec fn spec_starts_with(s: Seq<char>, p: Seq<char>) -> bool {
    p.len() <= s.len() && s.subrange(0, p.len() as int) == p
}

/// Whether `s` ends with suffix `p`.
pub open spec fn spec_ends_with(s: Seq<char>, p: Seq<char>) -> bool {
    p.len() <= s.len() && s.subrange(s.len() - p.len(), s.len() as int) == p
}

/// Prefix test over `&str`.
pub fn str_starts_with(s: &str, p: &str) -> (r: bool)
    ensures
        r == spec_starts_with(s@, p@),
{
    let sv = str_chars(s);
    let pv = str_chars(p);
    if pv.len() > sv.len() {
        return false;
    }
    let r = match_at(&sv, &pv, 0);
    r
}

/// Suffix test over `&str`.
pub fn str_ends_with(s: &str, p: &str) -> (r: bool)
    ensures
        r == spec_ends_with(s@, p@),
{
    let sv = str_chars(s);
    let pv = str_chars(p);
    if pv.len() > sv.len() {
        return false;
    }
    let i = sv.len() - pv.len();
    let r = match_at(&sv, &pv, i);
    r
}

/// Equality test over `&str`.
pub fn str_eq(a: &str, b: &str) -> (r: bool)
    ensures
        r == (a@ == b@),
{
    let av = str_chars(a);
    let bv = str_chars(b);
    if av.len() != bv.len() {
        return false;
    }
    let r = match_at(&av, &bv, 0);
    proof {
        assert(a@.subrange(0, a@.len() as int) =~= a@);
    }
    r
}

} // verus!
