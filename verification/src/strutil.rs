//! Character and string helpers shared by the heuristic, the event
//! constructors and the JSON codec: ASCII case mapping, suffix and substring
//! search, decimal rendering, and conversions between `&str`, `Vec<char>`
//! and `String`.
use vstd::prelude::*;

verus! {

/// ASCII lowercase: maps `'A'..='Z'` to `'a'..='z'`, leaves all else alone.
pub open spec fn lower_char(c: char) -> char {
    if 65 <= c as u32 && c as u32 <= 90 {
        (c as u32 + 32) as char
    } else {
        c
    }
}

/// ASCII uppercase: maps `'a'..='z'` to `'A'..='Z'`, leaves all else alone.
pub open spec fn upper_char(c: char) -> char {
    if 97 <= c as u32 && c as u32 <= 122 {
        (c as u32 - 32) as char
    } else {
        c
    }
}

pub open spec fn lower_seq(s: Seq<char>) -> Seq<char> {
    Seq::new(s.len(), |i: int| lower_char(s[i]))
}

pub open spec fn upper_seq(s: Seq<char>) -> Seq<char> {
    Seq::new(s.len(), |i: int| upper_char(s[i]))
}

/// Lowercasing is blind to prior ASCII case changes.
pub proof fn lemma_lower_upper_char(c: char)
    ensures
        lower_char(upper_char(c)) == lower_char(c),
{
}

pub proof fn lemma_lower_seq_upper_seq(s: Seq<char>)
    ensures
        lower_seq(upper_seq(s)) =~= lower_seq(s),
{
    assert forall|i: int| 0 <= i < s.len() implies lower_seq(upper_seq(s))[i] == lower_seq(
        s,
    )[i] by {
        lemma_lower_upper_char(s[i]);
    }
}

pub fn to_lower_char(c: char) -> (r: char)
    ensures
        r == lower_char(c),
{
    let u = c as u32;
    if 65 <= u && u <= 90 {
        ((c as u8) + 32) as char
    } else {
        c
    }
}

/// `p` is a suffix of `s`.
pub open spec fn suffix_of(p: Seq<char>, s: Seq<char>) -> bool {
    p.len() <= s.len() && s.subrange(s.len() - p.len(), s.len() as int) == p
}

/// `p` occurs in `s` starting at index `i`.
pub open spec fn occurs_at(s: Seq<char>, p: Seq<char>, i: int) -> bool {
    0 <= i && i + p.len() <= s.len() && s.subrange(i, i + p.len()) == p
}

/// `p` occurs somewhere in `s` as a contiguous substring.
pub open spec fn contains_seq(s: Seq<char>, p: Seq<char>) -> bool {
    exists|i: int| occurs_at(s, p, i)
}

/// The characters of `s`, in order, as a vector.
pub fn str_to_chars(s: &str) -> (v: Vec<char>)
    ensures
        v@ == s@,
{
    let n = s.unicode_len();
    let mut v: Vec<char> = Vec::new();
    let mut i: usize = 0;
    while i < n
        invariant
            i <= n,
            n == s@.len(),
            v@ =~= s@.take(i as int),
        decreases n - i,
    {
        v.push(s.get_char(i));
        i += 1;
    }
    assert(v@ =~= s@);
    v
}

/// Relies on `String::push`: appends the given character to the end of the
/// string's character sequence.
#[verifier::external_body]
pub(crate) fn push_char(s: &mut String, c: char)
    ensures
        final(s)@ == old(s)@.push(c),
{
    s.push(c)
}

/// A string holding exactly the characters of `v`, in order.
pub fn chars_to_string(v: &Vec<char>) -> (s: String)
    ensures
        s@ == v@,
{
    let mut s = String::new();
    let mut i: usize = 0;
    while i < v.len()
        invariant
            i <= v@.len(),
            s@ =~= v@.take(i as int),
        decreases v@.len() - i,
    {
        push_char(&mut s, v[i]);
        i += 1;
    }
    assert(s@ =~= v@);
    s
}

/// String equality over character sequences.
pub fn str_eq(a: &str, b: &str) -> (r: bool)
    ensures
        r == (a@ == b@),
{
    let n = a.unicode_len();
    if n != b.unicode_len() {
        return false;
    }
    let mut i: usize = 0;
    while i < n
        invariant
            i <= n,
            n == a@.len() == b@.len(),
            forall|k: int| 0 <= k < i ==> a@[k] == b@[k],
        decreases n - i,
    {
        if a.get_char(i) != b.get_char(i) {
            return false;
        }
        i += 1;
    }
    assert(a@ =~= b@);
    true
}

/// Whether the characters of `v` end with the pattern `p`.
pub fn chars_end_with(v: &Vec<char>, p: &str) -> (r: bool)
    ensures
        r == suffix_of(p@, v@),
{
    let pl = p.unicode_len();
    let n = v.len();
    if pl > n {
        return false;
    }
    let off = n - pl;
    let mut j: usize = 0;
    while j < pl
        invariant
            j <= pl,
            pl == p@.len(),
            n == v@.len(),
            off == n - pl,
            forall|k: int| 0 <= k < j ==> v@[off + k] == p@[k],
        decreases pl - j,
    {
        if v[off + j] != p.get_char(j) {
            assert(v@.subrange(n - pl, n as int)[j as int] != p@[j as int]);
            return false;
        }
        j += 1;
    }
    assert(v@.subrange(n - pl, n as int) =~= p@);
    true
}

/// Whether `p` matches the characters of `v` starting at index `i`.
fn chars_match_at(v: &Vec<char>, p: &str, i: usize) -> (r: bool)
    requires
        i + p@.len() <= v@.len(),
    ensures
        r == occurs_at(v@, p@, i as int),
{
    let pl = p.unicode_len();
    let n = v.len();
    let mut j: usize = 0;
    while j < pl
        invariant
            j <= pl,
            pl == p@.len(),
            n == v@.len(),
            i + pl <= n,
            forall|k: int| 0 <= k < j ==> v@[i + k] == p@[k],
        decreases pl - j,
    {
        if v[i + j] != p.get_char(j) {
            assert(v@.subrange(i as int, i + p@.len())[j as int] != p@[j as int]);
            return false;
        }
        j += 1;
    }
    assert(v@.subrange(i as int, i + p@.len()) =~= p@);
    true
}

/// Whether the characters of `v` contain the pattern `p` as a substring.
pub fn chars_contain(v: &Vec<char>, p: &str) -> (r: bool)
    ensures
        r == contains_seq(v@, p@),
{
    let pl = p.unicode_len();
    let n = v.len();
    if pl > n {
        assert(forall|i: int| !occurs_at(v@, p@, i));
        return false;
    }
    if pl == 0 {
        assert(v@.subrange(0, 0) =~= p@);
        assert(occurs_at(v@, p@, 0));
        return true;
    }
    let last = n - pl;
    let mut i: usize = 0;
    while i <= last
        invariant
            i <= last + 1,
            last == n - pl,
            1 <= pl,
            pl == p@.len(),
            n == v@.len(),
            forall|k: int| 0 <= k < i ==> !occurs_at(v@, p@, k),
        decreases last - i + 1,
    {
        if chars_match_at(v, p, i) {
            assert(occurs_at(v@, p@, i as int));
            return true;
        }
        i += 1;
    }
    assert(forall|k: int| k > last ==> !occurs_at(v@, p@, k));
    false
}

/// Decimal digit character for a value below ten.
pub open spec fn digit_char(d: int) -> char {
    (48 + d) as char
}

/// Decimal rendering of `n`, without leading zeros (a single `'0'` for zero).
pub open spec fn dec_digits(n: nat) -> Seq<char>
    decreases n,
{
    if n < 10 {
        seq![digit_char(n as int)]
    } else {
        dec_digits(n / 10) + seq![digit_char((n % 10) as int)]
    }
}

fn push_dec_u32(out: &mut Vec<char>, n: u32)
    ensures
        final(out)@ == old(out)@ + dec_digits(n as nat),
    decreases n,
{
    if n < 10 {
        out.push((48 + (n as u8)) as char);
    } else {
        push_dec_u32(out, n / 10);
        out.push((48 + ((n % 10) as u8)) as char);
    }
    assert(out@ =~= old(out)@ + dec_digits(n as nat));
}

/// Decimal rendering of a 32-bit value, without leading zeros.
pub fn u32_to_decimal(n: u32) -> (s: String)
    ensures
        s@ == dec_digits(n as nat),
{
    let mut out: Vec<char> = Vec::new();
    push_dec_u32(&mut out, n);
    chars_to_string(&out)
}

} // verus!
