//! Character-level text helpers shared by the router, the codec and the
//! metadata derivation.
//!
//! All reasoning in this crate happens over `Seq<char>`; these helpers move
//! between `String`/`&str` and `Vec<char>` and render decimal numbers.

use vstd::prelude::*;

verus! {

/// Relies on `str::chars`: iterating a string slice yields exactly its
/// characters, in order.
#[verifier::external_body]
pub(crate) fn str_chars(s: &str) -> (r: Vec<char>)
    ensures
        r@ == s@,
{
    s.chars().collect()
}

/// Relies on `String: FromIterator<char>`: collecting characters builds the
/// string consisting of exactly those characters, in order.
#[verifier::external_body]
pub(crate) fn chars_string(v: &Vec<char>) -> (r: String)
    ensures
        r@ == v@,
{
    v.iter().collect()
}

/// True when the characters of `a` are exactly those of `s`.
pub(crate) fn chars_eq_str(a: &Vec<char>, s: &str) -> (r: bool)
    ensures
        r == (a@ == s@),
{
    let cs = str_chars(s);
    if a.len() != cs.len() {
        proof {
            if a@ == s@ {
                assert(a@.len() == s@.len());
            }
        }
        return false;
    }
    let mut i: usize = 0;
    while i < a.len()
        invariant
            0 <= i <= a@.len(),
            a@.len() == cs@.len(),
            cs@ == s@,
            forall|j: int| 0 <= j < i ==> a@[j] == s@[j],
        decreases a@.len() - i,
    {
        if a[i] != cs[i] {
            return false;
        }
        i = i + 1;
    }
    proof {
        assert(a@ =~= s@);
    }
    true
}

/// Index of the first occurrence of `c` in `s`, or `s.len()` when there is
/// none.
pub open spec fn char_index(s: Seq<char>, c: char) -> int
    decreases s.len(),
{
    if s.len() == 0 {
        0
    } else if s[0] == c {
        0
    } else {
        1 + char_index(s.drop_first(), c)
    }
}

pub proof fn lemma_char_index(s: Seq<char>, c: char)
    ensures
        0 <= char_index(s, c) <= s.len(),
        char_index(s, c) < s.len() ==> s[char_index(s, c)] == c,
        forall|i: int| 0 <= i < char_index(s, c) ==> s[i] != c,
    decreases s.len(),
{
    if s.len() > 0 && s[0] != c {
        lemma_char_index(s.drop_first(), c);
        assert forall|i: int| 0 <= i < char_index(s, c) implies s[i] != c by {
            if i > 0 {
                assert(s.drop_first()[i - 1] != c);
            }
        }
    }
}

/// `char_index` is the unique position with nothing equal to `c` before it
/// and `c` (or the end of the sequence) at it.
pub proof fn lemma_char_index_is(s: Seq<char>, c: char, m: int)
    requires
        0 <= m <= s.len(),
        forall|i: int| 0 <= i < m ==> s[i] != c,
        m < s.len() ==> s[m] == c,
    ensures
        char_index(s, c) == m,
{
    lemma_char_index(s, c);
    let ci = char_index(s, c);
    if ci < m {
        assert(s[ci] != c);
    } else if m < ci {
        assert(s[m] != c);
    }
}

/// The decimal digit character for a value below ten.
pub open spec fn dec_digit(d: int) -> char {
    ((48 + d) as u8) as char
}

/// The decimal rendering of `n`, most significant digit first, no sign and
/// no leading zeros (a single `'0'` for zero).
pub open spec fn dec_chars(n: int) -> Seq<char>
    decreases n,
{
    if n < 10 {
        seq![dec_digit(n)]
    } else {
        dec_chars(n / 10).push(dec_digit(n % 10))
    }
}

/// Renders `n` in decimal.
pub fn u64_dec_chars(n: u64) -> (r: Vec<char>)
    ensures
        r@ == dec_chars(n as int),
    decreases n,
{
    let mut r: Vec<char> = if n >= 10 {
        u64_dec_chars(n / 10)
    } else {
        Vec::new()
    };
    let d: u8 = (n % 10) as u8;
    let c: char = (48 + d) as char;
    proof {
        assert(c == dec_digit(n as int % 10));
        if n < 10 {
            assert(n as int % 10 == n as int);
        }
    }
    r.push(c);
    proof {
        if n >= 10 {
            assert(r@ == dec_chars(n as int / 10).push(dec_digit(n as int % 10)));
        } else {
            assert(r@ =~= seq![dec_digit(n as int)]);
        }
    }
    r
}

/// Appends the characters of `s` to `dst`.
pub(crate) fn push_str_chars(dst: &mut Vec<char>, s: &str)
    ensures
        final(dst)@ == old(dst)@ + s@,
{
    let cs = str_chars(s);
    dst.extend_from_slice(cs.as_slice());
}

/// Appends the characters of `src` to `dst`.
pub(crate) fn push_chars(dst: &mut Vec<char>, src: &Vec<char>)
    ensures
        final(dst)@ == old(dst)@ + src@,
{
    dst.extend_from_slice(src.as_slice());
}

} // verus!
