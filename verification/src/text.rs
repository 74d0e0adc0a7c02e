//! Small verified helpers over `String`/`str` values, viewed as `Seq<char>`.
use vstd::prelude::*;

verus! {

/// `std::string::String::push`: appends one character to the string.
#[verifier::external_body]
pub fn push_char(s: &mut String, c: char)
    ensures
        final(s)@ == old(s)@.push(c),
{
    s.push(c);
}

/// The character with code point `b` (Latin-1 widening of a byte).
pub open spec fn byte_char(b: u8) -> char {
    b as char
}

/// Widens a byte to the character with the same code point.
pub fn char_of_byte(b: u8) -> (c: char)
    ensures
        c == byte_char(b),
{
    b as char
}


/// Whether `pat` occurs in `s` as a contiguous run.
pub open spec fn has_substring(s: Seq<char>, pat: Seq<char>) -> bool {
    exists|i: int| 0 <= i && i + pat.len() <= s.len() && #[trigger] s.subrange(i, i + pat.len()) == pat
}

/// Substring search over characters.
pub fn str_contains(s: &str, pat: &str) -> (r: bool)
    ensures
        r == has_substring(s@, pat@),
{
    let n = s.unicode_len();
    let m = pat.unicode_len();
    if m > n {
        proof {
            assert forall|i: int| 0 <= i && i + pat@.len() <= s@.len() implies
                #[trigger] s@.subrange(i, i + pat@.len()) != pat@ by {}
        }
        return false;
    }
    let limit = n - m;
    let mut i: usize = 0;
    loop
        invariant
            n == s@.len(),
            m == pat@.len(),
            m <= n,
            limit == n - m,
            i <= limit,
            forall|k: int| 0 <= k < i ==> #[trigger] s@.subrange(k, k + m) != pat@,
        decreases limit - i,
    {
        let mut j: usize = 0;
        let mut matched = true;
        while j < m
            invariant
                n == s@.len(),
                m == pat@.len(),
                i + m <= n,
                j <= m,
                matched ==> forall|t: int| 0 <= t < j ==> s@[i + t] == pat@[t],
                !matched ==> s@.subrange(i as int, i + m) != pat@,
            decreases m - j,
        {
            if s.get_char(i + j) != pat.get_char(j) {
                matched = false;
                assert(s@.subrange(i as int, i + m)[j as int] != pat@[j as int]);
            }
            j = j + 1;
        }
        if matched {
            assert(s@.subrange(i as int, i + m) =~= pat@);
            assert(s@.subrange(i as int, i + pat@.len()) == pat@);
            return true;
        }
        if i == limit {
            proof {
                assert forall|k: int| 0 <= k && k + pat@.len() <= s@.len() implies
                    #[trigger] s@.subrange(k, k + pat@.len()) != pat@ by {
                    assert(k <= i);
                }
            }
            return false;
        }
        i = i + 1;
    }
}

/// Equality of two strings by their characters.
pub fn str_eq(a: &str, b: &str) -> (r: bool)
    ensures
        r == (a@ == b@),
{
    let x = a.to_owned();
    let y = b.to_owned();
    x == y
}


/// The characters of `s`, in order.
pub fn chars_of(s: &str) -> (r: Vec<char>)
    ensures
        r@ == s@,
{
    broadcast use vstd::string::axiom_spec_iter;
    let mut out: Vec<char> = Vec::new();
    for c in it: s.chars()
        invariant
            out@ == it.seq().take(it.index() as int),
    {
        out.push(c);
    }
    out
}

} // verus!
