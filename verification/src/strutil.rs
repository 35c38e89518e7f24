//! Small verified string utilities shared across the crate.

use vstd::prelude::*;
use vstd::string::StrSliceExecFns;

verus! {

/// Equality of two string slices, decided character by character.
pub fn str_eq(a: &str, b: &str) -> (r: bool)
    ensures
        r == (a@ == b@),
{
    let a_len = a.unicode_len();
    let b_len = b.unicode_len();
    if a_len != b_len {
        return false;
    }
    let mut i: usize = 0;
    while i < a_len
        invariant
            a_len == a@.len(),
            b_len == b@.len(),
            a_len == b_len,
            i <= a_len,
            forall|j: int| 0 <= j < i ==> a@[j] == b@[j],
        decreases a_len - i,
    {
        if a.get_char(i) != b.get_char(i) {
            return false;
        }
        i = i + 1;
    }
    proof {
        assert(a@ =~= b@);
    }
    true
}

/// Equality of two strings, decided through their views.
pub fn string_eq(a: &String, b: &String) -> (r: bool)
    ensures
        r == (a@ == b@),
{
    str_eq(a.as_str(), b.as_str())
}

/// A name for what `str::to_lowercase` computes: the Unicode lowercase form
/// of a character sequence. The result depends on the characters alone.
pub uninterp spec fn lower_of(s: Seq<char>) -> Seq<char>;

/// Relies on `str::to_lowercase`: the result is a function of the
/// characters alone, and an empty string stays empty.
#[verifier::external_body]
pub(crate) fn lowercase(s: &str) -> (r: String)
    ensures
        r@ == lower_of(s@),
        s@.len() == 0 ==> r@.len() == 0,
{
    s.to_lowercase()
}

/// Whether `needle` occurs contiguously inside `hay`. The empty sequence
/// occurs in everything.
pub open spec fn spec_contains_sub(hay: Seq<char>, needle: Seq<char>) -> bool {
    exists|k: int|
        0 <= k <= hay.len() - needle.len() && #[trigger] hay.subrange(k, k + needle.len())
            =~= needle
}

/// Decides whether `needle` occurs contiguously inside `hay`.
pub fn str_contains(hay: &str, needle: &str) -> (r: bool)
    ensures
        r == spec_contains_sub(hay@, needle@),
{
    let h_len = hay.unicode_len();
    let n_len = needle.unicode_len();
    if n_len > h_len {
        return false;
    }
    let mut k: usize = 0;
    while k <= h_len - n_len
        invariant
            h_len == hay@.len(),
            n_len == needle@.len(),
            n_len <= h_len,
            k <= h_len - n_len + 1,
            forall|k2: int|
                0 <= k2 < k ==> !(#[trigger] hay@.subrange(k2, k2 + needle@.len()) =~= needle@),
        decreases h_len + 1 - k,
    {
        let mut m: usize = 0;
        let mut matched = true;
        while m < n_len
            invariant
                h_len == hay@.len(),
                n_len == needle@.len(),
                k + n_len <= h_len,
                m <= n_len,
                matched == (forall|j: int|
                    0 <= j < m ==> hay@[k + j] == needle@[j]),
            decreases n_len - m,
        {
            if hay.get_char(k + m) != needle.get_char(m) {
                matched = false;
                proof {
                    assert(!(hay@[k + m] == needle@[m as int]));
                }
                m = n_len;
            } else {
                proof {
                    assert(hay@[k + m] == needle@[m as int]);
                }
                m = m + 1;
            }
        }
        if matched {
            proof {
                assert(hay@.subrange(k as int, k + needle@.len()) =~= needle@);
            }
            return true;
        }
        proof {
            assert(!(hay@.subrange(k as int, k + needle@.len()) =~= needle@));
        }
        k = k + 1;
    }
    false
}

/// Whether the character is a lowercase hexadecimal digit.
pub open spec fn is_lower_hex_char(c: char) -> bool {
    (('0' as u32) <= (c as u32) && (c as u32) <= ('9' as u32)) || (('a' as u32) <= (c as u32) && (
    c as u32) <= ('f' as u32))
}

/// Whether every character of the sequence is a lowercase hexadecimal digit.
pub open spec fn is_lower_hex(s: Seq<char>) -> bool {
    forall|i: int| 0 <= i < s.len() ==> is_lower_hex_char(#[trigger] s[i])
}

/// Whether the sequence is a 64-character lowercase hexadecimal string: the
/// wire form of a public key or an event identity.
pub open spec fn is_lower_hex_64(s: Seq<char>) -> bool {
    s.len() == 64 && is_lower_hex(s)
}

} // verus!
