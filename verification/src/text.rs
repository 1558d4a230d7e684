//! Searching and splitting of byte strings.
//!
//! Entity names are compared, searched and cut into tokens byte by byte, on
//! the UTF-8 encoding of the name. Wide names are cut at their first zero
//! code unit.

use vstd::prelude::*;
use vstd::string::StrSliceExecFns;
use vstd::utf8::is_scalar;

verus! {

/// `char::from_u32`: the character with the given scalar value, and `None`
/// for a surrogate or a number beyond the last code point.
pub assume_specification[ char::from_u32 ](i: u32) -> (c: Option<char>)
    ensures
        c == if is_scalar(i) {
            Some(i as char)
        } else {
            None::<char>
        },
;

/// `String::push`: appends one character to the string.
pub assume_specification[ String::push ](s: &mut String, ch: char)
    ensures
        final(s)@ == old(s)@.push(ch),
;

/// The characters of a string, in order.
pub fn text_chars(s: &str) -> (chars: Vec<char>)
    ensures
        chars@ == s@,
{
    let n: usize = s.unicode_len();
    let mut chars: Vec<char> = Vec::new();
    let mut i: usize = 0;
    while i < n
        invariant
            n == s@.len(),
            0 <= i <= n,
            chars@ == s@.take(i as int),
        decreases n - i,
    {
        let c: char = s.get_char(i);
        chars.push(c);
        assert(s@.take(i + 1) =~= s@.take(i as int).push(c));
        i = i + 1;
    }
    assert(s@.take(n as int) =~= s@);
    chars
}

/// The position of the first `sep` in `s`, or the length of `s` where `s`
/// holds none.
pub open spec fn first_index_of<T>(s: Seq<T>, sep: T) -> int
    decreases s.len(),
{
    if s.len() == 0 {
        0
    } else if s[0] == sep {
        0
    } else {
        1 + first_index_of(s.drop_first(), sep)
    }
}

/// Whether `i` is where the first `sep` of `s` stands (or the end of `s`, if
/// there is none).
pub open spec fn is_first_index_of<T>(s: Seq<T>, sep: T, i: int) -> bool {
    &&& 0 <= i <= s.len()
    &&& forall|k: int| 0 <= k < i ==> s[k] != sep
    &&& i < s.len() ==> s[i] == sep
}

/// `first_index_of` is the one position that `is_first_index_of` describes.
pub proof fn lemma_first_index_of<T>(s: Seq<T>, sep: T)
    ensures
        is_first_index_of(s, sep, first_index_of(s, sep)),
        forall|i: int| is_first_index_of(s, sep, i) ==> i == first_index_of(s, sep),
    decreases s.len(),
{
    if s.len() > 0 && s[0] != sep {
        let rest = s.drop_first();
        lemma_first_index_of(rest, sep);
        let r = first_index_of(rest, sep);
        assert forall|k: int| 0 <= k < 1 + r implies s[k] != sep by {
            if k > 0 {
                assert(rest[k - 1] == s[k]);
            }
        }
        assert forall|i: int| is_first_index_of(s, sep, i) implies i == 1 + r by {
            assert(i > 0) by {
                if i == 0 {
                    assert(s[0] == sep);
                }
            }
            assert forall|k: int| 0 <= k < i - 1 implies rest[k] != sep by {
                assert(rest[k] == s[k + 1]);
            }
            assert(is_first_index_of(rest, sep, i - 1));
        }
    } else {
        assert forall|i: int| is_first_index_of(s, sep, i) implies i == 0 by {
            if i > 0 {
                assert(s[0] != sep);
            }
        }
    }
}

/// The pieces of `s` between its separators, in order. A string without a
/// separator is one token; two separators in a row enclose an empty token.
pub open spec fn tokens(s: Seq<u8>, sep: u8) -> Seq<Seq<u8>>
    decreases s.len(),
{
    let i = first_index_of(s, sep);
    if 0 <= i < s.len() {
        seq![s.take(i)] + tokens(s.skip(i + 1), sep)
    } else {
        seq![s]
    }
}

/// Whether `needle` occurs in `hay` as a contiguous run of bytes.
pub open spec fn contains(hay: Seq<u8>, needle: Seq<u8>) -> bool {
    exists|k: int| occurs_at(hay, needle, k)
}

/// Whether `needle` occurs in `hay` starting at position `k`.
pub open spec fn occurs_at(hay: Seq<u8>, needle: Seq<u8>, k: int) -> bool {
    &&& 0 <= k
    &&& k + needle.len() <= hay.len()
    &&& hay.subrange(k, k + needle.len()) == needle
}

/// Finds the first `sep` at or after `from`.
pub fn find_byte(s: &[u8], from: usize, sep: u8) -> (at: usize)
    requires
        from <= s@.len(),
    ensures
        at == from + first_index_of(s@.skip(from as int), sep),
        from <= at <= s@.len(),
{
    let mut at: usize = from;
    while at < s.len() && s[at] != sep
        invariant
            from <= at <= s@.len(),
            forall|k: int| from <= k < at ==> s@[k] != sep,
        decreases s@.len() - at,
    {
        at = at + 1;
    }
    proof {
        let tail = s@.skip(from as int);
        assert(is_first_index_of(tail, sep, at - from)) by {
            assert forall|k: int| 0 <= k < at - from implies tail[k] != sep by {
                assert(tail[k] == s@[from + k]);
            }
        }
        lemma_first_index_of(tail, sep);
    }
    at
}

/// Finds the first zero code unit.
pub fn find_zero_unit(units: &[u16]) -> (at: usize)
    ensures
        at == first_index_of(units@, 0u16),
        at <= units@.len(),
{
    let mut at: usize = 0;
    while at < units.len() && units[at] != 0
        invariant
            0 <= at <= units@.len(),
            forall|k: int| 0 <= k < at ==> units@[k] != 0,
        decreases units@.len() - at,
    {
        at = at + 1;
    }
    proof {
        assert(is_first_index_of(units@, 0u16, at as int));
        lemma_first_index_of(units@, 0u16);
    }
    at
}

/// Compares two byte strings.
pub fn bytes_eq(a: &[u8], b: &[u8]) -> (same: bool)
    ensures
        same == (a@ == b@),
{
    if a.len() != b.len() {
        return false;
    }
    let mut i: usize = 0;
    while i < a.len()
        invariant
            a@.len() == b@.len(),
            0 <= i <= a@.len(),
            forall|k: int| 0 <= k < i ==> a@[k] == b@[k],
        decreases a@.len() - i,
    {
        if a[i] != b[i] {
            return false;
        }
        i = i + 1;
    }
    assert(a@ =~= b@);
    true
}

/// Compares two strings.
pub fn str_eq(a: &str, b: &str) -> (same: bool)
    ensures
        same == (a@ == b@),
{
    let same = bytes_eq(a.as_bytes(), b.as_bytes());
    proof {
        vstd::utf8::encode_utf8_decode_utf8(a@);
        vstd::utf8::encode_utf8_decode_utf8(b@);
    }
    same
}

/// Whether `needle` stands in `hay` at position `k`.
pub fn matches_at(hay: &[u8], needle: &[u8], k: usize) -> (found: bool)
    requires
        k + needle@.len() <= hay@.len(),
    ensures
        found == occurs_at(hay@, needle@, k as int),
{
    let mut i: usize = 0;
    while i < needle.len()
        invariant
            k + needle@.len() <= hay@.len(),
            hay@.len() == hay.len(),
            0 <= i <= needle@.len(),
            forall|j: int| 0 <= j < i ==> hay@[k + j] == needle@[j],
        decreases needle@.len() - i,
    {
        if hay[k + i] != needle[i] {
            proof {
                let window = hay@.subrange(k as int, k + needle@.len());
                assert(window[i as int] == hay@[k + i]);
            }
            return false;
        }
        i = i + 1;
    }
    assert(hay@.subrange(k as int, k + needle@.len()) =~= needle@);
    true
}

/// Searches `hay` for `needle`. The empty needle occurs in every string.
pub fn contains_bytes(hay: &[u8], needle: &[u8]) -> (found: bool)
    ensures
        found == contains(hay@, needle@),
{
    if needle.len() > hay.len() {
        return false;
    }
    let last: usize = hay.len() - needle.len();
    let mut k: usize = 0;
    loop
        invariant
            last == hay@.len() - needle@.len(),
            0 <= k <= last,
            forall|j: int| 0 <= j < k ==> !occurs_at(hay@, needle@, j),
        decreases last - k,
    {
        if matches_at(hay, needle, k) {
            return true;
        }
        if k == last {
            return false;
        }
        k = k + 1;
    }
}

} // verus!
