//! Island names as the observed process stores them: fixed buffers of UTF-16
//! code units.

use vstd::prelude::*;
use crate::memory::until_zero_unit;
use crate::text::{is_first_index_of, lemma_first_index_of};

verus! {

/// The character that stands for one code unit: the unit's own character,
/// or the replacement character for a surrogate.
pub open spec fn wide_char(unit: u16) -> char {
    if 0xD800 <= unit <= 0xDFFF {
        '\u{FFFD}'
    } else {
        unit as char
    }
}

/// The text of a wide name: the characters of its units before the first
/// zero unit.
pub open spec fn wide_text(word: Seq<u16>) -> Seq<char> {
    until_zero_unit(word).map_values(|unit: u16| wide_char(unit))
}

/// Reads a wide name as text. The name ends at its first zero unit, or at
/// the end of the buffer; each unit is taken by itself, so a surrogate
/// becomes the replacement character.
pub fn convert_wide_name_to_string(word: [u16; 64]) -> (result: String)
    ensures
        result@ == wide_text(word@),
{
    let mut result = String::new();
    let mut i: usize = 0;
    while i < 64 && word[i] != 0
        invariant
            0 <= i <= 64,
            word@.len() == 64,
            forall|k: int| 0 <= k < i ==> word@[k] != 0,
            result@ == word@.take(i as int).map_values(|unit: u16| wide_char(unit)),
        decreases 64 - i,
    {
        let code_unit: u16 = word[i];
        let ch: char = match char::from_u32(code_unit as u32) {
            Some(ch) => ch,
            None => '\u{FFFD}',
        };
        assert(ch == wide_char(code_unit));
        result.push(ch);
        proof {
            let f = |unit: u16| wide_char(unit);
            assert(word@.take(i + 1).map_values(f) =~= word@.take(i as int).map_values(f).push(
                ch,
            ));
        }
        i = i + 1;
    }
    proof {
        assert(is_first_index_of(word@, 0u16, i as int));
        lemma_first_index_of(word@, 0u16);
    }
    result
}

} // verus!
