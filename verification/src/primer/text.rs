//! Strings read and changed through references, and the first word of a
//! text.

use vstd::prelude::*;
use vstd::string::StringExecFns;
use vstd::string::StringSliceAdditionalSpecFns;
use vstd::utf8::encode_utf8;
use vstd::utf8::encode_utf8_valid_utf8;
use vstd::utf8::is_char_boundary_iff_not_is_continuation_byte;
use vstd::utf8::is_char_boundary_start_end_of_seq;
use vstd::utf8::is_continuation_byte;

verus! {

/// The code of the space that ends a word.
pub const SPACE: u8 = 32;

/// The length of `s` in bytes, as UTF-8.
pub fn calculate_length(s: &String) -> (length: usize)
    ensures
        length == encode_utf8(s@).len(),
{
    s.as_str().as_bytes().len()
}

/// Appends `", world!"` to `s`.
pub fn change(s: &mut String)
    ensures
        final(s)@ == old(s)@ + ", world!"@,
{
    s.append(", world!");
}

/// The first word of `s`: what stands before its first space, or all of `s`
/// where it holds no space.
pub fn first_word(s: &str) -> (word: &str)
    ensures
        word.spec_bytes().len() <= s.spec_bytes().len(),
        word.spec_bytes() == s.spec_bytes().subrange(0, word.spec_bytes().len() as int),
        forall|i: int| 0 <= i < word.spec_bytes().len() ==> s.spec_bytes()[i] != SPACE,
        word.spec_bytes().len() < s.spec_bytes().len() ==> s.spec_bytes()[word.spec_bytes().len() as int]
            == SPACE,
{
    let bytes = s.as_bytes();
    proof {
        encode_utf8_valid_utf8(s@);
    }
    let mut i: usize = 0;
    while i < bytes.len()
        invariant
            i <= bytes@.len(),
            bytes@ == s.spec_bytes(),
            vstd::utf8::valid_utf8(bytes@),
            forall|k: int| 0 <= k < i ==> bytes@[k] != SPACE,
        decreases bytes@.len() - i,
    {
        if bytes[i] == SPACE {
            proof {
                let byte = bytes@[i as int];
                assert(!is_continuation_byte(byte)) by (bit_vector)
                    requires
                        byte == 32u8,
                ;
                is_char_boundary_iff_not_is_continuation_byte(bytes@, i as int);
            }
            let (word, _) = s.split_at(i);
            return word;
        }
        i += 1;
    }
    proof {
        is_char_boundary_start_end_of_seq(bytes@);
    }
    let (word, _) = s.split_at(i);
    word
}

} // verus!
