//! The bit patterns of instruction fields.
use vstd::prelude::*;

verus! {

/// Whether `c` is a binary digit.
pub open spec fn is_bit(c: char) -> bool {
    c == '0' || c == '1'
}

/// Whether `s` is a text of binary digits only.
pub open spec fn is_bits(s: Seq<char>) -> bool {
    forall|i: int| 0 <= i < s.len() ==> is_bit(#[trigger] s[i])
}

/// A field of a compute instruction: it has a fixed bit pattern.
pub trait Code {
    /// The bit pattern of the field, most significant bit first.
    spec fn code(&self) -> Seq<char>;

    /// The bit pattern of the field as a string.
    fn to_code(&self) -> (s: String)
        ensures
            s@ == self.code(),
    ;
}

} // verus!
