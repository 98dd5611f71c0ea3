//! Lowercase hexadecimal text.

use vstd::prelude::*;

verus! {

/// The sixteen lowercase hexadecimal digits.
pub const HEX_DIGITS: [char; 16] = [
    '0', '1', '2', '3', '4', '5', '6', '7', '8', '9', 'a', 'b', 'c', 'd', 'e', 'f',
];

/// The lowercase hexadecimal text of `bytes`: two digits for each byte, the
/// high half first.
pub open spec fn hex_text(bytes: Seq<u8>) -> Seq<char> {
    Seq::new(
        2 * bytes.len(),
        |i: int|
            if i % 2 == 0 {
                HEX_DIGITS[bytes[i / 2] as int / 16]
            } else {
                HEX_DIGITS[bytes[i / 2] as int % 16]
            },
    )
}

/// `String::push` appends one character to the end of the string.
pub assume_specification[ String::push ](s: &mut String, c: char)
    ensures
        final(s)@ == old(s)@.push(c),
;

/// Renders `bytes` as lowercase hexadecimal text.
pub fn to_hex(bytes: &[u8]) -> (text: String)
    ensures
        text@ == hex_text(bytes@),
{
    let mut text = String::new();
    let mut i: usize = 0;
    while i < bytes.len()
        invariant
            i <= bytes@.len(),
            text@.len() == 2 * i,
            forall|j: int| 0 <= j < 2 * i ==> text@[j] == hex_text(bytes@)[j],
        decreases bytes@.len() - i,
    {
        let b = bytes[i];
        text.push(HEX_DIGITS[(b / 16) as usize]);
        text.push(HEX_DIGITS[(b % 16) as usize]);
        i = i + 1;
    }
    assert(text@ =~= hex_text(bytes@));
    text
}

} // verus!
