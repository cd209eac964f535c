//! The 13-place letter rotation under which an index may store its quotes.
//!
//! Only the ASCII letters move, each within its own case; every other byte,
//! and so every byte of a multi-byte UTF-8 character, stays as it is.

use vstd::prelude::*;

verus! {

/// Whether `b` is an ASCII letter.
pub open spec fn is_letter(b: u8) -> bool {
    0x41 <= b <= 0x5a || 0x61 <= b <= 0x7a
}

/// `b` moved 13 places on within its alphabet, wrapping round at the end.
pub open spec fn rotated_byte(b: u8) -> u8 {
    if 0x41 <= b <= 0x5a {
        (0x41 + (b - 0x41 + 13) % 26) as u8
    } else if 0x61 <= b <= 0x7a {
        (0x61 + (b - 0x61 + 13) % 26) as u8
    } else {
        b
    }
}

/// `s` with every byte rotated.
pub open spec fn rotated(s: Seq<u8>) -> Seq<u8> {
    Seq::new(s.len(), |i: int| rotated_byte(s[i]))
}

/// Rotates one byte.
pub fn rot13_byte(b: u8) -> (r: u8)
    ensures
        r == rotated_byte(b),
{
    if (0x41 <= b && b <= 0x4d) || (0x61 <= b && b <= 0x6d) {
        b + 13
    } else if (0x4e <= b && b <= 0x5a) || (0x6e <= b && b <= 0x7a) {
        b - 13
    } else {
        b
    }
}

/// Rotates a text. Applied to its own result it gives the text back.
pub fn rot13(text: &[u8]) -> (out: Vec<u8>)
    ensures
        out@ == rotated(text@),
{
    let mut out: Vec<u8> = Vec::with_capacity(text.len());
    let mut i: usize = 0;
    while i < text.len()
        invariant
            i <= text.len(),
            out@.len() == i,
            forall|j: int| 0 <= j < i ==> out@[j] == rotated_byte(text@[j]),
        decreases text.len() - i,
    {
        out.push(rot13_byte(text[i]));
        i += 1;
    }
    out
}

/// Rotating a byte twice gives the byte back.
pub proof fn lemma_rotated_byte_twice(b: u8)
    ensures
        rotated_byte(rotated_byte(b)) == b,
{
}

/// The rotation is its own inverse: applied twice to any text it gives the
/// text back.
pub proof fn lemma_rotated_twice(s: Seq<u8>)
    ensures
        rotated(rotated(s)) == s,
{
    assert forall|i: int| 0 <= i < s.len() implies rotated(rotated(s))[i] == s[i] by {
        lemma_rotated_byte_twice(s[i]);
    }
    assert(rotated(rotated(s)) =~= s);
}

/// The rotation keeps the length of a text and every byte in it that is not
/// an ASCII letter; a letter goes to a letter of the same case, 13 places away.
pub proof fn lemma_rotated_keeps_other_bytes(s: Seq<u8>)
    ensures
        rotated(s).len() == s.len(),
        forall|i: int| 0 <= i < s.len() && !is_letter(s[i]) ==> rotated(s)[i] == s[i],
        forall|i: int|
            0 <= i < s.len() && is_letter(s[i]) ==> {
                &&& is_letter(#[trigger] rotated(s)[i])
                &&& (rotated(s)[i] <= 0x5a <==> s[i] <= 0x5a)
                &&& (rotated(s)[i] == s[i] + 13 || rotated(s)[i] == s[i] - 13)
            },
{
}

} // verus!
