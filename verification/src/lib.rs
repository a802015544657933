//! A one-time-pad cipher over the 95 printable ASCII characters.
//!
//! Plaintext, pad and ciphertext all draw their characters from the
//! alphabet of code points 32 through 126. Encoding adds plaintext and
//! pad character offsets modulo 95; decoding subtracts them again, so
//! that a message encoded and then decoded with the same pad comes back
//! unchanged.

use vstd::prelude::*;

pub mod cipher;
pub mod pad;

verus! {

/// The alphabet is the printable ASCII range, code points 32 through 126.
pub open spec fn in_alphabet(c: char) -> bool {
    32 <= c as int <= 126
}

/// Every character of the sequence lies in the alphabet.
pub open spec fn seq_in_alphabet(s: Seq<char>) -> bool {
    forall|i: int| 0 <= i < s.len() ==> in_alphabet(#[trigger] s[i])
}

/// Why a validated transform rejected its input.
#[derive(Clone, Copy, Debug, PartialEq, Eq, Structural)]
pub enum OtpError {
    /// A character of the text or the pad lies outside the alphabet.
    InvalidCharacter,
    /// The pad is shorter than the text to transform.
    PadTooShort,
}

} // verus!
