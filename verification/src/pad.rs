//! The one-time-pad generator.

use vstd::prelude::*;
use crate::seq_in_alphabet;

verus! {

/// Relies on rand: a sample of `Uniform::from(32..127)` drawn from
/// `thread_rng` lies in [32, 126]. Nothing more is assumed of it, as
/// the value is random.
#[verifier::external_body]
fn random_alphabet_code() -> (r: u8)
    ensures
        32 <= r <= 126,
{
    let range = rand::distributions::Uniform::from(32u8..127u8);
    rand::distributions::Distribution::sample(&range, &mut rand::thread_rng())
}

/// Relies on String::push: it appends the given character at the end.
#[verifier::external_body]
pub(crate) fn push_char(s: &mut String, c: char)
    ensures
        final(s)@ == old(s)@.push(c),
{
    s.push(c)
}

/// Generates a one-time pad of the desired length: a string of `length`
/// characters, each drawn from the alphabet.
pub fn generate_otp(length: usize) -> (r: String)
    ensures
        r@.len() == length,
        seq_in_alphabet(r@),
{
    let mut otp = String::new();
    let mut i: usize = 0;
    while i < length
        invariant
            i <= length,
            otp@.len() == i,
            seq_in_alphabet(otp@),
        decreases length - i,
    {
        let value: u8 = random_alphabet_code();
        push_char(&mut otp, value as char);
        i += 1;
    }
    otp
}

} // verus!
