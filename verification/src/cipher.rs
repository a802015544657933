//! The character and string transforms of the cipher.

use vstd::prelude::*;
use crate::in_alphabet;
use crate::seq_in_alphabet;
use crate::OtpError;

verus! {

/// The encoded offset: modular addition of the two offsets into the
/// alphabet, shifted back into the printable range.
pub open spec fn encode_val(p: int, k: int) -> int {
    ((p - 32) + (k - 32)) % 95 + 32
}

/// The decoded offset: modular subtraction of the key offset, with a
/// bias of 95 so the value before the modulo is never negative.
pub open spec fn decode_val(c: int, k: int) -> int {
    ((c - 32) - (k - 32) + 95) % 95 + 32
}

/// What `encode_char` returns.
pub open spec fn encode_char_spec(p: char, k: char) -> char {
    encode_val(p as int, k as int) as char
}

/// What `decode_char` returns.
pub open spec fn decode_char_spec(c: char, k: char) -> char {
    decode_val(c as int, k as int) as char
}

/// Encodes one plaintext character with one pad character.
pub fn encode_char(input: char, key: char) -> (r: char)
    requires
        in_alphabet(input),
        in_alphabet(key),
    ensures
        r == encode_char_spec(input, key),
        in_alphabet(r),
{
    let p: u32 = input as u32;
    let k: u32 = key as u32;
    let encoded: u32 = ((p - 32) + (k - 32)) % 95 + 32;
    (encoded as u8) as char
}

/// Decodes one ciphertext character with one pad character.
pub fn decode_char(input: char, key: char) -> (r: char)
    requires
        in_alphabet(input),
        in_alphabet(key),
    ensures
        r == decode_char_spec(input, key),
        in_alphabet(r),
{
    let c: u32 = input as u32;
    let k: u32 = key as u32;
    let decoded: u32 = ((c + 95) - k) % 95 + 32;
    (decoded as u8) as char
}

/// The number of paired characters: the length of the shorter input.
pub open spec fn paired_len(p: Seq<char>, k: Seq<char>) -> nat {
    if p.len() <= k.len() {
        p.len()
    } else {
        k.len()
    }
}

/// What `encode_str` returns: each plaintext character encoded with the
/// pad character at the same position, truncated to the shorter input.
pub open spec fn encode_seq(p: Seq<char>, k: Seq<char>) -> Seq<char> {
    Seq::new(paired_len(p, k), |i: int| encode_char_spec(p[i], k[i]))
}

/// What `decode_str` returns: each ciphertext character decoded with
/// the pad character at the same position, truncated to the shorter input.
pub open spec fn decode_seq(c: Seq<char>, k: Seq<char>) -> Seq<char> {
    Seq::new(paired_len(c, k), |i: int| decode_char_spec(c[i], k[i]))
}

/// Encodes a plaintext string with a pad, position for position. Where
/// the pad is shorter than the text, the result is truncated to the
/// pad's length: trailing plaintext characters are dropped.
pub fn encode_str(input: &str, otp: &str) -> (r: String)
    requires
        seq_in_alphabet(input@),
        seq_in_alphabet(otp@),
    ensures
        r@ == encode_seq(input@, otp@),
        seq_in_alphabet(r@),
{
    let n_input = input.unicode_len();
    let n_otp = otp.unicode_len();
    let n = if n_input <= n_otp {
        n_input
    } else {
        n_otp
    };
    let mut encoded = String::new();
    let mut i: usize = 0;
    while i < n
        invariant
            n == paired_len(input@, otp@),
            n <= input@.len() && n <= otp@.len(),
            i <= n,
            seq_in_alphabet(input@),
            seq_in_alphabet(otp@),
            encoded@ == encode_seq(input@, otp@).take(i as int),
        decreases n - i,
    {
        let c = encode_char(input.get_char(i), otp.get_char(i));
        crate::pad::push_char(&mut encoded, c);
        proof {
            assert(encoded@ =~= encode_seq(input@, otp@).take(i + 1));
        }
        i += 1;
    }
    proof {
        assert(encoded@ =~= encode_seq(input@, otp@));
    }
    encoded
}

/// Decodes a ciphertext string with a pad, position for position. Where
/// the pad is shorter than the ciphertext, the result is truncated to
/// the pad's length.
pub fn decode_str(input: &str, otp: &str) -> (r: String)
    requires
        seq_in_alphabet(input@),
        seq_in_alphabet(otp@),
    ensures
        r@ == decode_seq(input@, otp@),
        seq_in_alphabet(r@),
{
    let n_input = input.unicode_len();
    let n_otp = otp.unicode_len();
    let n = if n_input <= n_otp {
        n_input
    } else {
        n_otp
    };
    let mut decoded = String::new();
    let mut i: usize = 0;
    while i < n
        invariant
            n == paired_len(input@, otp@),
            n <= input@.len() && n <= otp@.len(),
            i <= n,
            seq_in_alphabet(input@),
            seq_in_alphabet(otp@),
            decoded@ == decode_seq(input@, otp@).take(i as int),
        decreases n - i,
    {
        let c = decode_char(input.get_char(i), otp.get_char(i));
        crate::pad::push_char(&mut decoded, c);
        proof {
            assert(decoded@ =~= decode_seq(input@, otp@).take(i + 1));
        }
        i += 1;
    }
    proof {
        assert(decoded@ =~= decode_seq(input@, otp@));
    }
    decoded
}

/// Checks that every character of the string lies in the alphabet.
pub fn str_in_alphabet(s: &str) -> (r: bool)
    ensures
        r == seq_in_alphabet(s@),
{
    let n = s.unicode_len();
    let mut i: usize = 0;
    while i < n
        invariant
            n == s@.len(),
            i <= n,
            forall|j: int| 0 <= j < i ==> in_alphabet(#[trigger] s@[j]),
        decreases n - i,
    {
        let c = s.get_char(i);
        let v: u32 = c as u32;
        if v < 32 || v > 126 {
            return false;
        }
        i += 1;
    }
    true
}

/// Encodes a plaintext string with a pad, validating the input first:
/// a character outside the alphabet, in the text or in the pad, is
/// rejected, and so is a pad shorter than the text. This replaces the
/// silent truncation of `encode_str` with an explicit policy.
pub fn try_encode_str(input: &str, otp: &str) -> (r: Result<String, OtpError>)
    ensures
        seq_in_alphabet(input@) && seq_in_alphabet(otp@) && input@.len() <= otp@.len() ==> r
            is Ok && r->Ok_0@ == encode_seq(input@, otp@),
        !(seq_in_alphabet(input@) && seq_in_alphabet(otp@)) ==> r is Err && r->Err_0
            == OtpError::InvalidCharacter,
        seq_in_alphabet(input@) && seq_in_alphabet(otp@) && input@.len() > otp@.len() ==> r
            is Err && r->Err_0 == OtpError::PadTooShort,
{
    if !str_in_alphabet(input) || !str_in_alphabet(otp) {
        return Err(OtpError::InvalidCharacter);
    }
    if otp.unicode_len() < input.unicode_len() {
        return Err(OtpError::PadTooShort);
    }
    Ok(encode_str(input, otp))
}

/// Decodes a ciphertext string with a pad, validating the input first,
/// with the same policy as `try_encode_str`.
pub fn try_decode_str(input: &str, otp: &str) -> (r: Result<String, OtpError>)
    ensures
        seq_in_alphabet(input@) && seq_in_alphabet(otp@) && input@.len() <= otp@.len() ==> r
            is Ok && r->Ok_0@ == decode_seq(input@, otp@),
        !(seq_in_alphabet(input@) && seq_in_alphabet(otp@)) ==> r is Err && r->Err_0
            == OtpError::InvalidCharacter,
        seq_in_alphabet(input@) && seq_in_alphabet(otp@) && input@.len() > otp@.len() ==> r
            is Err && r->Err_0 == OtpError::PadTooShort,
{
    if !str_in_alphabet(input) || !str_in_alphabet(otp) {
        return Err(OtpError::InvalidCharacter);
    }
    if otp.unicode_len() < input.unicode_len() {
        return Err(OtpError::PadTooShort);
    }
    Ok(decode_str(input, otp))
}

/// Encoding a character and decoding the result with the same key gives
/// the character back.
pub proof fn lemma_char_round_trip(p: char, k: char)
    requires
        in_alphabet(p),
        in_alphabet(k),
    ensures
        decode_char_spec(encode_char_spec(p, k), k) == p,
{
    let a = p as int - 32;
    let b = k as int - 32;
    assert(((a + b) % 95 - b + 95) % 95 == a) by (nonlinear_arith)
        requires
            0 <= a < 95,
            0 <= b < 95,
    ;
}

/// Both transforms keep their result inside the alphabet.
pub proof fn lemma_char_alphabet_closure(p: char, k: char)
    requires
        in_alphabet(p),
        in_alphabet(k),
    ensures
        in_alphabet(encode_char_spec(p, k)),
        in_alphabet(decode_char_spec(p, k)),
{
}

/// Alphabet closure: every character of an encoded or decoded string
/// lies in the alphabet.
pub proof fn lemma_alphabet_closure(p: Seq<char>, k: Seq<char>)
    requires
        seq_in_alphabet(p),
        seq_in_alphabet(k),
    ensures
        seq_in_alphabet(encode_seq(p, k)),
        seq_in_alphabet(decode_seq(p, k)),
{
}

/// Round trip: a plaintext encoded and then decoded with the same pad,
/// the pad at least as long as the plaintext, comes back unchanged.
pub proof fn lemma_round_trip(p: Seq<char>, k: Seq<char>)
    requires
        seq_in_alphabet(p),
        seq_in_alphabet(k),
        p.len() <= k.len(),
    ensures
        decode_seq(encode_seq(p, k), k) == p,
{
    let c = encode_seq(p, k);
    assert forall|i: int| 0 <= i < p.len() implies decode_seq(c, k)[i] == p[i] by {
        lemma_char_round_trip(p[i], k[i]);
    }
    assert(decode_seq(c, k) =~= p);
}

/// Empty input: encoding or decoding the empty string, with any pad,
/// gives the empty string.
pub proof fn lemma_empty_input(k: Seq<char>)
    ensures
        encode_seq(Seq::<char>::empty(), k) == Seq::<char>::empty(),
        decode_seq(Seq::<char>::empty(), k) == Seq::<char>::empty(),
{
    assert(encode_seq(Seq::<char>::empty(), k) =~= Seq::<char>::empty());
    assert(decode_seq(Seq::<char>::empty(), k) =~= Seq::<char>::empty());
}

} // verus!
