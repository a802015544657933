use otp_cipher::cipher::{
    decode_char, decode_str, encode_char, encode_str, str_in_alphabet, try_decode_str,
    try_encode_str,
};
use otp_cipher::pad::generate_otp;
use otp_cipher::OtpError;

#[test]
fn round_trip_with_generated_pad() {
    let msg = "Running out of RAM? Go to downloadmoreram.com to download more today!";
    let otp = generate_otp(100);
    let encoded = encode_str(msg, &otp);
    let decoded = decode_str(&encoded, &otp);
    assert_eq!(decoded, msg);
}

#[test]
fn round_trip_with_fixed_pad() {
    let msg = "Attack at dawn!";
    let pad = "q8#Lz@ w9^R!d~M";
    let encoded = encode_str(msg, pad);
    let decoded = decode_str(&encoded, pad);
    assert_eq!(decoded, msg);
}

#[test]
fn alphabet_closure_of_encode_and_decode() {
    let msg = "The quick brown fox jumps over the lazy dog ~ 0123456789!";
    let otp = generate_otp(msg.len());
    let encoded = encode_str(msg, &otp);
    assert!(encoded.chars().all(|c| 32 <= c as u32 && c as u32 <= 126));
    let decoded = decode_str(&encoded, &otp);
    assert!(decoded.chars().all(|c| 32 <= c as u32 && c as u32 <= 126));
}

#[test]
fn pad_characters_stay_in_alphabet() {
    let otp = generate_otp(1000);
    assert_eq!(otp.chars().count(), 1000);
    assert!(otp.chars().all(|c| 32 <= c as u32 && c as u32 <= 126));
}

#[test]
fn pad_values_are_roughly_uniform() {
    // 400 expected hits per alphabet value; six standard deviations is
    // about 120, so bounds of [250, 550] practically never fail.
    let n: usize = 95 * 400;
    let otp = generate_otp(n);
    let mut counts = [0usize; 95];
    for c in otp.chars() {
        counts[c as usize - 32] += 1;
    }
    for &count in counts.iter() {
        assert!(250 <= count && count <= 550, "skewed count: {}", count);
    }
}

#[test]
fn transform_is_deterministic() {
    for (p, k) in [('A', 'z'), (' ', '~'), ('!', '!'), ('m', '5')] {
        assert_eq!(encode_char(p, k), encode_char(p, k));
        assert_eq!(decode_char(p, k), decode_char(p, k));
    }
    assert_eq!(encode_str("same text", "same pad!"), encode_str("same text", "same pad!"));
}

#[test]
fn truncation_to_the_shorter_pad() {
    let encoded = encode_str("abc", "XY");
    assert_eq!(encoded.chars().count(), 2);
    let decoded = decode_str(&encoded, "XY");
    assert_eq!(decoded, "ab");
}

#[test]
fn concrete_character_example() {
    assert_eq!(encode_char('!', ' '), '!');
    assert_eq!(decode_char('!', ' '), '!');
    assert_eq!(encode_char('~', '~'), '}');
    assert_eq!(encode_str("abc", "XY"), ":<");
}

#[test]
fn empty_inputs() {
    assert_eq!(encode_str("", "any pad"), "");
    assert_eq!(decode_str("", "any pad"), "");
    assert_eq!(generate_otp(0), "");
}

#[test]
fn alphabet_check() {
    assert!(str_in_alphabet("all printable ASCII, like ~ and !"));
    assert!(str_in_alphabet(""));
    assert!(!str_in_alphabet("line\nbreak"));
    assert!(!str_in_alphabet("caf\u{e9}"));
}

#[test]
fn checked_encode_accepts_valid_input() {
    let r = try_encode_str("abc", "XYZW").unwrap();
    assert_eq!(r.chars().count(), 3);
    let back = try_decode_str(&r, "XYZW").unwrap();
    assert_eq!(back, "abc");
}

#[test]
fn checked_encode_rejects_invalid_character() {
    assert_eq!(try_encode_str("line\nbreak", "long enough pad!"), Err(OtpError::InvalidCharacter));
    assert_eq!(try_encode_str("fine text", "bad\tpad!!"), Err(OtpError::InvalidCharacter));
    assert_eq!(try_decode_str("caf\u{e9}", "long pad!"), Err(OtpError::InvalidCharacter));
}

#[test]
fn checked_encode_rejects_short_pad() {
    assert_eq!(try_encode_str("abc", "XY"), Err(OtpError::PadTooShort));
    assert_eq!(try_decode_str("abc", "XY"), Err(OtpError::PadTooShort));
}
