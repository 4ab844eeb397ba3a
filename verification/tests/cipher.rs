use pdf_font_parser::type1::cipher::{
    decrypt, decrypt_byte, decrypt_charstring, decrypt_stream, encrypt_byte, encrypt_stream,
};
use pdf_font_parser::Error;

#[test]
fn decrypt_byte_first_step() {
    // The eexec seed is 55665 = 0xD971, so the first plaintext byte is the
    // ciphertext byte XOR 0xD9.
    let mut r: u16 = 55665;
    let p = decrypt_byte(0x00, &mut r);
    assert_eq!(p, 0xD9);
    // The state advances to ((0 + 55665) * 52845 + 22719) mod 65536.
    let expected = ((55665u64 * 52845 + 22719) % 65536) as u16;
    assert_eq!(r, expected);
}

#[test]
fn encrypt_then_decrypt_is_identity() {
    let plain: Vec<u8> = (0u8..=255).collect();
    let cipher = encrypt_stream(&plain, 4330);
    let back = decrypt_stream(&cipher, 4330, 0);
    assert_eq!(back, plain);
}

#[test]
fn decrypt_then_encrypt_reproduces_ciphertext() {
    // The cipher round trip: encrypting a decrypted stream with the same
    // seed gives back the ciphertext byte for byte.
    let cipher: Vec<u8> = vec![0x10, 0xBF, 0x31, 0x70, 0x9A, 0xA9, 0xE3, 0x3D, 0xEE, 0x17];
    let plain = decrypt_stream(&cipher, 55665, 0);
    let again = encrypt_stream(&plain, 55665);
    assert_eq!(again, cipher);
}

#[test]
fn encrypt_byte_mirrors_decrypt_byte() {
    let mut re: u16 = 4330;
    let mut rd: u16 = 4330;
    let c = encrypt_byte(0x42, &mut re);
    let p = decrypt_byte(c, &mut rd);
    assert_eq!(p, 0x42);
    assert_eq!(re, rd);
}

#[test]
fn decrypt_charstring_drops_len_iv() {
    let plain: Vec<u8> = vec![9, 9, 9, 9, 139, 22, 14];
    let cipher = encrypt_stream(&plain, 4330);
    let out = decrypt_charstring(&cipher, 4);
    assert_eq!(out, vec![139, 22, 14]);
}

#[test]
fn eexec_binary_round_trip() {
    let plain: Vec<u8> = vec![0, 0, 0, 0, b'/', b'S', b'u', b'b', b'r', b's'];
    let cipher = encrypt_stream(&plain, 55665);
    // The first ciphertext byte is 0xD9, not a hex digit, so the body is
    // taken as binary.
    let out = decrypt(&cipher).unwrap();
    assert_eq!(out, b"/Subrs".to_vec());
}

#[test]
fn eexec_hex_round_trip() {
    let plain: Vec<u8> = vec![0, 0, 0, 0, b'o', b'k'];
    let cipher = encrypt_stream(&plain, 55665);
    let mut hex = Vec::new();
    for b in &cipher {
        hex.push(to_hex_digit(b >> 4));
        hex.push(to_hex_digit(b & 0x0F));
        hex.push(b'\n');
    }
    let out = decrypt(&hex).unwrap();
    assert_eq!(out, b"ok".to_vec());
}

fn to_hex_digit(v: u8) -> u8 {
    if v < 10 {
        b'0' + v
    } else {
        b'a' + (v - 10)
    }
}

#[test]
fn eexec_hex_with_stray_byte_fails() {
    // Four leading hex digits announce a hex body; a byte outside the hex
    // digit set makes it malformed.
    assert_eq!(decrypt(b"0123zz"), Err(Error::DecryptFailed));
}

#[test]
fn eexec_hex_with_odd_digit_count_fails() {
    assert_eq!(decrypt(b"01234"), Err(Error::DecryptFailed));
}

#[test]
fn eexec_too_short_fails() {
    // A binary body shorter than its four random lead bytes cannot be
    // decrypted.
    assert_eq!(decrypt(&[0xD9, 0xD9]), Err(Error::DecryptFailed));
}
