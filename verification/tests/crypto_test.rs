use astrbot::platform::sources::weixin_oc::crypto::{
    aes_ecb_decrypt, aes_ecb_encrypt, aes_padded_size, parse_media_aes_key, pkcs7_pad, pkcs7_unpad,
};
use base64::Engine;

fn b64(data: &[u8]) -> String {
    base64::engine::general_purpose::STANDARD.encode(data)
}

fn unhex(s: &str) -> Vec<u8> {
    hex::decode(s).unwrap()
}

#[test]
fn pkcs7_pad_adds_a_full_block_to_aligned_input() {
    assert_eq!(pkcs7_pad(&[]), vec![16u8; 16]);
    let padded = pkcs7_pad(b"abc");
    assert_eq!(padded.len(), 16);
    assert_eq!(&padded[..3], b"abc");
    assert!(padded[3..].iter().all(|&b| b == 13));
    let aligned = [7u8; 16];
    let padded = pkcs7_pad(&aligned);
    assert_eq!(padded.len(), 32);
    assert!(padded[16..].iter().all(|&b| b == 16));
}

#[test]
fn pkcs7_round_trip() {
    for n in 0..40usize {
        let data: Vec<u8> = (0..n).map(|i| (i * 7) as u8).collect();
        assert_eq!(pkcs7_unpad(&pkcs7_pad(&data)).unwrap(), data);
    }
}

#[test]
fn pkcs7_unpad_rejects_bad_lengths_and_keeps_bad_padding() {
    assert_eq!(pkcs7_unpad(&[]).unwrap_err(), "invalid ciphertext length");
    assert_eq!(pkcs7_unpad(&[1u8; 15]).unwrap_err(), "invalid ciphertext length");
    let mut zero_pad = vec![1u8; 16];
    zero_pad[15] = 0;
    assert_eq!(pkcs7_unpad(&zero_pad).unwrap(), zero_pad);
    let mut big_pad = vec![1u8; 16];
    big_pad[15] = 17;
    assert_eq!(pkcs7_unpad(&big_pad).unwrap(), big_pad);
    let mut mixed = vec![3u8; 16];
    mixed[13] = 9;
    assert_eq!(pkcs7_unpad(&mixed).unwrap(), mixed);
    let mut good = vec![9u8; 16];
    good[14] = 2;
    good[15] = 2;
    assert_eq!(pkcs7_unpad(&good).unwrap(), vec![9u8; 14]);
}

#[test]
fn padded_size_formula() {
    assert_eq!(aes_padded_size(0), 16);
    assert_eq!(aes_padded_size(1), 16);
    assert_eq!(aes_padded_size(15), 16);
    assert_eq!(aes_padded_size(16), 32);
    assert_eq!(aes_padded_size(100), 112);
}

#[test]
fn aes128_known_answer() {
    let key = unhex("000102030405060708090a0b0c0d0e0f");
    let pt = unhex("00112233445566778899aabbccddeeff");
    let ct = aes_ecb_encrypt(&key, &pt).unwrap();
    assert_eq!(ct.len(), 32);
    assert_eq!(hex::encode(&ct[..16]), "69c4e0d86a7b0430d8cdb78070b4c55a");
    assert_eq!(aes_ecb_decrypt(&key, &ct).unwrap(), pt);
}

#[test]
fn aes256_known_answer() {
    let key = unhex("000102030405060708090a0b0c0d0e0f101112131415161718191a1b1c1d1e1f");
    let pt = unhex("00112233445566778899aabbccddeeff");
    let ct = aes_ecb_encrypt(&key, &pt).unwrap();
    assert_eq!(hex::encode(&ct[..16]), "8ea2b7ca516745bfeafc49904b496089");
    assert_eq!(aes_ecb_decrypt(&key, &ct).unwrap(), pt);
}

#[test]
fn aes_round_trip_many_lengths() {
    let key = [42u8; 16];
    for n in [0usize, 1, 15, 16, 17, 100] {
        let data: Vec<u8> = (0..n).map(|i| i as u8).collect();
        let ct = aes_ecb_encrypt(&key, &data).unwrap();
        assert_eq!(ct.len(), aes_padded_size(n));
        assert_eq!(aes_ecb_decrypt(&key, &ct).unwrap(), data);
    }
}

#[test]
fn aes_rejects_bad_keys_and_lengths() {
    assert_eq!(
        aes_ecb_encrypt(&[0u8; 24], b"x").unwrap_err(),
        "unsupported AES key length: 24 (expected 16 or 32)"
    );
    assert_eq!(
        aes_ecb_decrypt(&[0u8; 5], &[0u8; 16]).unwrap_err(),
        "unsupported AES key length: 5 (expected 16 or 32)"
    );
    assert_eq!(
        aes_ecb_decrypt(&[0u8; 16], &[0u8; 15]).unwrap_err(),
        "invalid ciphertext length for AES decryption"
    );
    assert_eq!(
        aes_ecb_decrypt(&[0u8; 16], &[]).unwrap_err(),
        "invalid ciphertext length for AES decryption"
    );
}

#[test]
fn media_key_raw_bytes() {
    let raw: Vec<u8> = (0..16).collect();
    assert_eq!(parse_media_aes_key(&b64(&raw)).unwrap(), raw);
    let raw32: Vec<u8> = (100..132).collect();
    assert_eq!(parse_media_aes_key(&b64(&raw32)).unwrap(), raw32);
    // Padding may be left out, and surrounding whitespace is ignored.
    let unpadded = b64(&raw).trim_end_matches('=').to_string();
    assert_eq!(parse_media_aes_key(&format!("  {unpadded}\n")).unwrap(), raw);
}

#[test]
fn media_key_hex_text() {
    let key: Vec<u8> = (0..32).map(|i| (i * 5) as u8).collect();
    let hex_text = hex::encode(&key);
    assert_eq!(parse_media_aes_key(&b64(hex_text.as_bytes())).unwrap(), key);
    let upper = hex_text.to_uppercase();
    assert_eq!(parse_media_aes_key(&b64(upper.as_bytes())).unwrap(), key);
}

#[test]
fn media_key_errors() {
    assert_eq!(parse_media_aes_key("   ").unwrap_err(), "empty media aes key");
    assert!(parse_media_aes_key("!!!!").unwrap_err().starts_with("base64 decode failed: "));
    assert_eq!(
        parse_media_aes_key(&b64(&[1u8; 10])).unwrap_err(),
        "unsupported media aes key format: len=10"
    );
    let not_hex = "g".repeat(64);
    assert_eq!(
        parse_media_aes_key(&b64(not_hex.as_bytes())).unwrap_err(),
        "unsupported media aes key format: len=64"
    );
}
