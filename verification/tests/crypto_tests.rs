use preprintd::crypto::{apply_keystream, decrypt, encrypt, encrypt_with_iv, open_sealed, seal, CryptoError};

const KEY: &str = "worker-secret";
const JOB: &str = "job-42";

fn iv() -> [u8; 16] {
    let mut iv = [0u8; 16];
    for (i, b) in iv.iter_mut().enumerate() {
        *b = i as u8;
    }
    iv
}

#[test]
fn decrypt_absent_field_is_empty() {
    assert_eq!(decrypt(None, JOB, KEY), Ok(Vec::new()));
}

#[test]
fn decrypt_blank_field_is_empty() {
    assert_eq!(decrypt(Some(""), JOB, KEY), Ok(Vec::new()));
    assert_eq!(decrypt(Some(" \t\n\u{3000}"), JOB, KEY), Ok(Vec::new()));
}

#[test]
fn decrypt_invalid_base64_is_an_error() {
    assert_eq!(decrypt(Some("not base64!"), JOB, KEY), Err(CryptoError::InvalidBase64));
    assert_eq!(decrypt(Some("AAEC AwQF"), JOB, KEY), Err(CryptoError::InvalidBase64));
}

#[test]
fn decrypt_shorter_than_iv_is_empty() {
    assert_eq!(decrypt(Some("MDEyMzQ1Njc4OQ=="), JOB, KEY), Ok(Vec::new()));
}

#[test]
fn decrypt_known_vector() {
    let r = decrypt(Some("AAECAwQFBgcICQoLDA0OD5diP2IXcoypK6dfApo="), JOB, KEY);
    assert_eq!(r, Ok(b"hello printer".to_vec()));
}

#[test]
fn decrypt_trims_surrounding_white_space() {
    let r = decrypt(Some("\n  AAECAwQFBgcICQoLDA0OD5diP2IXcoypK6dfApo=\u{85} \t"), JOB, KEY);
    assert_eq!(r, Ok(b"hello printer".to_vec()));
}

#[test]
fn decrypt_multi_block_vector() {
    let text = "AAECAwQFBgcICQoLDA0OD/8GUQ18V/rcSsAhbORCqqWmJbPode7o6OW4hfQ29DpTBmnYCmCYTYtsqBCtMqF+RgP2SDY7zG9nEay2tBS0+Irq9dkJGEM=";
    let expected: Vec<u8> = (0u8..70).collect();
    assert_eq!(decrypt(Some(text), JOB, KEY), Ok(expected));
}

#[test]
fn decrypt_depends_on_key_and_job() {
    let text = "AAECAwQFBgcICQoLDA0OD5diP2IXcoypK6dfApo=";
    assert_ne!(decrypt(Some(text), JOB, "other-key"), Ok(b"hello printer".to_vec()));
    assert_ne!(decrypt(Some(text), "job-43", KEY), Ok(b"hello printer".to_vec()));
}

#[test]
fn decrypt_iv_only_is_empty_plaintext() {
    let text = "AAECAwQFBgcICQoLDA0ODw==";
    assert_eq!(decrypt(Some(text), JOB, KEY), Ok(Vec::new()));
}

#[test]
fn encrypt_with_iv_known_vector() {
    assert_eq!(
        encrypt_with_iv("hello printer", JOB, KEY, iv()),
        "AAECAwQFBgcICQoLDA0OD5diP2IXcoypK6dfApo="
    );
    assert_eq!(
        encrypt_with_iv("héllo ✓", JOB, KEY, iv()),
        "AAECAwQFBgcICQoLDA0OD5fE+mIUPdw53lo="
    );
}

#[test]
fn encrypt_with_iv_empty_plaintext() {
    assert_eq!(encrypt_with_iv("", JOB, KEY, iv()), "AAECAwQFBgcICQoLDA0ODw==");
}

#[test]
fn encrypt_then_decrypt_round_trips() {
    for pt in ["", "a", "hello printer", "héllo ✓ über 32 bytes long, spanning several keystream blocks!"] {
        let sealed = encrypt(pt, JOB, KEY).unwrap();
        assert_eq!(decrypt(Some(&sealed), JOB, KEY), Ok(pt.as_bytes().to_vec()));
    }
}

#[test]
fn encrypt_uses_a_fresh_iv() {
    let a = encrypt("same text", JOB, KEY).unwrap();
    let b = encrypt("same text", JOB, KEY).unwrap();
    assert_ne!(a, b);
    assert_eq!(a.len(), b.len());
}

#[test]
fn keystream_applied_twice_is_identity() {
    let seed: Vec<u8> = (100u8..132).collect();
    let data: Vec<u8> = (0u8..=255).collect();
    let once = apply_keystream(&seed, &data);
    assert_eq!(once.len(), data.len());
    assert_ne!(once, data);
    assert_eq!(apply_keystream(&seed, &once), data);
}

#[test]
fn seal_then_open() {
    let raw = seal(b"hello printer", JOB.as_bytes(), KEY.as_bytes(), iv());
    assert_eq!(&raw[..16], &iv()[..]);
    assert_eq!(raw.len(), 16 + 13);
    assert_eq!(open_sealed(&raw, JOB.as_bytes(), KEY.as_bytes()), b"hello printer".to_vec());
    assert_eq!(open_sealed(&raw[..15], JOB.as_bytes(), KEY.as_bytes()), Vec::<u8>::new());
}
