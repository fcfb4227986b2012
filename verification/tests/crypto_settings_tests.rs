use base64::Engine;
use ftx::crypto::{decrypt, encrypt, key_for_file, KeySource};
use ftx::settings::{
    check_idle_timeout_secs, idle_timeout_from_setting, idle_timeout_setting_text, int_error_message,
    KEY_IDLE_TIMEOUT_SECS,
};
use ftx::text::IntErrorKind;

#[test]
fn test_encrypt_decrypt_roundtrip() {
    let key = [42u8; 32];
    let plain = "secret password 123";
    let enc = encrypt(plain, &key).unwrap();
    assert!(enc.starts_with("enc:"));
    let dec = decrypt(&enc, &key).unwrap();
    assert_eq!(dec, plain);
}

#[test]
fn test_decrypt_empty_returns_empty() {
    let key = [0u8; 32];
    assert_eq!(decrypt("", &key).unwrap(), "");
}

#[test]
fn test_encrypt_empty_returns_empty() {
    let key = [0u8; 32];
    assert_eq!(encrypt("", &key).unwrap(), "");
}

#[test]
fn test_decrypt_plaintext_passthrough() {
    let key = [0u8; 32];
    assert_eq!(decrypt("plaintext", &key).unwrap(), "plaintext");
}

#[test]
fn test_decrypt_wrong_key_fails() {
    let key1 = [1u8; 32];
    let key2 = [2u8; 32];
    let enc = encrypt("secret", &key1).unwrap();
    assert!(decrypt(&enc, &key2).is_err());
}

#[test]
fn encrypt_uses_fresh_nonces() {
    let key = [7u8; 32];
    let a = encrypt("same", &key).unwrap();
    let b = encrypt("same", &key).unwrap();
    assert_ne!(a, b);
    assert_eq!(decrypt(&a, &key).unwrap(), "same");
    assert_eq!(decrypt(&b, &key).unwrap(), "same");
    let unicode = encrypt("密码 ✓", &key).unwrap();
    assert_eq!(decrypt(&unicode, &key).unwrap(), "密码 ✓");
}

#[test]
fn decrypt_error_kinds() {
    let key = [0u8; 32];
    assert!(decrypt("enc:@@@", &key).unwrap_err().starts_with("解码失败: "));
    assert_eq!(decrypt("enc:AAAA", &key).unwrap_err(), "数据过短");
    assert!(decrypt("enc:AAAAAAAAAAAAAAAAAAAAAAAAAAAAAAAA", &key)
        .unwrap_err()
        .starts_with("解密失败: "));
}

#[test]
fn key_file_contents() {
    match key_for_file(Some(vec![9u8; 32])).unwrap() {
        KeySource::Loaded(k) => assert_eq!(k, [9u8; 32]),
        other => panic!("unexpected {:?}", other),
    }
    assert_eq!(key_for_file(Some(vec![1u8; 31])).unwrap_err(), "密钥文件格式错误");
    match key_for_file(None).unwrap() {
        KeySource::Created(k) => {
            let enc = encrypt("x", &k).unwrap();
            assert_eq!(decrypt(&enc, &k).unwrap(), "x");
        }
        other => panic!("unexpected {:?}", other),
    }
}

#[test]
fn idle_timeout_setting_round_trip() {
    assert_eq!(KEY_IDLE_TIMEOUT_SECS, "idle_timeout_secs");
    assert_eq!(idle_timeout_from_setting(None).unwrap(), 300);
    for secs in [600u64, 0, 86400, u64::MAX] {
        let text = idle_timeout_setting_text(secs);
        assert_eq!(text, secs.to_string());
        assert_eq!(idle_timeout_from_setting(Some(text)).unwrap(), secs);
    }
}

#[test]
fn idle_timeout_setting_errors_match_std() {
    for bad in ["", "abc", "-1", "18446744073709551616", "+"] {
        let ours = idle_timeout_from_setting(Some(bad.to_string())).unwrap_err();
        let std = bad.parse::<u64>().unwrap_err().to_string();
        assert_eq!(ours, std, "for {:?}", bad);
    }
    assert_eq!(idle_timeout_from_setting(Some("+42".into())).unwrap(), 42);
    assert_eq!(int_error_message(IntErrorKind::Empty), "cannot parse integer from empty string");
}

#[test]
fn idle_timeout_limit() {
    assert_eq!(check_idle_timeout_secs(86400).unwrap(), 86400);
    assert_eq!(
        check_idle_timeout_secs(86401).unwrap_err(),
        "空闲超时时间不能超过 24 小时 (86400 秒)"
    );
}

#[test]
fn encrypted_blob_holds_nonce_ciphertext_and_tag() {
    let key = [7u8; 32];
    let s = ftx::crypto::encrypt("hello", &key).unwrap();
    let blob = base64::engine::general_purpose::STANDARD.decode(&s[4..]).unwrap();
    assert_eq!(blob.len(), 12 + 5 + 16);
}
