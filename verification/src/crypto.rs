//! Encryption of stored secrets (passwords) with AES-256-GCM: the text
//! `enc:` followed by the Base64 of a fresh 12-byte nonce and the sealed
//! UTF-8 bytes. Text without the prefix is taken as not encrypted. The
//! 32-byte key lives in a key file, created with a random key when missing.

use vstd::prelude::*;
use vstd::string::*;
use vstd::utf8::{decode_utf8, encode_utf8, valid_utf8};
use crate::text::{chars_of, starts_with, starts_with_chars, string_of, sub_chars};
use rand::RngCore;
use aes_gcm::aead::{Aead, KeyInit};
use base64::Engine;

verus! {

pub const NONCE_LEN: usize = 12;

/// Largest plaintext, in bytes, AES-GCM seals.
pub const P_MAX: u64 = 1u64 << 36u64;

pub open spec fn enc_prefix() -> Seq<char> {
    seq!['e', 'n', 'c', ':']
}

/// The Base64 text (standard alphabet, padded) of some bytes.
pub uninterp spec fn base64_encode_spec(bytes: Seq<u8>) -> Seq<char>;

/// What decoding some text as standard, padded Base64 gives: the bytes, or
/// the text of the decoder's error.
pub uninterp spec fn base64_decode_spec(text: Seq<char>) -> Result<Seq<u8>, Seq<char>>;

/// What sealing `plaintext` with AES-256-GCM under `key` and `nonce` gives:
/// ciphertext followed by the tag, or the text of the error.
pub uninterp spec fn aes_gcm_seal_spec(key: Seq<u8>, nonce: Seq<u8>, plaintext: Seq<u8>) -> Result<
    Seq<u8>,
    Seq<char>,
>;

/// What opening `sealed` with AES-256-GCM under `key` and `nonce` gives:
/// the plaintext, or the text of the error.
pub uninterp spec fn aes_gcm_open_spec(key: Seq<u8>, nonce: Seq<u8>, sealed: Seq<u8>) -> Result<
    Seq<u8>,
    Seq<char>,
>;

/// The text of the error `String::from_utf8` reports for some bytes.
pub uninterp spec fn utf8_error_text(bytes: Seq<u8>) -> Seq<char>;

/// Bytes recovered without error.
pub open spec fn decoded(b: Seq<u8>) -> Result<Seq<u8>, Seq<char>> {
    Ok(b)
}

pub open spec fn bytes_res_view(r: Result<Vec<u8>, String>) -> Result<Seq<u8>, Seq<char>> {
    match r {
        Ok(v) => Ok(v@),
        Err(e) => Err(e@),
    }
}

/// `base64::engine::general_purpose::STANDARD.encode`. Stated: the result
/// is named by `base64_encode_spec`, and decoding it with the same engine
/// gives the bytes back.
#[verifier::external_body]
fn base64_encode(bytes: &[u8]) -> (r: String)
    ensures
        r@ == base64_encode_spec(bytes@),
        base64_decode_spec(r@) == decoded(bytes@),
{
    base64::engine::general_purpose::STANDARD.encode(bytes)
}

/// `base64::engine::general_purpose::STANDARD.decode`, its error turned
/// into text. Only the name of the result is stated.
#[verifier::external_body]
fn base64_decode(text: &str) -> (r: Result<Vec<u8>, String>)
    ensures
        bytes_res_view(r) == base64_decode_spec(text@),
{
    base64::engine::general_purpose::STANDARD.decode(text).map_err(|e| e.to_string())
}

/// `Aes256Gcm::new_from_slice(key)` then `encrypt(nonce, plaintext)`.
/// Stated: the result is named by `aes_gcm_seal_spec`; sealing succeeds
/// exactly when the plaintext is at most `P_MAX` bytes (the only check the
/// crate makes, a 32-byte key being always accepted); what it returns is
/// the ciphertext, as long as the plaintext, followed by a 16-byte tag;
/// and opening what was sealed, under the same key and nonce, gives the
/// plaintext back.
#[verifier::external_body]
fn aes_gcm_seal(key: &[u8; 32], nonce: &[u8; 12], plaintext: &[u8]) -> (r: Result<Vec<u8>, String>)
    ensures
        bytes_res_view(r) == aes_gcm_seal_spec(key@, nonce@, plaintext@),
        r is Ok <==> plaintext@.len() <= P_MAX,
        r matches Ok(c) ==> c@.len() == plaintext@.len() + TAG_LEN,
        r matches Ok(c) ==> aes_gcm_open_spec(key@, nonce@, c@) == decoded(plaintext@),
{
    let cipher = aes_gcm::Aes256Gcm::new_from_slice(key).map_err(|e| e.to_string())?;
    cipher.encrypt(nonce.into(), plaintext).map_err(|e| e.to_string())
}

/// `Aes256Gcm::new_from_slice(key)` then `decrypt(nonce, sealed)`, its
/// error turned into text. Only the name of the result is stated.
#[verifier::external_body]
fn aes_gcm_open(key: &[u8; 32], nonce: &[u8], sealed: &[u8]) -> (r: Result<Vec<u8>, String>)
    requires
        nonce@.len() == NONCE_LEN,
    ensures
        bytes_res_view(r) == aes_gcm_open_spec(key@, nonce@, sealed@),
{
    let cipher = aes_gcm::Aes256Gcm::new_from_slice(key).map_err(|e| e.to_string())?;
    cipher.decrypt(aes_gcm::Nonce::from_slice(nonce), sealed).map_err(|e| e.to_string())
}

/// A fresh nonce from the operating system's random source
/// (`OsRng.fill_bytes`). Nothing is promised of its bytes.
#[verifier::external_body]
fn random_nonce() -> (r: [u8; 12]) {
    let mut nonce = [0u8; 12];
    aes_gcm::aead::OsRng.fill_bytes(&mut nonce);
    nonce
}

/// `String::from_utf8`: the text the bytes encode when they are valid
/// UTF-8, otherwise the text of the error (named by `utf8_error_text`).
#[verifier::external_body]
fn string_from_utf8(bytes: Vec<u8>) -> (r: Result<String, String>)
    ensures
        r is Ok <==> valid_utf8(bytes@),
        r matches Ok(s) ==> s@ == decode_utf8(bytes@),
        r matches Err(e) ==> e@ == utf8_error_text(bytes@),
{
    String::from_utf8(bytes).map_err(|e| e.to_string())
}

/// Length in bytes of the secret encryption key.
pub const KEY_LEN: usize = 32;

/// The key a key file holds: exactly 32 bytes.
pub fn key_from_bytes(bytes: &Vec<u8>) -> (r: Result<[u8; 32], String>)
    ensures
        bytes@.len() == KEY_LEN ==> (r matches Ok(k) && k@ == bytes@),
        bytes@.len() != KEY_LEN ==> (r matches Err(e) && e@ == "密钥文件格式错误"@),
{
    if bytes.len() != KEY_LEN {
        return Err(String::from_str("密钥文件格式错误"));
    }
    let mut key = [0u8; 32];
    let mut i: usize = 0;
    while i < KEY_LEN
        invariant
            i <= KEY_LEN,
            bytes@.len() == KEY_LEN,
            key@.len() == KEY_LEN,
            forall|k: int| 0 <= k < i ==> key@[k] == bytes@[k],
        decreases KEY_LEN - i,
    {
        key[i] = bytes[i];
        i += 1;
    }
    assert(key@ =~= bytes@);
    Ok(key)
}

/// A fresh key from the operating system's random source
/// (`OsRng.fill_bytes`). Nothing is promised of its bytes.
#[verifier::external_body]
fn random_key() -> (r: [u8; 32]) {
    let mut key = [0u8; 32];
    aes_gcm::aead::OsRng.fill_bytes(&mut key);
    key
}

/// Where the secret key came from.
#[derive(Debug)]
pub enum KeySource {
    /// Read from the key file.
    Loaded([u8; 32]),
    /// Drawn at random, because there was no key file yet; it is to be
    /// written there.
    Created([u8; 32]),
}

/// The secret key, from the key file's bytes when the file exists: they
/// must be exactly 32; without a file a new key is drawn.
pub fn key_for_file(existing: Option<Vec<u8>>) -> (r: Result<KeySource, String>)
    ensures
        existing is None ==> r matches Ok(KeySource::Created(_)),
        existing matches Some(b) ==> (b@.len() == KEY_LEN ==> (r matches Ok(KeySource::Loaded(k))
            && k@ == b@)),
        existing matches Some(b) ==> (b@.len() != KEY_LEN ==> (r matches Err(e) && e@
            == "密钥文件格式错误"@)),
{
    match existing {
        None => Ok(KeySource::Created(random_key())),
        Some(bytes) => {
            let key = key_from_bytes(&bytes)?;
            Ok(KeySource::Loaded(key))
        },
    }
}

/// The stored text of `plaintext` sealed under `key` with `nonce`.
pub open spec fn sealed_text(key: Seq<u8>, nonce: Seq<u8>, plaintext: Seq<char>) -> Seq<char> {
    enc_prefix() + base64_encode_spec(
        nonce + aes_gcm_seal_spec(key, nonce, encode_utf8(plaintext))->Ok_0,
    )
}

/// What `decrypt` gives for a stored text under `key`.
pub open spec fn decrypt_spec(encoded: Seq<char>, key: Seq<u8>) -> Result<Seq<char>, Seq<char>> {
    if encoded.len() == 0 {
        Ok(seq![])
    } else if !starts_with(encoded, enc_prefix()) {
        Ok(encoded)
    } else {
        match base64_decode_spec(encoded.skip(4)) {
            Err(e) => Err("解码失败: "@ + e),
            Ok(blob) => if blob.len() < NONCE_LEN {
                Err("数据过短"@)
            } else {
                match aes_gcm_open_spec(key, blob.take(12), blob.skip(12)) {
                    Err(e) => Err("解密失败: "@ + e),
                    Ok(pt) => if valid_utf8(pt) {
                        Ok(decode_utf8(pt))
                    } else {
                        Err("UTF-8 错误: "@ + utf8_error_text(pt))
                    },
                }
            },
        }
    }
}

pub open spec fn str_res_view(r: Result<String, String>) -> Result<Seq<char>, Seq<char>> {
    match r {
        Ok(s) => Ok(s@),
        Err(e) => Err(e@),
    }
}

fn copy_bytes(v: &[u8], lo: usize, hi: usize) -> (r: Vec<u8>)
    requires
        lo <= hi <= v@.len(),
    ensures
        r@ == v@.subrange(lo as int, hi as int),
{
    let mut r: Vec<u8> = Vec::new();
    let mut i = lo;
    while i < hi
        invariant
            lo <= i <= hi,
            hi <= v@.len(),
            r@ == v@.subrange(lo as int, i as int),
        decreases hi - i,
    {
        r.push(v[i]);
        i += 1;
        assert(r@ =~= v@.subrange(lo as int, i as int));
    }
    r
}

/// Length in bytes of the tag that AES-GCM appends to a ciphertext.
pub const TAG_LEN: usize = 16;

/// Encrypts a secret for storage; the empty text stays empty. A stored
/// text is `enc:` and the Base64 of the nonce, the ciphertext and the tag,
/// so its decoded blob is 28 bytes longer than the secret's UTF-8. Whatever
/// text it returns, `decrypt` under the same key gives the secret back.
pub fn encrypt(plaintext: &str, key: &[u8; 32]) -> (r: Result<String, String>)
    ensures
        plaintext@.len() == 0 ==> (r matches Ok(s) && s@.len() == 0),
        plaintext@.len() > 0 ==> (r is Ok <==> encode_utf8(plaintext@).len() <= P_MAX),
        r matches Ok(s) ==> plaintext@.len() > 0 ==> exists|nonce: Seq<u8>|
            nonce.len() == NONCE_LEN && s@ == sealed_text(key@, nonce, plaintext@),
        r matches Ok(s) ==> decrypt_spec(s@, key@) == Ok::<Seq<char>, Seq<char>>(plaintext@),
        r matches Ok(s) ==> plaintext@.len() > 0 ==> (base64_decode_spec(s@.skip(4)) matches Ok(
            blob,
        ) && blob.len() == NONCE_LEN + encode_utf8(plaintext@).len() + TAG_LEN),
{
    if plaintext.is_empty() {
        let e = String::new();
        assert(e@ =~= plaintext@);
        return Ok(e);
    }
    let nonce = random_nonce();
    let bytes = plaintext.as_bytes();
    let sealed = match aes_gcm_seal(key, &nonce, bytes) {
        Ok(c) => c,
        Err(e) => {
            return Err(e);
        },
    };
    let mut blob: Vec<u8> = Vec::new();
    let mut i: usize = 0;
    while i < NONCE_LEN
        invariant
            i <= NONCE_LEN,
            nonce@.len() == NONCE_LEN,
            blob@ == nonce@.take(i as int),
        decreases NONCE_LEN - i,
    {
        blob.push(nonce[i]);
        i += 1;
        assert(blob@ =~= nonce@.take(i as int));
    }
    let mut j: usize = 0;
    while j < sealed.len()
        invariant
            j <= sealed@.len(),
            nonce@.len() == NONCE_LEN,
            blob@ == nonce@ + sealed@.take(j as int),
        decreases sealed@.len() - j,
    {
        blob.push(sealed[j]);
        j += 1;
        assert(blob@ =~= nonce@ + sealed@.take(j as int));
    }
    assert(sealed@.take(sealed@.len() as int) =~= sealed@);
    let text = base64_encode(&blob);
    let mut out = String::from_str("enc:");
    out.append(text.as_str());
    proof {
        reveal_strlit("enc:");
        assert("enc:"@ =~= enc_prefix());
        let ghost s = out@;
        assert(s =~= enc_prefix() + text@);
        assert(s.len() > 0);
        assert(s.subrange(0, 4) =~= enc_prefix());
        assert(s.skip(4) =~= text@);
        assert(blob@.take(12) =~= nonce@);
        assert(blob@.skip(12) =~= sealed@);
        vstd::utf8::encode_utf8_valid_utf8(plaintext@);
        vstd::utf8::encode_utf8_decode_utf8(plaintext@);
        assert(s == sealed_text(key@, nonce@, plaintext@));
    }
    Ok(out)
}

/// Decrypts a stored secret. The empty text stays empty, and text without
/// the `enc:` prefix is returned as it is.
pub fn decrypt(encoded: &str, key: &[u8; 32]) -> (r: Result<String, String>)
    ensures
        str_res_view(r) == decrypt_spec(encoded@, key@),
{
    let v = chars_of(encoded);
    if v.len() == 0 {
        return Ok(String::new());
    }
    let prefix: [char; 4] = ['e', 'n', 'c', ':'];
    assert(prefix@ =~= enc_prefix());
    if !starts_with_chars(&v, &prefix) {
        return Ok(string_of(&v));
    }
    let b64 = string_of(&sub_chars(&v, 4, v.len()));
    assert(b64@ =~= encoded@.skip(4));
    let blob = match base64_decode(b64.as_str()) {
        Ok(b) => b,
        Err(e) => {
            let mut msg = String::from_str("解码失败: ");
            msg.append(e.as_str());
            return Err(msg);
        },
    };
    if blob.len() < NONCE_LEN {
        return Err(String::from_str("数据过短"));
    }
    let nonce = copy_bytes(&blob, 0, NONCE_LEN);
    let sealed = copy_bytes(&blob, NONCE_LEN, blob.len());
    assert(nonce@ =~= blob@.take(12));
    assert(sealed@ =~= blob@.skip(12));
    let plain = match aes_gcm_open(key, &nonce, &sealed) {
        Ok(p) => p,
        Err(e) => {
            let mut msg = String::from_str("解密失败: ");
            msg.append(e.as_str());
            return Err(msg);
        },
    };
    let ghost pt = plain@;
    match string_from_utf8(plain) {
        Ok(s) => Ok(s),
        Err(e) => {
            let mut msg = String::from_str("UTF-8 错误: ");
            msg.append(e.as_str());
            assert(msg@ == "UTF-8 错误: "@ + utf8_error_text(pt));
            Err(msg)
        },
    }
}

} // verus!
