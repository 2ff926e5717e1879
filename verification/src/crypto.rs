//! The crypto helpers that hooks call: SHA-256 and HMAC-SHA256 in hex, base64, AES-256-GCM
//! encryption under a key derived from the auth secret, and random bytes.

use vstd::prelude::*;
use vstd::string::*;
use vstd::utf8::{decode_utf8, encode_utf8, valid_utf8};
use aes_gcm::aead::Aead;
use aes_gcm::KeyInit;
use base64::Engine;
use rand::RngCore;
use crate::text::{concat_str, hex_encode, hex_of};

verus! {

// ---------------------------------------------------------------------------
// What the outside functions compute
// ---------------------------------------------------------------------------

/// The SHA-256 digest of a byte string.
pub uninterp spec fn sha256(data: Seq<u8>) -> Seq<u8>;

/// The HMAC-SHA256 tag of `data` under `key`.
pub uninterp spec fn hmac_sha256(key: Seq<u8>, data: Seq<u8>) -> Seq<u8>;

/// The standard (padded) base64 text of a byte string.
pub uninterp spec fn base64_of(data: Seq<u8>) -> Seq<char>;

/// The bytes that a standard base64 text decodes to, or none when it is not valid.
pub uninterp spec fn base64_decoded(text: Seq<u8>) -> Option<Seq<u8>>;

/// The AES-256-GCM ciphertext (with its tag) of `plaintext` under `key` and `nonce`.
pub uninterp spec fn aes_gcm_seal(key: Seq<u8>, nonce: Seq<u8>, plaintext: Seq<u8>) -> Seq<u8>;

/// The plaintext of an AES-256-GCM ciphertext, or none when it does not authenticate.
pub uninterp spec fn aes_gcm_open(key: Seq<u8>, nonce: Seq<u8>, ciphertext: Seq<u8>) -> Option<Seq<u8>>;

/// Messages longer than this many bytes are beyond SHA-256 and HMAC-SHA256.
pub open spec fn digest_input_limit() -> nat {
    0x2000_0000_0000_0000
}

// ---------------------------------------------------------------------------
// Trusted calls
// ---------------------------------------------------------------------------

/// `ring::digest::digest` with `SHA256`. The contract claims the digest is
/// `sha256(data)` and 32 bytes long; ring panics only on inputs of 2^61 bytes or more.
#[verifier::external_body]
fn sha256_digest(data: &[u8]) -> (r: Vec<u8>)
    requires
        data@.len() < digest_input_limit(),
    ensures
        r@ == sha256(data@),
        r@.len() == 32,
{
    ring::digest::digest(&ring::digest::SHA256, data).as_ref().to_vec()
}

/// `ring::hmac::sign` under a `ring::hmac::Key` made with `HMAC_SHA256` from `key`.
/// The contract claims the tag is `hmac_sha256(key, data)` and 32 bytes long.
#[verifier::external_body]
fn hmac_sha256_sign(key: &[u8], data: &[u8]) -> (r: Vec<u8>)
    requires
        key@.len() < digest_input_limit(),
        data@.len() < digest_input_limit(),
    ensures
        r@ == hmac_sha256(key@, data@),
        r@.len() == 32,
{
    let k = ring::hmac::Key::new(ring::hmac::HMAC_SHA256, key);
    ring::hmac::sign(&k, data).as_ref().to_vec()
}

/// `Engine::encode` of base64's `general_purpose::STANDARD`. The contract claims the
/// text is `base64_of(data)`, and that decoding its bytes with the same engine gives
/// `data` back.
#[verifier::external_body]
fn base64_standard_encode(data: &[u8]) -> (r: String)
    requires
        data@.len() <= usize::MAX / 2,
    ensures
        r@ == base64_of(data@),
        base64_decoded(encode_utf8(r@)) == Some(data@),
{
    base64::engine::general_purpose::STANDARD.encode(data)
}

/// `Engine::decode` of base64's `general_purpose::STANDARD`. The contract claims the
/// bytes are `base64_decoded(text)`, and an error exactly when that is none; the error
/// carries the text of the `DecodeError`, of which nothing is claimed.
#[verifier::external_body]
fn base64_standard_decode(text: &[u8]) -> (r: Result<Vec<u8>, String>)
    ensures
        match r {
            Ok(v) => base64_decoded(text@) == Some(v@),
            Err(_) => base64_decoded(text@) is None,
        },
{
    match base64::engine::general_purpose::STANDARD.decode(text) {
        Ok(v) => Ok(v),
        Err(e) => Err(e.to_string()),
    }
}

/// std's `String::from_utf8`: the string of valid UTF-8 bytes, else an error carrying
/// the text of the `FromUtf8Error`, of which nothing is claimed.
#[verifier::external_body]
fn string_from_utf8(bytes: Vec<u8>) -> (r: Result<String, String>)
    ensures
        match r {
            Ok(s) => valid_utf8(bytes@) && s@ == decode_utf8(bytes@),
            Err(_) => !valid_utf8(bytes@),
        },
{
    match String::from_utf8(bytes) {
        Ok(s) => Ok(s),
        Err(e) => Err(e.to_string()),
    }
}

/// `Aead::encrypt` of an `Aes256Gcm` made with `KeyInit::new_from_slice`. The contract
/// claims the ciphertext is `aes_gcm_seal(key, nonce, plaintext)`, that it opens to the
/// plaintext again under the same key and nonce, that it is the plaintext's length plus
/// the 16-byte tag, and that encryption succeeds for
/// plaintexts of at most 2^36 bytes (the crate's `P_MAX`). The error text is not
/// claimed.
#[verifier::external_body]
fn aes256_gcm_encrypt(key: &[u8], nonce: &[u8], plaintext: &[u8]) -> (r: Result<Vec<u8>, String>)
    requires
        key@.len() == 32,
        nonce@.len() == 12,
    ensures
        match r {
            Ok(ct) => ct@ == aes_gcm_seal(key@, nonce@, plaintext@) && ct@.len() == plaintext@.len() + 16
                && aes_gcm_open(key@, nonce@, ct@) == Some(plaintext@),
            Err(_) => plaintext@.len() > 0x10_0000_0000,
        },
{
    let cipher = match aes_gcm::Aes256Gcm::new_from_slice(key) {
        Ok(c) => c,
        Err(e) => return Err(e.to_string()),
    };
    match cipher.encrypt(aes_gcm::Nonce::from_slice(nonce), plaintext) {
        Ok(v) => Ok(v),
        Err(e) => Err(e.to_string()),
    }
}

/// `Aead::decrypt` of an `Aes256Gcm` made with `KeyInit::new_from_slice`. The contract
/// claims the plaintext is `aes_gcm_open(key, nonce, ciphertext)`, and an error exactly
/// when that is none. The error text is not claimed.
#[verifier::external_body]
fn aes256_gcm_decrypt(key: &[u8], nonce: &[u8], ciphertext: &[u8]) -> (r: Result<Vec<u8>, String>)
    requires
        key@.len() == 32,
        nonce@.len() == 12,
    ensures
        match r {
            Ok(pt) => aes_gcm_open(key@, nonce@, ciphertext@) == Some(pt@),
            Err(_) => aes_gcm_open(key@, nonce@, ciphertext@) is None,
        },
{
    let cipher = match aes_gcm::Aes256Gcm::new_from_slice(key) {
        Ok(c) => c,
        Err(e) => return Err(e.to_string()),
    };
    match cipher.decrypt(aes_gcm::Nonce::from_slice(nonce), ciphertext) {
        Ok(v) => Ok(v),
        Err(e) => Err(e.to_string()),
    }
}

/// `n` bytes from `rand::thread_rng().fill_bytes`. The contract claims only the length.
#[verifier::external_body]
fn random_bytes(n: usize) -> (r: Vec<u8>)
    ensures
        r@.len() == n,
{
    let mut buf = vec![0u8; n];
    rand::thread_rng().fill_bytes(&mut buf);
    buf
}

// ---------------------------------------------------------------------------
// The helpers
// ---------------------------------------------------------------------------

/// The hex SHA-256 digest of a string's UTF-8 bytes.
pub fn sha256_hex(data: &str) -> (r: String)
    requires
        encode_utf8(data@).len() < digest_input_limit(),
    ensures
        r@ == hex_of(sha256(encode_utf8(data@))),
        r@.len() == 64,
{
    let h = sha256_digest(data.as_bytes());
    hex_encode(h.as_slice())
}

/// The hex HMAC-SHA256 tag of `data` under `key` (UTF-8 bytes of both).
pub fn hmac_sha256_hex(data: &str, key: &str) -> (r: String)
    requires
        encode_utf8(data@).len() < digest_input_limit(),
        encode_utf8(key@).len() < digest_input_limit(),
    ensures
        r@ == hex_of(hmac_sha256(encode_utf8(key@), encode_utf8(data@))),
        r@.len() == 64,
{
    let t = hmac_sha256_sign(key.as_bytes(), data.as_bytes());
    hex_encode(t.as_slice())
}

/// The string that a base64 text decodes to, or none when it is not base64 of UTF-8.
pub open spec fn base64_text(encoded: Seq<char>) -> Option<Seq<char>> {
    match base64_decoded(encode_utf8(encoded)) {
        None => None,
        Some(b) => if valid_utf8(b) {
            Some(decode_utf8(b))
        } else {
            None
        },
    }
}

/// The standard base64 text of a string's UTF-8 bytes; it decodes (`base64_text`) back
/// to the string.
pub fn base64_encode(data: &str) -> (r: String)
    requires
        encode_utf8(data@).len() <= usize::MAX / 2,
    ensures
        r@ == base64_of(encode_utf8(data@)),
        base64_text(r@) == Some(data@),
{
    let r = base64_standard_encode(data.as_bytes());
    proof {
        vstd::utf8::encode_utf8_valid_utf8(data@);
        vstd::utf8::encode_utf8_decode_utf8(data@);
    }
    r
}

/// Decode standard base64 text into a UTF-8 string. Errors name the failing step:
/// "base64 decode error: ..." for invalid base64, "base64 decode utf8 error: ..." for
/// bytes that are not UTF-8.
pub fn base64_decode(data: &str) -> (r: Result<String, String>)
    ensures
        match base64_text(data@) {
            Some(t) => r matches Ok(s) && s@ == t,
            None => r is Err,
        },
        match base64_decoded(encode_utf8(data@)) {
            None => r matches Err(m) && "base64 decode error: "@.is_prefix_of(m@),
            Some(b) => if valid_utf8(b) {
                r matches Ok(s) && s@ == decode_utf8(b)
            } else {
                r matches Err(m) && "base64 decode utf8 error: "@.is_prefix_of(m@)
            },
        },
{
    match base64_standard_decode(data.as_bytes()) {
        Err(e) => Err(concat_str("base64 decode error: ", e.as_str())),
        Ok(bytes) => match string_from_utf8(bytes) {
            Ok(s) => Ok(s),
            Err(e) => Err(concat_str("base64 decode utf8 error: ", e.as_str())),
        },
    }
}

/// The plaintext that `decrypt` recovers from the bytes of an encoded ciphertext under
/// a secret, or none when any step fails: base64 decoding, the 12-byte nonce in front,
/// authenticated decryption under the SHA-256 of the secret, UTF-8 decoding.
pub open spec fn decrypt_outcome(encoded: Seq<u8>, secret: Seq<u8>) -> Option<Seq<char>> {
    match base64_decoded(encoded) {
        None => None,
        Some(c) => if c.len() < 12 {
            None
        } else {
            match aes_gcm_open(sha256(secret), c.take(12), c.skip(12)) {
                None => None,
                Some(p) => if valid_utf8(p) {
                    Some(decode_utf8(p))
                } else {
                    None
                },
            }
        },
    }
}

/// Encrypt a string with AES-256-GCM under the SHA-256 of `secret`, with a fresh random
/// 12-byte nonce; the result is the base64 of the nonce followed by the ciphertext.
///
/// What comes back decrypts (`decrypt_outcome`) to the plaintext under the same secret.
pub fn encrypt(plaintext: &str, secret: &str) -> (r: Result<String, String>)
    requires
        encode_utf8(secret@).len() < digest_input_limit(),
        encode_utf8(plaintext@).len() + 28 <= usize::MAX / 2,
    ensures
        r matches Ok(s) ==> exists|nonce: Seq<u8>|
            nonce.len() == 12 && s@ == base64_of(
                nonce + aes_gcm_seal(sha256(encode_utf8(secret@)), nonce, encode_utf8(plaintext@)),
            ),
        r matches Ok(s) ==> decrypt_outcome(encode_utf8(s@), encode_utf8(secret@)) == Some(plaintext@),
        r matches Err(m) ==> "encrypt error: "@.is_prefix_of(m@),
        encode_utf8(plaintext@).len() <= 0x10_0000_0000 ==> r is Ok,
{
    let key = sha256_digest(secret.as_bytes());
    let nonce = random_bytes(12);
    let ct = match aes256_gcm_encrypt(key.as_slice(), nonce.as_slice(), plaintext.as_bytes()) {
        Ok(ct) => ct,
        Err(e) => {
            return Err(concat_str("encrypt error: ", e.as_str()));
        },
    };
    let mut combined = nonce.clone();
    let mut i: usize = 0;
    while i < ct.len()
        invariant
            i <= ct.len(),
            nonce@.len() == 12,
            combined@ == nonce@ + ct@.take(i as int),
        decreases ct.len() - i,
    {
        combined.push(ct[i]);
        assert(ct@.take(i + 1) =~= ct@.take(i as int).push(ct@[i as int]));
        i = i + 1;
    }
    assert(ct@.take(ct.len() as int) =~= ct@);
    let s = base64_standard_encode(combined.as_slice());
    proof {
        let c = combined@;
        assert(c.take(12) =~= nonce@);
        assert(c.skip(12) =~= ct@);
        vstd::utf8::encode_utf8_valid_utf8(plaintext@);
        vstd::utf8::encode_utf8_decode_utf8(plaintext@);
    }
    Ok(s)
}

/// Decrypt what `encrypt` produced under the same secret (see `decrypt_outcome`).
/// Errors name the failing step: "base64 decode: ...", "ciphertext too short",
/// "decrypt error: ...", "decrypt utf8: ...".
pub fn decrypt(encoded: &str, secret: &str) -> (r: Result<String, String>)
    requires
        encode_utf8(secret@).len() < digest_input_limit(),
    ensures
        match decrypt_outcome(encode_utf8(encoded@), encode_utf8(secret@)) {
            Some(p) => r matches Ok(s) && s@ == p,
            None => r is Err,
        },
        r matches Err(m) ==> match base64_decoded(encode_utf8(encoded@)) {
            None => "base64 decode: "@.is_prefix_of(m@),
            Some(c) => if c.len() < 12 {
                m@ == "ciphertext too short"@
            } else if aes_gcm_open(sha256(encode_utf8(secret@)), c.take(12), c.skip(12)) is None {
                "decrypt error: "@.is_prefix_of(m@)
            } else {
                "decrypt utf8: "@.is_prefix_of(m@)
            },
        },
{
    let combined = match base64_standard_decode(encoded.as_bytes()) {
        Ok(c) => c,
        Err(e) => {
            return Err(concat_str("base64 decode: ", e.as_str()));
        },
    };
    if combined.len() < 12 {
        return Err(String::from_str("ciphertext too short"));
    }
    let mut nonce: Vec<u8> = Vec::new();
    let mut body: Vec<u8> = Vec::new();
    let mut i: usize = 0;
    while i < combined.len()
        invariant
            12 <= combined.len(),
            i <= combined.len(),
            i <= 12 ==> nonce@ == combined@.take(i as int) && body@.len() == 0,
            i > 12 ==> nonce@ == combined@.take(12) && body@ == combined@.subrange(12, i as int),
        decreases combined.len() - i,
    {
        if i < 12 {
            nonce.push(combined[i]);
            assert(combined@.take(i + 1) =~= combined@.take(i as int).push(combined@[i as int]));
        } else {
            body.push(combined[i]);
            assert(combined@.subrange(12, i + 1) =~= combined@.subrange(12, i as int).push(combined@[i as int]));
        }
        i = i + 1;
    }
    assert(body@ =~= combined@.skip(12));
    let key = sha256_digest(secret.as_bytes());
    let pt = match aes256_gcm_decrypt(key.as_slice(), nonce.as_slice(), body.as_slice()) {
        Ok(p) => p,
        Err(e) => {
            return Err(concat_str("decrypt error: ", e.as_str()));
        },
    };
    match string_from_utf8(pt) {
        Ok(s) => Ok(s),
        Err(e) => Err(concat_str("decrypt utf8: ", e.as_str())),
    }
}

/// `n` random bytes in hex.
pub fn random_bytes_hex(n: usize) -> (r: String)
    ensures
        exists|b: Seq<u8>| b.len() == n && r@ == hex_of(b),
        r@.len() == 2 * n,
{
    let b = random_bytes(n);
    hex_encode(b.as_slice())
}

} // verus!
