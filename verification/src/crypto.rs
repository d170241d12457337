//! The cryptographic primitives the engine relies on: RSA with PKCS#1 v1.5
//! padding, AES-256-GCM, base64, SHA-256 and the operating system's random
//! generator.
//!
//! Each function here hands plain bytes to an outside implementation and
//! hands plain bytes back. Their contracts are taken on trust; where a result
//! is a function of the arguments alone it is given a name, so that the
//! contracts of the engine can speak of it.

use vstd::prelude::*;
use aes_gcm::aead::{Aead, KeyInit};
use base64::Engine;
use rand::RngCore;
use rsa::pkcs8::{DecodePrivateKey, DecodePublicKey, EncodePrivateKey, EncodePublicKey};
use rsa::signature::{SignatureEncoding, Signer, Verifier};
use sha2::Digest;

verus! {

/// Longest plaintext, in bytes, that AES-GCM seals.
pub const AES_GCM_MAX_PLAINTEXT: u64 = 0x10_0000_0000;

/// Length of an AES-256 key in bytes.
pub const AES_KEY_LEN: usize = 32;

/// Length of an AES-GCM nonce in bytes.
pub const AES_NONCE_LEN: usize = 12;

/// Number of hexadecimal digits of a SHA-256 digest.
pub const SHA256_HEX_LEN: usize = 64;

/// The standard base64 text, with padding, of a byte sequence.
pub uninterp spec fn base64_text(bytes: Seq<u8>) -> Seq<char>;

/// The bytes that a standard base64 text stands for, if it is one.
pub uninterp spec fn base64_bytes(text: Seq<char>) -> Option<Seq<u8>>;

/// The AES-256-GCM ciphertext, tag included, of a plaintext under a key and
/// a nonce, with no associated data.
pub uninterp spec fn aes_gcm_sealed(key: Seq<u8>, nonce: Seq<u8>, plaintext: Seq<u8>) -> Seq<u8>;

/// The plaintext of an AES-256-GCM ciphertext under a key and a nonce, if its
/// tag is authentic.
pub uninterp spec fn aes_gcm_opened(key: Seq<u8>, nonce: Seq<u8>, ciphertext: Seq<u8>) -> Option<
    Seq<u8>,
>;

/// The DER form of the public key that belongs to a private key given in
/// PKCS#8 DER form, if the private key parses.
pub uninterp spec fn rsa_public_of(private_der: Seq<u8>) -> Option<Seq<u8>>;

/// Whether a byte sequence is the PKCS#8 DER form of a key pair as
/// `RsaPrivateKey::new` makes them when asked for 1024 to 4096 bits: a
/// modulus of that length, the product of two different factors of half the
/// length each, which the generator's primality test has passed, the public
/// exponent 65537 and the private exponent that belongs to them. The
/// factors are taken to be primes. A key that merely parses need not be of
/// this kind: parsing tests no factor for primality.
pub uninterp spec fn rsa_generated_key(private_der: Seq<u8>) -> bool;

/// Whether a byte sequence is the DER form of an RSA public key.
pub uninterp spec fn rsa_parses_public(public_der: Seq<u8>) -> bool;

/// What a private key recovers from a PKCS#1 v1.5 ciphertext, if anything.
pub uninterp spec fn rsa_decrypted(private_der: Seq<u8>, ciphertext: Seq<u8>) -> Option<Seq<u8>>;

/// The PKCS#1 v1.5 signature, over SHA-256, of a message under a private
/// key, if the key parses and can sign.
pub uninterp spec fn rsa_signed(private_der: Seq<u8>, message: Seq<u8>) -> Option<Seq<u8>>;

/// Whether a signature is valid for a message under a public key; `None` if
/// the key does not parse.
pub uninterp spec fn rsa_verified(public_der: Seq<u8>, message: Seq<u8>, signature: Seq<u8>)
    -> Option<bool>;

/// The SHA-256 digest of a byte sequence as 64 lower-case hexadecimal digits.
pub uninterp spec fn sha256_hex(data: Seq<u8>) -> Seq<char>;

/// `base64::engine::general_purpose::STANDARD.encode`. The result is the
/// named base64 text of the input, and decoding it gives the input back.
#[verifier::external_body]
pub(crate) fn base64_encode(bytes: &[u8]) -> (text: String)
    ensures
        text@ == base64_text(bytes@),
        base64_bytes(text@) == Some(bytes@),
{
    base64::engine::general_purpose::STANDARD.encode(bytes)
}

/// `base64::engine::general_purpose::STANDARD.decode`. Returns the named
/// bytes of the text, or the decoder's description of what is wrong with it.
#[verifier::external_body]
pub(crate) fn base64_decode(text: &str) -> (r: Result<Vec<u8>, String>)
    ensures
        match r {
            Ok(bytes) => base64_bytes(text@) == Some(bytes@),
            Err(_) => base64_bytes(text@) is None,
        },
{
    match base64::engine::general_purpose::STANDARD.decode(text) {
        Ok(bytes) => Ok(bytes),
        Err(e) => Err(e.to_string()),
    }
}

/// `OsRng.try_fill_bytes` on a fresh buffer of `len` bytes. Only the length
/// of the result is known.
#[verifier::external_body]
pub(crate) fn random_bytes(len: usize) -> (r: Result<Vec<u8>, String>)
    ensures
        r matches Ok(bytes) ==> bytes@.len() == len,
{
    let mut bytes = vec![0u8; len];
    match rand::rngs::OsRng.try_fill_bytes(&mut bytes) {
        Ok(()) => Ok(bytes),
        Err(e) => Err(e.to_string()),
    }
}

/// `Aes256Gcm::encrypt` with no associated data. It succeeds on every
/// plaintext up to the cipher's limit; the result is the named ciphertext,
/// and opening it under the same key and nonce gives the plaintext back.
#[verifier::external_body]
pub(crate) fn aes_gcm_seal(key: &[u8], nonce: &[u8], plaintext: &[u8]) -> (r: Result<
    Vec<u8>,
    String,
>)
    requires
        key@.len() == AES_KEY_LEN,
        nonce@.len() == AES_NONCE_LEN,
    ensures
        plaintext@.len() <= AES_GCM_MAX_PLAINTEXT ==> r is Ok,
        r matches Ok(sealed) ==> sealed@ == aes_gcm_sealed(key@, nonce@, plaintext@)
            && aes_gcm_opened(key@, nonce@, sealed@) == Some(plaintext@),
{
    let cipher = aes_gcm::Aes256Gcm::new(aes_gcm::Key::<aes_gcm::Aes256Gcm>::from_slice(key));
    match cipher.encrypt(aes_gcm::Nonce::from_slice(nonce), plaintext) {
        Ok(sealed) => Ok(sealed),
        Err(e) => Err(e.to_string()),
    }
}

/// `Aes256Gcm::decrypt` with no associated data. Returns the named plaintext,
/// or an error where the ciphertext is not authentic.
#[verifier::external_body]
pub(crate) fn aes_gcm_open(key: &[u8], nonce: &[u8], ciphertext: &[u8]) -> (r: Result<
    Vec<u8>,
    String,
>)
    requires
        key@.len() == AES_KEY_LEN,
        nonce@.len() == AES_NONCE_LEN,
    ensures
        match r {
            Ok(plaintext) => aes_gcm_opened(key@, nonce@, ciphertext@) == Some(plaintext@),
            Err(_) => aes_gcm_opened(key@, nonce@, ciphertext@) is None,
        },
{
    let cipher = aes_gcm::Aes256Gcm::new(aes_gcm::Key::<aes_gcm::Aes256Gcm>::from_slice(key));
    match cipher.decrypt(aes_gcm::Nonce::from_slice(nonce), ciphertext) {
        Ok(plaintext) => Ok(plaintext),
        Err(e) => Err(e.to_string()),
    }
}

/// `RsaPrivateKey::new` with the operating system's generator; the key is
/// returned in PKCS#8 DER form. Which key comes back is for the generator to
/// say; it is one of the keys the generator makes.
#[verifier::external_body]
pub(crate) fn rsa_generate_private_key(bits: usize) -> (r: Result<Vec<u8>, String>)
    requires
        1024 <= bits <= 4096,
    ensures
        r matches Ok(private_der) ==> rsa_generated_key(private_der@),
{
    let key = match rsa::RsaPrivateKey::new(&mut rand::rngs::OsRng, bits) {
        Ok(key) => key,
        Err(e) => return Err(e.to_string()),
    };
    match key.to_pkcs8_der() {
        Ok(document) => Ok(document.as_bytes().to_vec()),
        Err(e) => Err(e.to_string()),
    }
}

/// `RsaPrivateKey::to_public_key` followed by `to_public_key_der`, on a
/// private key in PKCS#8 DER form. Returns the named public key; an error
/// where the private key does not parse.
#[verifier::external_body]
pub(crate) fn rsa_public_key_der(private_der: &[u8]) -> (r: Result<Vec<u8>, String>)
    ensures
        match r {
            Ok(public_der) => rsa_public_of(private_der@) == Some(public_der@),
            Err(_) => rsa_public_of(private_der@) is None,
        },
{
    let key = match rsa::RsaPrivateKey::from_pkcs8_der(private_der) {
        Ok(key) => key,
        Err(e) => return Err(e.to_string()),
    };
    match key.to_public_key().to_public_key_der() {
        Ok(document) => Ok(document.as_bytes().to_vec()),
        Err(e) => Err(e.to_string()),
    }
}

/// `RsaPublicKey::from_public_key_der`: whether the bytes are the DER form
/// of an RSA public key, with the parser's complaint where they are not.
#[verifier::external_body]
pub(crate) fn rsa_check_public_key(public_der: &[u8]) -> (r: Result<(), String>)
    ensures
        r is Ok <==> rsa_parses_public(public_der@),
{
    match rsa::RsaPublicKey::from_public_key_der(public_der) {
        Ok(_) => Ok(()),
        Err(e) => Err(e.to_string()),
    }
}

/// `RsaPublicKey::encrypt` with PKCS#1 v1.5 padding and the operating
/// system's generator. The padding is random, so the ciphertext has no name.
/// What holds of every outcome is the round trip for the keys the generator
/// makes: such a private key, if its public key is the one given, recovers
/// the message from the ciphertext. Of other private keys nothing is said.
/// A public key that does not parse gives an error.
#[verifier::external_body]
pub(crate) fn rsa_encrypt(public_der: &[u8], message: &[u8]) -> (r: Result<Vec<u8>, String>)
    ensures
        r is Ok ==> rsa_parses_public(public_der@),
        r matches Ok(ciphertext) ==> forall|private_der: Seq<u8>|
            rsa_generated_key(private_der) && #[trigger] rsa_public_of(private_der) == Some(
                public_der@,
            ) ==> rsa_decrypted(private_der, ciphertext@) == Some(message@),
{
    let key = match rsa::RsaPublicKey::from_public_key_der(public_der) {
        Ok(key) => key,
        Err(e) => return Err(e.to_string()),
    };
    match key.encrypt(&mut rand::rngs::OsRng, rsa::Pkcs1v15Encrypt, message) {
        Ok(ciphertext) => Ok(ciphertext),
        Err(e) => Err(e.to_string()),
    }
}

/// `RsaPrivateKey::decrypt` with PKCS#1 v1.5 padding, for a key of the
/// generator's making. Returns the named plaintext, or an error where the
/// key does not parse or the padding is wrong.
#[verifier::external_body]
pub(crate) fn rsa_decrypt(private_der: &[u8], ciphertext: &[u8]) -> (r: Result<Vec<u8>, String>)
    requires
        rsa_generated_key(private_der@),
    ensures
        match r {
            Ok(plaintext) => rsa_decrypted(private_der@, ciphertext@) == Some(plaintext@),
            Err(_) => rsa_decrypted(private_der@, ciphertext@) is None,
        },
{
    let key = match rsa::RsaPrivateKey::from_pkcs8_der(private_der) {
        Ok(key) => key,
        Err(e) => return Err(e.to_string()),
    };
    match key.decrypt(rsa::Pkcs1v15Encrypt, ciphertext) {
        Ok(plaintext) => Ok(plaintext),
        Err(e) => Err(e.to_string()),
    }
}

/// `rsa::pkcs1v15::SigningKey::<Sha256>::try_sign`, for a key of the
/// generator's making. Returns the named signature, or an error where the
/// key does not parse or cannot sign.
#[verifier::external_body]
pub(crate) fn rsa_sign(private_der: &[u8], message: &[u8]) -> (r: Result<Vec<u8>, String>)
    requires
        rsa_generated_key(private_der@),
    ensures
        match r {
            Ok(signature) => rsa_signed(private_der@, message@) == Some(signature@),
            Err(_) => rsa_signed(private_der@, message@) is None,
        },
{
    let key = match rsa::RsaPrivateKey::from_pkcs8_der(private_der) {
        Ok(key) => key,
        Err(e) => return Err(e.to_string()),
    };
    match rsa::pkcs1v15::SigningKey::<sha2::Sha256>::new(key).try_sign(message) {
        Ok(signature) => Ok(signature.to_vec()),
        Err(e) => Err(e.to_string()),
    }
}

/// `rsa::pkcs1v15::VerifyingKey::<Sha256>::verify`. Returns the named
/// verdict; an error exactly where the key does not parse as a public key,
/// since every byte sequence is taken as a signature to be checked.
#[verifier::external_body]
pub(crate) fn rsa_verify(public_der: &[u8], message: &[u8], signature: &[u8]) -> (r: Result<
    bool,
    String,
>)
    ensures
        r is Ok <==> rsa_parses_public(public_der@),
        match r {
            Ok(valid) => rsa_verified(public_der@, message@, signature@) == Some(valid),
            Err(_) => rsa_verified(public_der@, message@, signature@) is None,
        },
{
    let key = match rsa::RsaPublicKey::from_public_key_der(public_der) {
        Ok(key) => key,
        Err(e) => return Err(e.to_string()),
    };
    let verifier = rsa::pkcs1v15::VerifyingKey::<sha2::Sha256>::new(key);
    match rsa::pkcs1v15::Signature::try_from(signature) {
        Ok(parsed) => Ok(verifier.verify(message, &parsed).is_ok()),
        Err(e) => Err(e.to_string()),
    }
}

/// `Sha256::digest`, printed in lower-case hexadecimal: the named digest,
/// two digits for each of its 32 bytes.
#[verifier::external_body]
pub(crate) fn sha256_hex_digest(data: &[u8]) -> (hex: String)
    ensures
        hex@ == sha256_hex(data@),
        hex@.len() == SHA256_HEX_LEN,
{
    format!("{:x}", sha2::Sha256::digest(data))
}

} // verus!
