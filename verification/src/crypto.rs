//! Digests, random tokens, sealed credentials and passwords.

use vstd::prelude::*;
use vstd::string::*;
use vstd::utf8::{
    decode_utf8, decode_utf8_encode_utf8, encode_utf8, encode_utf8_decode_utf8, encode_utf8_valid_utf8,
    valid_utf8,
};

use crate::error::{internal, ApiError, ErrorView};

verus! {

// ---------------------------------------------------------------- digests

/// The SHA-256 digest of a text's UTF-8 bytes, as lower-case hexadecimal digits.
pub uninterp spec fn sha256_hex(input: Seq<char>) -> Seq<char>;

/// Calls `sha2::Sha256::digest` and formats the digest; the digits depend on the text alone, and
/// there are 64 of them.
#[verifier::external_body]
fn hash_text(input: &str) -> (r: String)
    ensures
        r@ == sha256_hex(input@),
        r@.len() == 64,
{
    format!("{:x}", <sha2::Sha256 as sha2::Digest>::digest(input.as_bytes()))
}

/// The digest under which a token is stored.
pub fn digest(input: &str) -> (r: String)
    ensures
        r@ == sha256_hex(input@),
        r@.len() == 64,
{
    hash_text(input)
}

// ---------------------------------------------------------------- base64

/// The standard base64 form of bytes, with padding.
pub uninterp spec fn base64_text(bytes: Seq<u8>) -> Seq<char>;

/// The bytes that a text in standard base64 stands for; none where it is not base64.
pub uninterp spec fn decoded_base64(text: Seq<char>) -> Option<Seq<u8>>;

/// Calls `encode` of `base64::engine::general_purpose::STANDARD`: four characters for each three
/// bytes begun, which decode to the same bytes.
#[verifier::external_body]
fn encode_base64(bytes: &Vec<u8>) -> (r: String)
    requires
        bytes@.len() <= 0x1000_0000,
    ensures
        r@ == base64_text(bytes@),
        r@.len() == 4 * ((bytes@.len() + 2) / 3),
        decoded_base64(r@) == Some(bytes@),
{
    base64::Engine::encode(&base64::engine::general_purpose::STANDARD, bytes)
}

/// The view of optional bytes.
pub open spec fn opt_bytes(bytes: Option<Vec<u8>>) -> Option<Seq<u8>> {
    match bytes {
        Some(bytes) => Some(bytes@),
        None => None,
    }
}

/// Calls `decode` of `base64::engine::general_purpose::STANDARD`; the bytes, or the refusal, are
/// named.
#[verifier::external_body]
pub(crate) fn decode_base64(text: &str) -> (r: Option<Vec<u8>>)
    ensures
        opt_bytes(r) == decoded_base64(text@),
{
    base64::Engine::decode(&base64::engine::general_purpose::STANDARD, text.as_bytes()).ok()
}

// ---------------------------------------------------------------- randomness

/// Calls `fill_bytes` of the operating system's generator, `aes_gcm::aead::OsRng`. Nothing is said
/// of the bytes but how many there are. The call ends the program where the system has no
/// randomness to give.
#[verifier::external_body]
fn random_bytes(n: usize) -> (r: Vec<u8>)
    ensures
        r@.len() == n,
{
    let mut bytes = vec![0u8; n];
    aes_gcm::aead::rand_core::RngCore::fill_bytes(&mut aes_gcm::aead::OsRng, &mut bytes);
    bytes
}

/// The token that 32 bytes make.
pub fn token_from_bytes(bytes: &Vec<u8>) -> (r: String)
    requires
        bytes@.len() == 32,
    ensures
        r@ == base64_text(bytes@),
        r@.len() == 44,
{
    encode_base64(bytes)
}

/// A fresh token: 32 random bytes in base64.
pub fn random_token() -> (r: String)
    ensures
        r@.len() == 44,
        exists|bytes: Seq<u8>| bytes.len() == 32 && r@ == #[trigger] base64_text(bytes),
{
    let bytes = random_bytes(32);
    token_from_bytes(&bytes)
}

// ---------------------------------------------------------------- sealed credentials

/// What AES-256-GCM makes of bytes under a key and a nonce: the encrypted bytes and the tag.
pub uninterp spec fn sealed(key: Seq<u8>, nonce: Seq<u8>, plain: Seq<u8>) -> Option<Seq<u8>>;

/// What AES-256-GCM gives back under a key and a nonce; nothing where the tag does not fit.
pub uninterp spec fn opened(key: Seq<u8>, nonce: Seq<u8>, encrypted: Seq<u8>) -> Option<Seq<u8>>;

/// Whether `other` holds the same encrypted bytes as `sealed` and another tag behind them.
pub open spec fn differs_in_tag(sealed: Seq<u8>, other: Seq<u8>) -> bool {
    &&& sealed.len() == other.len()
    &&& sealed.len() >= 16
    &&& sealed.take(sealed.len() - 16) == other.take(sealed.len() - 16)
    &&& sealed != other
}

/// Calls `encrypt` of an `aes_gcm::Aes256Gcm` made by `new_from_slice`. It seals texts of up to
/// 2^36 bytes and no longer ones, adds a tag of 16 bytes, and what it sealed opens again under the
/// same key and nonce. The tag is computed from the key, the nonce and the encrypted bytes, and
/// `decrypt` computes it again and compares: under another tag the same bytes do not open.
#[verifier::external_body]
fn seal(key: &Vec<u8>, nonce: &Vec<u8>, plain: &str) -> (r: Option<Vec<u8>>)
    requires
        key@.len() == 32,
        nonce@.len() == 12,
    ensures
        opt_bytes(r) == sealed(key@, nonce@, encode_utf8(plain@)),
        r is Some <==> encode_utf8(plain@).len() <= 0x10_0000_0000,
        r matches Some(encrypted) ==> encrypted@.len() == encode_utf8(plain@).len() + 16,
        r matches Some(encrypted) ==> opened(key@, nonce@, encrypted@) == Some(
            encode_utf8(plain@),
        ),
        r matches Some(encrypted) ==> forall|other: Seq<u8>|
            #![trigger opened(key@, nonce@, other)]
            differs_in_tag(encrypted@, other) ==> opened(key@, nonce@, other) is None,
{
    let cipher = <aes_gcm::Aes256Gcm as aes_gcm::KeyInit>::new_from_slice(key).ok()?;
    let nonce = aes_gcm::Nonce::from_slice(nonce);
    aes_gcm::aead::Aead::encrypt(&cipher, nonce, plain.as_bytes()).ok()
}

/// Calls `decrypt` of an `aes_gcm::Aes256Gcm` made by `new_from_slice`; the bytes, or the refusal,
/// are named. What it opens is shorter by the 16 bytes of the tag, so that it refuses fewer than 16
/// bytes. That it refuses other encrypted bytes or another key rests on the cipher and is not
/// claimed.
#[verifier::external_body]
fn unseal(key: &Vec<u8>, nonce: &Vec<u8>, encrypted: &Vec<u8>) -> (r: Option<Vec<u8>>)
    requires
        key@.len() == 32,
        nonce@.len() == 12,
    ensures
        opt_bytes(r) == opened(key@, nonce@, encrypted@),
        r matches Some(plain) ==> plain@.len() + 16 == encrypted@.len(),
{
    let cipher = <aes_gcm::Aes256Gcm as aes_gcm::KeyInit>::new_from_slice(key).ok()?;
    let nonce = aes_gcm::Nonce::from_slice(nonce);
    aes_gcm::aead::Aead::decrypt(&cipher, nonce, encrypted.as_slice()).ok()
}

/// Calls `String::from_utf8`, which takes the bytes that are UTF-8 and no others.
#[verifier::external_body]
pub(crate) fn text_from_utf8(bytes: Vec<u8>) -> (r: Option<String>)
    ensures
        match r {
            Some(text) => valid_utf8(bytes@) && text@ == decode_utf8(bytes@),
            None => !valid_utf8(bytes@),
        },
{
    String::from_utf8(bytes).ok()
}

/// Seals a credential under a key and a nonce.
pub fn encrypt_with(key: &Vec<u8>, nonce: &Vec<u8>, plaintext: &str) -> (r: Result<
    Vec<u8>,
    ApiError,
>)
    requires
        nonce@.len() == 12,
    ensures
        match r {
            Ok(encrypted) => {
                &&& key@.len() == 32
                &&& encode_utf8(plaintext@).len() <= 0x10_0000_0000
                &&& sealed(key@, nonce@, encode_utf8(plaintext@)) == Some(encrypted@)
                &&& encrypted@.len() == encode_utf8(plaintext@).len() + 16
                &&& opened(key@, nonce@, encrypted@) == Some(encode_utf8(plaintext@))
                &&& forall|other: Seq<u8>|
                    #![trigger opened(key@, nonce@, other)]
                    differs_in_tag(encrypted@, other) ==> opened(key@, nonce@, other) is None
            },
            Err(error) => if key@.len() != 32 {
                error@ == internal("encryption setup failed"@)
            } else {
                &&& encode_utf8(plaintext@).len() > 0x10_0000_0000
                &&& error@ == internal("credential encryption failed"@)
            },
        },
{
    if key.len() != 32 {
        return Err(ApiError::internal("encryption setup failed"));
    }
    match seal(key, nonce, plaintext) {
        Some(encrypted) => Ok(encrypted),
        None => Err(ApiError::internal("credential encryption failed")),
    }
}

/// Seals a credential under a fresh nonce: the sealed bytes and the nonce.
pub fn encrypt(key: &Vec<u8>, plaintext: &str) -> (r: Result<(Vec<u8>, Vec<u8>), ApiError>)
    ensures
        match r {
            Ok((encrypted, nonce)) => {
                &&& key@.len() == 32
                &&& nonce@.len() == 12
                &&& encode_utf8(plaintext@).len() <= 0x10_0000_0000
                &&& sealed(key@, nonce@, encode_utf8(plaintext@)) == Some(encrypted@)
                &&& encrypted@.len() == encode_utf8(plaintext@).len() + 16
                &&& opened(key@, nonce@, encrypted@) == Some(encode_utf8(plaintext@))
                &&& forall|other: Seq<u8>|
                    #![trigger opened(key@, nonce@, other)]
                    differs_in_tag(encrypted@, other) ==> opened(key@, nonce@, other) is None
            },
            Err(error) => if key@.len() != 32 {
                error@ == internal("encryption setup failed"@)
            } else {
                &&& encode_utf8(plaintext@).len() > 0x10_0000_0000
                &&& error@ == internal("credential encryption failed"@)
            },
        },
{
    let nonce = random_bytes(12);
    match encrypt_with(key, &nonce, plaintext) {
        Ok(encrypted) => Ok((encrypted, nonce)),
        Err(error) => Err(error),
    }
}

/// What a stored credential reads as, given what it opened as.
pub open spec fn credential(opened: Option<Seq<u8>>) -> Result<Seq<char>, ErrorView> {
    match opened {
        Some(bytes) => if valid_utf8(bytes) {
            Ok(decode_utf8(bytes))
        } else {
            Err(internal("stored credential is invalid"@))
        },
        None => Err(internal("stored credential could not be decrypted"@)),
    }
}

/// The view of a credential, or of the error.
pub open spec fn credential_result(r: Result<String, ApiError>) -> Result<Seq<char>, ErrorView> {
    match r {
        Ok(text) => Ok(text@),
        Err(error) => Err(error@),
    }
}

/// Reads a stored credential, given what it opened as.
pub fn read_credential(opened: Option<Vec<u8>>) -> (r: Result<String, ApiError>)
    ensures
        credential_result(r) == credential(opt_bytes(opened)),
{
    match opened {
        Some(bytes) => match text_from_utf8(bytes) {
            Some(text) => Ok(text),
            None => Err(ApiError::internal("stored credential is invalid")),
        },
        None => Err(ApiError::internal("stored credential could not be decrypted")),
    }
}

/// Opens a stored credential.
pub fn decrypt(key: &Vec<u8>, encrypted: &Vec<u8>, nonce: &Vec<u8>) -> (r: Result<String, ApiError>)
    requires
        nonce@.len() == 12,
    ensures
        credential_result(r) == if key@.len() != 32 {
            Err(internal("encryption setup failed"@))
        } else {
            credential(opened(key@, nonce@, encrypted@))
        },
        r matches Ok(text) ==> encode_utf8(text@).len() + 16 == encrypted@.len(),
        r matches Err(error) ==> error@.code == "internal_error"@,
{
    if key.len() != 32 {
        return Err(ApiError::internal("encryption setup failed"));
    }
    let plain = unseal(key, nonce, encrypted);
    proof {
        if let Some(bytes) = opt_bytes(plain) {
            if valid_utf8(bytes) {
                decode_utf8_encode_utf8(bytes);
            }
        }
    }
    read_credential(plain)
}

/// A credential that was sealed reads back as it was, under the same key and nonce.
pub proof fn credentials_read_back(
    key: Seq<u8>,
    nonce: Seq<u8>,
    encrypted: Seq<u8>,
    plaintext: Seq<char>,
)
    requires
        opened(key, nonce, encrypted) == Some(encode_utf8(plaintext)),
    ensures
        credential(opened(key, nonce, encrypted)) == Ok::<_, ErrorView>(plaintext),
{
    encode_utf8_valid_utf8(plaintext);
    encode_utf8_decode_utf8(plaintext);
}

// ---------------------------------------------------------------- passwords

/// Whether Argon2 accepts a password for a stored hash; a text that is no hash accepts none.
pub uninterp spec fn password_matches(hash: Seq<char>, password: Seq<char>) -> bool;

/// Calls `hash_password` of `argon2::Argon2::default()` with a fresh salt. It takes passwords of up
/// to 2^32 - 1 bytes and no longer ones. The hash differs from call to call; it accepts the
/// password that it was made from.
#[verifier::external_body]
fn hash_secret(password: &str) -> (r: Option<String>)
    ensures
        r is Some <==> encode_utf8(password@).len() <= 0xffff_ffff,
        r matches Some(hash) ==> password_matches(hash@, password@),
{
    let salt = argon2::password_hash::SaltString::generate(
        &mut argon2::password_hash::rand_core::OsRng,
    );
    let hasher = argon2::Argon2::default();
    argon2::PasswordHasher::hash_password(&hasher, password.as_bytes(), &salt).ok().map(
        |hash| hash.to_string(),
    )
}

/// Calls `argon2::PasswordHash::new` on the stored hash and `verify_password` of
/// `argon2::Argon2::default()`; whether both succeed is named.
#[verifier::external_body]
fn verify_secret(password: &str, hash: &str) -> (r: bool)
    ensures
        r == password_matches(hash@, password@),
{
    let hasher = argon2::Argon2::default();
    argon2::PasswordHash::new(hash).is_ok_and(
        |parsed| argon2::PasswordVerifier::verify_password(&hasher, password.as_bytes(), &parsed).is_ok(),
    )
}

/// Protects a password for storage.
pub fn protect_password(password: &str) -> (r: Result<String, ApiError>)
    ensures
        match r {
            Ok(hash) => {
                &&& encode_utf8(password@).len() <= 0xffff_ffff
                &&& password_matches(hash@, password@)
            },
            Err(error) => {
                &&& encode_utf8(password@).len() > 0xffff_ffff
                &&& error@ == internal("could not protect password"@)
            },
        },
{
    match hash_secret(password) {
        Some(hash) => Ok(hash),
        None => Err(ApiError::internal("could not protect password")),
    }
}

/// Whether a password fits a stored hash.
pub fn check_password(password: &str, hash: &str) -> (r: bool)
    ensures
        r == password_matches(hash@, password@),
{
    verify_secret(password, hash)
}

/// A credential that does not open, or that opens to no text, is told of as such.
pub proof fn broken_credentials_are_told_of(bytes: Seq<u8>)
    ensures
        credential(None) == Err::<Seq<char>, _>(
            internal("stored credential could not be decrypted"@),
        ),
        !valid_utf8(bytes) ==> credential(Some(bytes)) == Err::<Seq<char>, _>(
            internal("stored credential is invalid"@),
        ),
        valid_utf8(bytes) ==> credential(Some(bytes)) == Ok::<_, ErrorView>(decode_utf8(bytes)),
{
}

} // verus!
