//! The cryptographic primitives of the channel, as other crates provide them.
//!
//! Keys and messages are plain bytes here. What a primitive computes has a
//! name; what is claimed of it stands at the function that calls it.

use aes_gcm::aead::{Aead, KeyInit, OsRng};
use aes_gcm::Aes256Gcm;
use rsa::pkcs1::{DecodeRsaPrivateKey, DecodeRsaPublicKey, EncodeRsaPrivateKey, EncodeRsaPublicKey};
use rsa::traits::PublicKeyParts;
use rsa::Pkcs1v15Encrypt;
use vstd::prelude::*;

verus! {

/// The error of `aes_gcm`.
#[verifier::external_type_specification]
#[verifier::external_body]
pub struct ExAesError(aes_gcm::Error);

/// The error of `rsa`.
#[verifier::external_type_specification]
#[verifier::external_body]
pub struct ExRsaError(rsa::Error);

/// The error of the key encodings that `rsa` uses.
#[verifier::external_type_specification]
#[verifier::external_body]
pub struct ExPkcs1Error(rsa::pkcs1::Error);

/// The longest message that AES-256-GCM encrypts, in bytes.
pub open spec fn aes_message_limit() -> nat {
    0x10_0000_0000
}

/// What `Aes256Gcm::encrypt` returns for a key, a nonce and a message that is
/// not too long.
pub uninterp spec fn aes_sealed(key: Seq<u8>, nonce: Seq<u8>, message: Seq<u8>) -> Seq<u8>;

/// What `Aes256Gcm::decrypt` returns for a key, a nonce and a ciphertext;
/// nothing if it refuses the ciphertext.
pub uninterp spec fn aes_opened(key: Seq<u8>, nonce: Seq<u8>, sealed: Seq<u8>) -> Option<Seq<u8>>;

/// Whether `private` is the PKCS#1 form of a key pair that
/// `RsaPrivateKey::new` makes for a number of bits.
pub uninterp spec fn rsa_generated(private: Seq<u8>, bits: nat) -> bool;

/// Whether a key pair can be made for a number of bits and its public half can
/// be read again: it consists of whole bytes and has neither too few nor too
/// many of them.
pub open spec fn rsa_is_key_length(bits: nat) -> bool {
    512 <= bits <= 4096 && bits % 8 == 0
}

/// The PKCS#1 form of the public key of a private key, as
/// `RsaPublicKey::to_pkcs1_der` writes it.
pub uninterp spec fn rsa_public(private: Seq<u8>) -> Option<Seq<u8>>;

/// The length in bytes of the modulus of the public key that
/// `RsaPublicKey::from_pkcs1_der` reads; nothing if it refuses the bytes.
pub uninterp spec fn rsa_public_size(public: Seq<u8>) -> Option<nat>;

/// Whether `RsaPublicKey::encrypt`, with the padding of PKCS#1 v1.5, may
/// return `sealed` for this public key and message.
pub uninterp spec fn rsa_seals(public: Seq<u8>, message: Seq<u8>, sealed: Seq<u8>) -> bool;

/// What `RsaPrivateKey::decrypt`, with the padding of PKCS#1 v1.5, returns for
/// a private key and a ciphertext; nothing if it refuses the ciphertext.
pub uninterp spec fn rsa_opened(private: Seq<u8>, sealed: Seq<u8>) -> Option<Seq<u8>>;

/// Calls `Aes256Gcm::generate_key`. The key is random: nothing is known of its
/// bytes.
#[verifier::external_body]
pub(crate) fn aes_generate_key() -> (key: [u8; 32]) {
    Aes256Gcm::generate_key(OsRng).into()
}

/// Calls `Aes256Gcm::encrypt`, without associated data. It succeeds on every
/// message within the limit and on no other; the ciphertext is a function of
/// the arguments, is 16 bytes longer than the message, and decrypts to it.
#[verifier::external_body]
pub(crate) fn aes_encrypt(key: &[u8; 32], nonce: &[u8; 12], message: &[u8]) -> (sealed: Result<
    Vec<u8>,
    aes_gcm::Error,
>)
    ensures
        sealed is Ok <==> message@.len() <= aes_message_limit(),
        sealed matches Ok(bytes) ==> {
            &&& bytes@ == aes_sealed(key@, nonce@, message@)
            &&& bytes@.len() == message@.len() + 16
            &&& aes_opened(key@, nonce@, bytes@) == Some(message@)
        },
{
    Aes256Gcm::new(key.into()).encrypt(nonce.into(), message)
}

/// Calls `Aes256Gcm::decrypt`, without associated data. What it returns, and
/// whether it refuses, is a function of the arguments.
#[verifier::external_body]
pub(crate) fn aes_decrypt(key: &[u8; 32], nonce: &[u8; 12], sealed: &[u8]) -> (message: Result<
    Vec<u8>,
    aes_gcm::Error,
>)
    ensures
        match message {
            Ok(bytes) => aes_opened(key@, nonce@, sealed@) == Some(bytes@),
            Err(_) => aes_opened(key@, nonce@, sealed@) is None,
        },
{
    Aes256Gcm::new(key.into()).decrypt(nonce.into(), sealed)
}

/// Calls `RsaPrivateKey::new` and writes the key in PKCS#1 form. It succeeds:
/// candidates are drawn until they make a key of the wanted length. The key is
/// random; it is one that this call makes.
#[verifier::external_body]
pub(crate) fn rsa_generate(bits: usize) -> (private: Result<Vec<u8>, rsa::Error>)
    requires
        rsa_is_key_length(bits as nat),
    ensures
        private is Ok,
        private matches Ok(bytes) ==> rsa_generated(bytes@, bits as nat),
{
    let key = rsa::RsaPrivateKey::new(&mut rsa::rand_core::OsRng, bits)?;
    Ok(key.to_pkcs1_der()?.as_bytes().to_vec())
}

/// Takes the public half of a generated key and calls
/// `RsaPublicKey::to_pkcs1_der`. What it returns is a function of the key; it
/// succeeds, and the result is read back as a key with as many bits as the key
/// was made for.
#[verifier::external_body]
pub(crate) fn rsa_public_of(private: &[u8]) -> (public: Result<Vec<u8>, rsa::pkcs1::Error>)
    requires
        exists|bits: nat| rsa_is_key_length(bits) && rsa_generated(private@, bits),
    ensures
        match public {
            Ok(bytes) => (rsa_public(private@) == Some(bytes@) && forall|bits: nat|
                (rsa_is_key_length(bits) && #[trigger] rsa_generated(private@, bits))
                    ==> rsa_public_size(bytes@) == Some(bits / 8)),
            Err(_) => false,
        },
{
    let key = rsa::RsaPrivateKey::from_pkcs1_der(private)?;
    Ok(key.to_public_key().to_pkcs1_der()?.as_bytes().to_vec())
}

/// Calls `RsaPublicKey::from_pkcs1_der` and returns the length of the key's
/// modulus in bytes. Whether the bytes are a key, and its length, is a
/// function of the bytes.
#[verifier::external_body]
pub(crate) fn rsa_size_of_public(public: &[u8]) -> (size: Result<usize, rsa::pkcs1::Error>)
    ensures
        match size {
            Ok(size) => rsa_public_size(public@) == Some(size as nat),
            Err(_) => rsa_public_size(public@) is None,
        },
{
    Ok(rsa::RsaPublicKey::from_pkcs1_der(public)?.size())
}

/// Calls `RsaPublicKey::encrypt` with the padding of PKCS#1 v1.5, which is
/// random. It succeeds exactly if the bytes are a public key whose modulus is
/// at least 11 bytes longer than the message.
#[verifier::external_body]
pub(crate) fn rsa_encrypt(public: &[u8], message: &[u8]) -> (sealed: Result<Vec<u8>, rsa::Error>)
    ensures
        sealed is Ok <==> (rsa_public_size(public@) is Some && message@.len() + 11
            <= rsa_public_size(public@)->Some_0),
        sealed matches Ok(bytes) ==> rsa_seals(public@, message@, bytes@),
        sealed matches Ok(bytes) ==> bytes@.len() == rsa_public_size(public@)->Some_0,
{
    let key = rsa::RsaPublicKey::from_pkcs1_der(public)?;
    key.encrypt(&mut rsa::rand_core::OsRng, Pkcs1v15Encrypt, message)
}

/// Calls `RsaPrivateKey::decrypt` with the padding of PKCS#1 v1.5 on a
/// generated key. What it returns, and whether it refuses, is a function of
/// the arguments; what was encrypted with the public half of the key is given
/// back, as the factors of a generated key are primes (its generation tests
/// them, with a vanishing chance of error).
#[verifier::external_body]
pub(crate) fn rsa_decrypt(private: &[u8], sealed: &[u8]) -> (message: Result<Vec<u8>, rsa::Error>)
    requires
        exists|bits: nat| rsa_is_key_length(bits) && rsa_generated(private@, bits),
    ensures
        match message {
            Ok(bytes) => rsa_opened(private@, sealed@) == Some(bytes@),
            Err(_) => rsa_opened(private@, sealed@) is None,
        },
        forall|original: Seq<u8>|
            (rsa_public(private@) is Some && #[trigger] rsa_seals(
                rsa_public(private@)->Some_0,
                original,
                sealed@,
            )) ==> (message is Ok && message->Ok_0@ == original),
{
    let key = rsa::RsaPrivateKey::from_pkcs1_der(private)?;
    key.decrypt(Pkcs1v15Encrypt, sealed)
}

} // verus!
