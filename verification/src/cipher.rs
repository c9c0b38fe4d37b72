//! AES-256-GCM as the `aes-gcm` crate provides it: the trusted boundary of
//! the chunk codec.
//!
//! Nothing in this module is proved. Each item says what it takes on trust
//! from the outside crate.

use aes_gcm::aead::Aead;
use aes_gcm::KeyInit;
use vstd::prelude::*;

verus! {

/// Length in bytes of an AES-256 key.
pub const KEY_LEN: usize = 32;

/// Length in bytes of an AES-GCM nonce.
pub const NONCE_LEN: usize = 12;

/// Length in bytes of the authentication tag that ends every sealed message.
pub const TAG_LEN: usize = 16;

/// The longest plaintext, in bytes, that the cipher agrees to seal: 2^36.
pub const MAX_PLAINTEXT_LEN: u64 = 68_719_476_736;

/// The error of `KeyInit::new_from_slice`, carried through unread.
#[verifier::external_type_specification]
#[verifier::external_body]
pub struct ExInvalidLength(aes_gcm::aes::cipher::InvalidLength);

/// The error of `Aead::encrypt` and `Aead::decrypt`, carried through unread.
#[verifier::external_type_specification]
#[verifier::external_body]
pub struct ExAeadError(aes_gcm::Error);

/// The bytes that `Aes256Gcm` returns when it encrypts `plaintext` under
/// `key` and `nonce` with no associated data: ciphertext, then tag.
pub uninterp spec fn aes256_gcm_seal(key: Seq<u8>, nonce: Seq<u8>, plaintext: Seq<u8>) -> Seq<u8>;

/// What `Aes256Gcm` returns when it decrypts `sealed` under `key` and
/// `nonce` with no associated data: the plaintext, or `None` where it
/// refuses.
pub uninterp spec fn aes256_gcm_open(key: Seq<u8>, nonce: Seq<u8>, sealed: Seq<u8>) -> Option<
    Seq<u8>,
>;

/// Trusted: builds the cipher with `Aes256Gcm::new_from_slice(key)` and calls
/// `Aead::encrypt` on it with `nonce` and `plaintext`.
///
/// Taken from the sources of `crypto-common`, `aead` and `aes-gcm`:
/// - the key is refused exactly when it is not `KEY_LEN` bytes long;
/// - with a key accepted, encryption is refused exactly when the plaintext is
///   longer than `MAX_PLAINTEXT_LEN` (`P_MAX` in `aes-gcm`);
/// - the bytes returned depend on key, nonce and plaintext alone, and are
///   `TAG_LEN` bytes longer than the plaintext.
///
/// `nonce` must be `NONCE_LEN` bytes long: `Nonce::from_slice` panics otherwise.
#[verifier::external_body]
pub(crate) fn aead_seal(key: &[u8], nonce: &[u8], plaintext: &[u8]) -> (r: Result<
    Result<Vec<u8>, aes_gcm::Error>,
    aes_gcm::aes::cipher::InvalidLength,
>)
    requires
        nonce@.len() == NONCE_LEN,
    ensures
        r is Ok <==> key@.len() == KEY_LEN,
        r matches Ok(sealed) ==> (sealed is Ok <==> plaintext@.len() <= MAX_PLAINTEXT_LEN),
        r matches Ok(Ok(bytes)) ==> bytes@ == aes256_gcm_seal(key@, nonce@, plaintext@)
            && bytes@.len() == plaintext@.len() + TAG_LEN,
{
    match aes_gcm::Aes256Gcm::new_from_slice(key) {
        Ok(cipher) => Ok(cipher.encrypt(aes_gcm::Nonce::from_slice(nonce), plaintext)),
        Err(e) => Err(e),
    }
}

/// Trusted: builds the cipher with `Aes256Gcm::new_from_slice(key)` and calls
/// `Aead::decrypt` on it with `nonce` and `sealed`.
///
/// Taken from the sources of `crypto-common`, `aead` and `aes-gcm`:
/// - the key is refused exactly when it is not `KEY_LEN` bytes long;
/// - with a key accepted, the outcome depends on key, nonce and sealed bytes
///   alone, and a plaintext returned is `TAG_LEN` bytes shorter than the
///   sealed bytes (so anything shorter than a tag is refused);
/// - decryption inverts encryption: sealed bytes that encryption under the
///   same key and nonce gives for some plaintext of at most
///   `MAX_PLAINTEXT_LEN` bytes are opened, and give that plaintext back;
/// - nothing else is opened: the tag is recomputed over the ciphertext and
///   compared, and the keystream is the one of encryption, so sealed bytes
///   that open to a plaintext of at most `MAX_PLAINTEXT_LEN` bytes are the
///   very bytes that encryption under the same key and nonce gives for it.
///
/// `nonce` must be `NONCE_LEN` bytes long: `Nonce::from_slice` panics otherwise.
#[verifier::external_body]
pub(crate) fn aead_open(key: &[u8], nonce: &[u8], sealed: &[u8]) -> (r: Result<
    Result<Vec<u8>, aes_gcm::Error>,
    aes_gcm::aes::cipher::InvalidLength,
>)
    requires
        nonce@.len() == NONCE_LEN,
    ensures
        r is Ok <==> key@.len() == KEY_LEN,
        r matches Ok(opened) ==> match opened {
            Ok(plain) => aes256_gcm_open(key@, nonce@, sealed@) == Some(plain@) && plain@.len()
                + TAG_LEN == sealed@.len(),
            Err(_) => aes256_gcm_open(key@, nonce@, sealed@) is None,
        },
        r matches Ok(opened) ==> forall|plaintext: Seq<u8>|
            plaintext.len() <= MAX_PLAINTEXT_LEN && #[trigger] aes256_gcm_seal(
                key@,
                nonce@,
                plaintext,
            ) == sealed@ ==> (opened matches Ok(plain) && plain@ == plaintext),
        r matches Ok(Ok(plain)) ==> (plain@.len() <= MAX_PLAINTEXT_LEN ==> sealed@
            == aes256_gcm_seal(key@, nonce@, plain@)),
{
    match aes_gcm::Aes256Gcm::new_from_slice(key) {
        Ok(cipher) => Ok(cipher.decrypt(aes_gcm::Nonce::from_slice(nonce), sealed)),
        Err(e) => Err(e),
    }
}

} // verus!
