//! Trusted boundary to the AES-128-CBC primitive and to the system's random
//! source. Everything else in the crate is verified against the contracts
//! stated here.
use vstd::prelude::*;
use aes::cipher::block_padding::{Pkcs7, UnpadError};
use aes::cipher::{BlockDecryptMut, BlockEncryptMut, KeyIvInit};
use rand::RngCore;

verus! {

/// The ciphertext that AES-128-CBC with PKCS#7 padding produces from the
/// given key, initialization vector and plaintext.
pub uninterp spec fn aes_cbc_enc(key: Seq<u8>, iv: Seq<u8>, plaintext: Seq<u8>) -> Seq<u8>;

/// What AES-128-CBC decryption followed by PKCS#7 unpadding yields for the
/// given key, initialization vector and ciphertext: the recovered plaintext,
/// or `None` when the padding check fails.
pub uninterp spec fn aes_cbc_dec(key: Seq<u8>, iv: Seq<u8>, ciphertext: Seq<u8>) -> Option<Seq<u8>>;

#[verifier::external_type_specification]
#[verifier::external_body]
pub struct ExUnpadError(UnpadError);

/// Relies on `cbc::Encryptor::<aes::Aes128>::encrypt_padded_vec_mut::<Pkcs7>`:
/// encryption always succeeds; PKCS#7 padding always appends between 1 and 16
/// bytes up to the next 16-byte boundary, so the ciphertext holds one block
/// more than the plaintext's whole blocks; and `decrypt_padded_vec_mut` with
/// the same key and IV inverts it, giving the plaintext back.
#[verifier::external_body]
pub(crate) fn cbc_encrypt(key: &[u8; 16], iv: &[u8; 16], plaintext: &[u8]) -> (r: Vec<u8>)
    ensures
        r@ == aes_cbc_enc(key@, iv@, plaintext@),
        r@.len() == 16 * ((plaintext@.len() / 16) + 1),
        aes_cbc_dec(key@, iv@, r@) == Some(plaintext@),
{
    cbc::Encryptor::<aes::Aes128>::new(key.into(), iv.into()).encrypt_padded_vec_mut::<Pkcs7>(
        plaintext,
    )
}

/// Relies on `cbc::Decryptor::<aes::Aes128>::decrypt_padded_vec_mut::<Pkcs7>`:
/// on a non-empty ciphertext made of whole 16-byte blocks it returns the
/// unpadded plaintext, or `UnpadError` when the final padding check fails
/// (a wrong key or corrupted data).
#[verifier::external_body]
pub(crate) fn cbc_decrypt(key: &[u8; 16], iv: &[u8; 16], ciphertext: &[u8]) -> (r: Result<
    Vec<u8>,
    UnpadError,
>)
    requires
        ciphertext@.len() > 0,
        ciphertext@.len() % 16 == 0,
    ensures
        (match r {
            Ok(p) => aes_cbc_dec(key@, iv@, ciphertext@) == Some(p@),
            Err(_) => aes_cbc_dec(key@, iv@, ciphertext@) is None,
        }),
{
    cbc::Decryptor::<aes::Aes128>::new(key.into(), iv.into()).decrypt_padded_vec_mut::<Pkcs7>(
        ciphertext,
    )
}

/// Relies on `rand::thread_rng().fill_bytes`: fills the array from the
/// process-wide cryptographically secure random source. Nothing can be
/// promised of the values themselves; every caller must hold for any outcome.
#[verifier::external_body]
pub(crate) fn generate_iv() -> (r: [u8; 16]) {
    let mut iv = [0u8; 16];
    rand::thread_rng().fill_bytes(&mut iv);
    iv
}

} // verus!
