//! The firmware container format: a fresh 16-byte initialization vector
//! followed by the AES-128-CBC ciphertext of the firmware image.
use vstd::prelude::*;
use crate::cipher::{aes_cbc_dec, cbc_decrypt, cbc_encrypt, generate_iv};

verus! {

/// Why a container failed to decrypt.
#[derive(Clone, Copy, Debug, PartialEq, Eq, Structural)]
pub enum DecryptionError {
    /// The container is shorter than the 16-byte initialization vector.
    TooShort,
    /// The ciphertext after the IV is empty or not a multiple of 16 bytes.
    InvalidLength,
    /// CBC decryption produced invalid padding: wrong key, or corrupted or
    /// tampered ciphertext.
    BadPaddingOrKey,
}

/// The container is a well-formed encryption of `plaintext` under `key`: a
/// 16-byte IV followed by ciphertext of the padded length that decrypts back
/// to `plaintext` under that IV.
pub open spec fn is_encryption_of(container: Seq<u8>, plaintext: Seq<u8>, key: Seq<u8>) -> bool {
    &&& container.len() == 16 + 16 * ((plaintext.len() / 16) + 1)
    &&& aes_cbc_dec(
        key,
        container.subrange(0, 16),
        container.subrange(16, container.len() as int),
    ) == Some(plaintext)
}

/// What decrypting a container yields, as a function of its bytes and the key.
pub open spec fn spec_decrypt(container: Seq<u8>, key: Seq<u8>) -> Result<
    Seq<u8>,
    DecryptionError,
> {
    if container.len() < 16 {
        Err(DecryptionError::TooShort)
    } else {
        let ct = container.subrange(16, container.len() as int);
        if ct.len() == 0 || ct.len() % 16 != 0 {
            Err(DecryptionError::InvalidLength)
        } else {
            match aes_cbc_dec(key, container.subrange(0, 16), ct) {
                Some(p) => Ok(p),
                None => Err(DecryptionError::BadPaddingOrKey),
            }
        }
    }
}

/// Encrypts a firmware image under `key`: draws a fresh random IV, CBC-encrypts
/// the image with PKCS#7 padding, and returns `IV || ciphertext`. Always
/// succeeds, and the container always decrypts back to `source`.
pub fn encrypt_firmware(source: &[u8], key: &[u8; 16]) -> (r: Vec<u8>)
    ensures
        r@.len() == 16 + 16 * ((source@.len() / 16) + 1),
        is_encryption_of(r@, source@, key@),
        spec_decrypt(r@, key@) == Ok::<Seq<u8>, DecryptionError>(source@),
{
    let iv = generate_iv();
    let ct = cbc_encrypt(key, &iv, source);
    let mut result: Vec<u8> = Vec::new();
    let mut i: usize = 0;
    while i < 16
        invariant
            i <= 16,
            result@ == iv@.subrange(0, i as int),
        decreases 16 - i,
    {
        result.push(iv[i]);
        proof {
            assert(result@ =~= iv@.subrange(0, i + 1));
        }
        i = i + 1;
    }
    proof {
        assert(result@ =~= iv@);
    }
    let mut j: usize = 0;
    while j < ct.len()
        invariant
            j <= ct@.len(),
            result@ == iv@ + ct@.subrange(0, j as int),
        decreases ct@.len() - j,
    {
        result.push(ct[j]);
        proof {
            assert(result@ =~= iv@ + ct@.subrange(0, j + 1));
        }
        j = j + 1;
    }
    proof {
        assert(result@ =~= iv@ + ct@);
        assert(result@.subrange(0, 16) =~= iv@);
        assert(result@.subrange(16, result@.len() as int) =~= ct@);
        lemma_round_trip(result@, source@, key@);
    }
    result
}

/// Decrypts a firmware container: checks that it holds a 16-byte IV and a
/// non-empty ciphertext of whole 16-byte blocks, then CBC-decrypts and strips
/// the padding. Each error names exactly why the container was rejected.
pub fn decrypt_firmware(source: &[u8], key: &[u8; 16]) -> (r: Result<Vec<u8>, DecryptionError>)
    ensures
        (match r {
            Ok(p) => spec_decrypt(source@, key@) == Ok::<Seq<u8>, DecryptionError>(p@),
            Err(e) => spec_decrypt(source@, key@) == Err::<Seq<u8>, DecryptionError>(e),
        }),
{
    if source.len() < 16 {
        return Err(DecryptionError::TooShort);
    }
    let iv_slice = &source[0..16];
    let encrypted = &source[16..source.len()];
    let ct_len = encrypted.len();
    if ct_len == 0 || ct_len % 16 != 0 {
        return Err(DecryptionError::InvalidLength);
    }
    let mut iv = [0u8; 16];
    let mut i: usize = 0;
    while i < 16
        invariant
            i <= 16,
            source@.len() >= 16,
            iv_slice@.len() == 16,
            iv_slice@ == source@.subrange(0, 16),
            iv@.len() == 16,
            iv@.subrange(0, i as int) == iv_slice@.subrange(0, i as int),
        decreases 16 - i,
    {
        iv[i] = iv_slice[i];
        proof {
            assert(iv@.subrange(0, i + 1) =~= iv@.subrange(0, i as int).push(iv_slice@[i as int]));
            assert(iv_slice@.subrange(0, i + 1) =~= iv_slice@.subrange(0, i as int).push(
                iv_slice@[i as int],
            ));
        }
        i = i + 1;
    }
    proof {
        assert(iv@ =~= iv@.subrange(0, 16));
        assert(iv_slice@ =~= iv_slice@.subrange(0, 16));
    }
    match cbc_decrypt(key, &iv, encrypted) {
        Ok(p) => Ok(p),
        Err(_) => Err(DecryptionError::BadPaddingOrKey),
    }
}

/// Round trip: any well-formed encryption of `plaintext` under `key` decrypts
/// back to exactly `plaintext`.
pub proof fn lemma_round_trip(container: Seq<u8>, plaintext: Seq<u8>, key: Seq<u8>)
    requires
        is_encryption_of(container, plaintext, key),
    ensures
        spec_decrypt(container, key) == Ok::<Seq<u8>, DecryptionError>(plaintext),
{
    let ct = container.subrange(16, container.len() as int);
    assert(container.len() >= 32);
    assert(ct.len() == 16 * ((plaintext.len() / 16) + 1));
    let k = (plaintext.len() / 16) + 1;
    assert(16 * k % 16 == 0) by (nonlinear_arith);
}

} // verus!
