use fwcodec::codec::{decrypt_firmware, encrypt_firmware, DecryptionError};

const KEY: [u8; 16] = [
    0x46, 0x41, 0x38, 0x39, 0x34, 0x31, 0x32, 0x44, 0x38, 0x37, 0x42, 0x30, 0x45, 0x46, 0x44, 0x39,
];

const OTHER_KEY: [u8; 16] = [
    0x00, 0x11, 0x22, 0x33, 0x44, 0x55, 0x66, 0x77, 0x88, 0x99, 0xAA, 0xBB, 0xCC, 0xDD, 0xEE, 0xFF,
];

#[test]
fn round_trip_empty() {
    let plain: Vec<u8> = vec![];
    let container = encrypt_firmware(&plain, &KEY);
    assert_eq!(container.len(), 32);
    assert_eq!(decrypt_firmware(&container, &KEY), Ok(plain));
}

#[test]
fn round_trip_small() {
    let plain = b"hello firmware".to_vec();
    let container = encrypt_firmware(&plain, &KEY);
    assert_eq!(decrypt_firmware(&container, &KEY), Ok(plain));
}

#[test]
fn round_trip_block_aligned() {
    let plain: Vec<u8> = (0u8..64).collect();
    let container = encrypt_firmware(&plain, &KEY);
    assert_eq!(container.len(), 16 + 64 + 16);
    assert_eq!(decrypt_firmware(&container, &KEY), Ok(plain));
}

#[test]
fn size_law_examples() {
    for (plain_len, container_len) in
        [(0, 32), (1, 32), (15, 32), (16, 48), (17, 48), (31, 48), (32, 64), (100, 128)]
    {
        let plain = vec![0xA5u8; plain_len];
        let container = encrypt_firmware(&plain, &KEY);
        assert_eq!(container.len(), container_len);
        assert_eq!(container.len(), 16 + 16 * ((plain_len + 16) / 16));
    }
}

#[test]
fn encryption_is_randomized() {
    let plain = b"same plaintext, same key".to_vec();
    let first = encrypt_firmware(&plain, &KEY);
    let second = encrypt_firmware(&plain, &KEY);
    assert_ne!(first, second);
    assert_eq!(decrypt_firmware(&first, &KEY), Ok(plain.clone()));
    assert_eq!(decrypt_firmware(&second, &KEY), Ok(plain));
}

#[test]
fn tampered_final_block_never_returns_plaintext() {
    let plain = b"tamper detection sample payload".to_vec();
    let container = encrypt_firmware(&plain, &KEY);
    let last_block = container.len() - 16;
    for bit in 0..128 {
        let mut tampered = container.clone();
        tampered[last_block + bit / 8] ^= 1u8 << (bit % 8);
        assert_ne!(decrypt_firmware(&tampered, &KEY), Ok(plain.clone()));
    }
}

#[test]
fn too_short_container() {
    assert_eq!(decrypt_firmware(&[], &KEY), Err(DecryptionError::TooShort));
    assert_eq!(decrypt_firmware(&[0u8; 15], &KEY), Err(DecryptionError::TooShort));
}

#[test]
fn invalid_ciphertext_length() {
    // Exactly the IV and nothing after it: an empty ciphertext is invalid.
    assert_eq!(decrypt_firmware(&[0u8; 16], &KEY), Err(DecryptionError::InvalidLength));
    // Ciphertext part of 4 and of 17 bytes: not whole blocks.
    assert_eq!(decrypt_firmware(&[0u8; 20], &KEY), Err(DecryptionError::InvalidLength));
    assert_eq!(decrypt_firmware(&[0u8; 33], &KEY), Err(DecryptionError::InvalidLength));
}

#[test]
fn wrong_key_is_rejected() {
    let plain = b"firmware image bytes".to_vec();
    let mut bad_padding_seen = false;
    for trial in 0u8..10 {
        let mut key = OTHER_KEY;
        key[0] ^= trial;
        let container = encrypt_firmware(&plain, &KEY);
        let result = decrypt_firmware(&container, &key);
        assert_ne!(result, Ok(plain.clone()));
        if result == Err(DecryptionError::BadPaddingOrKey) {
            bad_padding_seen = true;
        }
    }
    assert!(bad_padding_seen);
}
