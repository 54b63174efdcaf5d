use fwcodec::xorstream::decrypt_lib;

#[test]
fn decode_example() {
    // Counters used are 3, 6, 9, 12.
    let mut buf = vec![3u8, 3, 3, 3];
    decrypt_lib(&mut buf);
    assert_eq!(buf, vec![0u8, 5, 10, 15]);
}

#[test]
fn decode_empty() {
    let mut buf: Vec<u8> = vec![];
    decrypt_lib(&mut buf);
    assert!(buf.is_empty());
}

#[test]
fn decode_single_byte() {
    let mut buf = vec![0xABu8];
    decrypt_lib(&mut buf);
    assert_eq!(buf, vec![0xABu8 ^ 3]);
}

#[test]
fn decode_is_involution() {
    let original: Vec<u8> = (0..300).map(|i| (i * 7 + 13) as u8).collect();
    let mut buf = original.clone();
    decrypt_lib(&mut buf);
    assert_ne!(buf, original);
    decrypt_lib(&mut buf);
    assert_eq!(buf, original);
}

#[test]
fn counter_resets_before_reaching_255() {
    // At index 83 the counter is 3 + 3 * 83 = 252; 252 + 3 would reach 255,
    // so index 84 is masked with 3 again.
    let mut buf = vec![0u8; 85];
    decrypt_lib(&mut buf);
    assert_eq!(buf[0], 3);
    assert_eq!(buf[83], 252);
    assert_eq!(buf[84], 3);
}
