use device_identity::mac::{format_mac, is_all_zero};

#[test]
fn formats_lowercase_pairs_joined_by_colons() {
    assert_eq!(format_mac(&[0xAA, 0xBB, 0xCC, 0xDD, 0xEE, 0xFF]), "aa:bb:cc:dd:ee:ff");
}

#[test]
fn formats_bytes_in_their_order() {
    assert_eq!(format_mac(&[0x11, 0x22, 0x33, 0x44, 0x55, 0x66]), "11:22:33:44:55:66");
    assert_eq!(format_mac(&[0x01, 0x23, 0x45, 0x67, 0x89, 0xAB]), "01:23:45:67:89:ab");
}

#[test]
fn formats_small_bytes_with_a_leading_zero() {
    assert_eq!(format_mac(&[0x00, 0x01, 0x0A, 0x0F, 0x10, 0x09]), "00:01:0a:0f:10:09");
}

#[test]
fn formats_the_all_zero_address() {
    assert_eq!(format_mac(&[0; 6]), "00:00:00:00:00:00");
}

#[test]
fn formats_every_byte_value_as_std_does() {
    for byte in 0..=255u8 {
        let text = format_mac(&[byte, 0, byte, 0xFF, byte, 0x5A]);
        let want = format!("{:02x}:00:{:02x}:ff:{:02x}:5a", byte, byte, byte);
        assert_eq!(text, want);
    }
}

#[test]
fn text_has_seventeen_characters() {
    assert_eq!(format_mac(&[0xDE, 0xAD, 0xBE, 0xEF, 0x00, 0x01]).len(), 17);
}

#[test]
fn different_addresses_have_different_texts() {
    let first = format_mac(&[1, 2, 3, 4, 5, 6]);
    let second = format_mac(&[6, 5, 4, 3, 2, 1]);
    assert_ne!(first, second);
    assert_eq!(first, "01:02:03:04:05:06");
    assert_eq!(second, "06:05:04:03:02:01");
}

#[test]
fn all_zero_is_recognised() {
    assert!(is_all_zero(&[0, 0, 0, 0, 0, 0]));
}

#[test]
fn one_set_byte_is_not_all_zero() {
    for at in 0..6 {
        let mut address = [0u8; 6];
        address[at] = 1;
        assert!(!is_all_zero(&address));
    }
    assert!(!is_all_zero(&[0xFF; 6]));
}
