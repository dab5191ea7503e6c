use dbus_handshake::uid::{decode_uid, encode_uid};

#[test]
fn encodes_each_decimal_digit_as_two_hex_digits() {
    assert_eq!(encode_uid(1000), b"31303030".to_vec());
    assert_eq!(encode_uid(0), b"30".to_vec());
    assert_eq!(encode_uid(7), b"37".to_vec());
    assert_eq!(encode_uid(1234567890), b"31323334353637383930".to_vec());
    assert_eq!(encode_uid(u32::MAX), b"34323934393637323935".to_vec());
}

#[test]
fn encoding_is_not_the_hex_of_the_number() {
    assert_ne!(encode_uid(255), b"ff".to_vec());
    assert_eq!(encode_uid(255), b"323535".to_vec());
}

#[test]
fn decodes_what_was_encoded() {
    for uid in [0u32, 1, 9, 10, 99, 100, 1000, 65534, 4294967294, u32::MAX] {
        assert_eq!(decode_uid(&encode_uid(uid)), Some(uid));
    }
}

#[test]
fn decodes_known_text() {
    assert_eq!(decode_uid(b"31303030"), Some(1000));
    assert_eq!(decode_uid(b"30"), Some(0));
    assert_eq!(decode_uid(b"34323934393637323935"), Some(4294967295));
}

#[test]
fn decoding_accepts_leading_zeros() {
    assert_eq!(decode_uid(b"303037"), Some(7));
    assert_eq!(decode_uid(b"3030303030303030303030303030303031"), Some(1));
}

#[test]
fn decoding_rejects_text_that_is_no_uid() {
    assert_eq!(decode_uid(b""), None);
    assert_eq!(decode_uid(b"3"), None);
    assert_eq!(decode_uid(b"313"), None);
    assert_eq!(decode_uid(b"1000"), None);
    assert_eq!(decode_uid(b"3a"), None);
    assert_eq!(decode_uid(b"3A"), None);
    assert_eq!(decode_uid(b"zz"), None);
    assert_eq!(decode_uid(b"31zz"), None);
    assert_eq!(decode_uid(b"2d31"), None);
    assert_eq!(decode_uid(b"2b31"), None);
    assert_eq!(decode_uid(b"3120"), None);
}

#[test]
fn decoding_rejects_numbers_that_do_not_fit() {
    // 4294967296
    assert_eq!(decode_uid(b"34323934393637323936"), None);
    // 99999999999
    assert_eq!(decode_uid(b"3939393939393939393939"), None);
    // a number that does not fit followed by text that is no digit
    assert_eq!(decode_uid(b"3939393939393939393939zz"), None);
}
