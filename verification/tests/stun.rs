use terminal_hell::stun::{binding_request, is_cgnat, new_txn_id, parse_response, StunError};

fn txn() -> [u8; 12] {
    [1, 2, 3, 4, 5, 6, 7, 8, 9, 10, 11, 12]
}

fn header(len: u16) -> Vec<u8> {
    let mut v = vec![0x01, 0x01, (len >> 8) as u8, len as u8, 0x21, 0x12, 0xA4, 0x42];
    v.extend_from_slice(&txn());
    v
}

#[test]
fn request_is_twenty_byte_binding() {
    let r = binding_request(&txn());
    assert_eq!(r.len(), 20);
    assert_eq!(&r[0..8], &[0x00, 0x01, 0x00, 0x00, 0x21, 0x12, 0xA4, 0x42]);
    assert_eq!(&r[8..20], &txn());
}

#[test]
fn parses_xor_mapped_address() {
    let mut b = header(12);
    b.extend_from_slice(&[0x00, 0x20, 0x00, 0x08, 0x00, 0x01, 0x33, 0x34, 0xEA, 0x12, 0xD5, 0x45]);
    assert_eq!(parse_response(&b, b.len(), &txn()), Ok(([203, 0, 113, 7], 4646)));
}

#[test]
fn parses_plain_mapped_address_after_padding() {
    let mut b = header(20);
    b.extend_from_slice(&[0x80, 0x22, 0x00, 0x03, b'a', b'b', b'c', 0x00]);
    b.extend_from_slice(&[0x00, 0x01, 0x00, 0x08, 0x00, 0x01, 0x12, 0x26, 10, 0, 0, 9]);
    assert_eq!(parse_response(&b, b.len(), &txn()), Ok(([10, 0, 0, 9], 4646)));
}

#[test]
fn error_variants() {
    let b = header(0);
    assert_eq!(parse_response(&b, 10, &txn()), Err(StunError::TooShort(10)));
    let mut wrong = header(0);
    wrong[1] = 0x11;
    assert_eq!(parse_response(&wrong, 20, &txn()), Err(StunError::NotSuccess(0x0111)));
    let mut cookie = header(0);
    cookie[4] = 0;
    assert_eq!(parse_response(&cookie, 20, &txn()), Err(StunError::BadCookie));
    let mut other = header(0);
    other[19] = 99;
    assert_eq!(parse_response(&other, 20, &txn()), Err(StunError::TxnMismatch));
    let long = header(8);
    assert_eq!(parse_response(&long, 20, &txn()), Err(StunError::Overrun));
    assert_eq!(parse_response(&b, 20, &txn()), Err(StunError::NoAddress));
}

#[test]
fn cgnat_range() {
    assert!(is_cgnat([100, 64, 0, 1]));
    assert!(is_cgnat([100, 127, 255, 255]));
    assert!(!is_cgnat([100, 128, 0, 1]));
    assert!(!is_cgnat([100, 63, 0, 1]));
    assert!(!is_cgnat([10, 64, 0, 1]));
}

#[test]
fn txn_ids_are_fresh() {
    assert_ne!(new_txn_id().unwrap(), new_txn_id().unwrap());
}

#[test]
fn share_ip_falls_back_to_lan() {
    let lan = [192, 168, 0, 4];
    assert_eq!(terminal_hell::stun::share_ip(Some([203, 0, 113, 7]), lan), [203, 0, 113, 7]);
    assert_eq!(terminal_hell::stun::share_ip(Some([100, 70, 1, 1]), lan), lan);
    assert_eq!(terminal_hell::stun::share_ip(None, lan), lan);
}

#[test]
fn stun_error_messages() {
    assert_eq!(StunError::TooShort(7).message(), "STUN response too short (7 bytes)");
    assert_eq!(StunError::NotSuccess(0x0111).message(), "STUN response type 0x0111 != success");
    assert_eq!(StunError::NotSuccess(0xabcd).message(), "STUN response type 0xabcd != success");
    assert_eq!(StunError::NoAddress.message(), "STUN response had no XOR-MAPPED-ADDRESS attribute");
}
