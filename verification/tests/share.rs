use terminal_hell::share::{ShareCode, ShareError, MAGIC};

fn sample_token() -> [u8; 16] {
    [
        0x11, 0x22, 0x33, 0x44, 0x55, 0x66, 0x77, 0x88, 0x99, 0xaa, 0xbb, 0xcc, 0xdd, 0xee, 0xff,
        0x00,
    ]
}

#[test]
fn roundtrip() {
    let code = ShareCode::new([203, 0, 113, 7], 4646, 4647, sample_token());
    let s = code.encode();
    assert!(s.starts_with(MAGIC));
    let decoded = ShareCode::decode(&s).unwrap();
    assert_eq!(decoded, code);
}

#[test]
fn rejects_bad_magic() {
    assert!(ShareCode::decode("XX01ABCD").is_err());
}

#[test]
fn encode_matches_known_text() {
    let code = ShareCode::new([203, 0, 113, 7], 4646, 4647, sample_token());
    assert_eq!(code.encode(), "TH01AHFQA4IHCITBEJYREIZUIVLGO6EJTKV3ZTO657YA");
    assert_eq!(code.schema, 1);
}

#[test]
fn payload_is_schema_ip_ports_token() {
    let code = ShareCode::new([203, 0, 113, 7], 4646, 4647, sample_token());
    let b = code.payload_bytes();
    assert_eq!(b.len(), 25);
    assert_eq!(&b[0..9], &[1, 203, 0, 113, 7, 0x12, 0x26, 0x12, 0x27]);
    assert_eq!(&b[9..25], &sample_token());
}

#[test]
fn bad_magic_error_variant() {
    assert_eq!(ShareCode::decode("XX01ABCD"), Err(ShareError::BadMagic));
    assert_eq!(ShareCode::decode(""), Err(ShareError::BadMagic));
}

#[test]
fn bad_base32_error_variant() {
    assert_eq!(ShareCode::decode("TH01!!!!"), Err(ShareError::Base32));
}

#[test]
fn short_payload_error_variant() {
    let s = format!("TH01{}", "A".repeat(32));
    assert_eq!(ShareCode::decode(&s), Err(ShareError::PayloadLen(20)));
}

#[test]
fn unknown_schema_error_variant() {
    assert_eq!(
        ShareCode::decode("TH01ALFQA4IHCITBEJYREIZUIVLGO6EJTKV3ZTO657YA"),
        Err(ShareError::Schema(2))
    );
}

#[test]
fn connect_command_prefixes_code() {
    let code = ShareCode::new([203, 0, 113, 7], 4646, 4647, sample_token());
    assert_eq!(
        code.connect_command(),
        "terminal_hell connect TH01AHFQA4IHCITBEJYREIZUIVLGO6EJTKV3ZTO657YA"
    );
}

#[test]
fn fresh_tokens_differ() {
    let a = terminal_hell::share::new_token().unwrap();
    let b = terminal_hell::share::new_token().unwrap();
    assert_ne!(a, b);
}

#[test]
fn error_messages() {
    assert_eq!(ShareError::BadMagic.message(), "share code must start with `TH01`");
    assert_eq!(ShareError::Base32.message(), "share code base32 decode failed");
    assert_eq!(ShareError::PayloadLen(20).message(), "share code payload is 20 bytes, expected 25");
    assert_eq!(ShareError::Schema(2).message(), "unsupported share-code schema v2");
}

#[test]
fn code_is_prefix_and_forty_base32_chars() {
    let code = ShareCode::new([10, 1, 2, 3], 1, 65535, [0xff; 16]);
    let s = code.encode();
    assert_eq!(s.len(), 44);
    assert!(s[4..].chars().all(|c| c.is_ascii_uppercase() || ('2'..='7').contains(&c)));
    assert_eq!(ShareCode::decode(&s), Ok(code));
}

#[test]
fn payload_bytes_read_back() {
    let mut b = vec![1u8, 203, 0, 113, 7, 0x12, 0x26, 0x12, 0x27];
    b.extend_from_slice(&sample_token());
    assert_eq!(
        ShareCode::from_payload_bytes(&b),
        Ok(ShareCode::new([203, 0, 113, 7], 4646, 4647, sample_token()))
    );
    assert_eq!(ShareCode::from_payload_bytes(&b[..24]), Err(ShareError::PayloadLen(24)));
    b[0] = 2;
    assert_eq!(ShareCode::from_payload_bytes(&b), Err(ShareError::Schema(2)));
}
