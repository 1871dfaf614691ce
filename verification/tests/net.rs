use terminal_hell::net::{
    connect_target, frame_sleep_nanos, session_user_data, token_accepted, ConnectTarget, ServeCadence,
    SIM_DT_NANOS,
};
use terminal_hell::share::{ShareCode, ShareError};

fn token() -> [u8; 16] {
    [9, 8, 7, 6, 5, 4, 3, 2, 1, 0, 1, 2, 3, 4, 5, 6]
}

#[test]
fn user_data_carries_token_then_zeros() {
    let d = session_user_data(&token());
    assert_eq!(&d[..16], &token());
    assert!(d[16..].iter().all(|&b| b == 0));
}

#[test]
fn host_admits_only_its_token() {
    let d = session_user_data(&token());
    assert!(token_accepted(Some(&d), &token()));
    let mut other = token();
    other[15] ^= 1;
    assert!(!token_accepted(Some(&session_user_data(&other)), &token()));
    assert!(!token_accepted(None, &token()));
}

#[test]
fn connect_argument_forms() {
    let code = ShareCode::new([203, 0, 113, 7], 4646, 4647, token());
    match connect_target(&code.encode()).unwrap() {
        ConnectTarget::Code { ip, port, user_data } => {
            assert_eq!(ip, [203, 0, 113, 7]);
            assert_eq!(port, 4646);
            assert_eq!(user_data, session_user_data(&token()));
        }
        ConnectTarget::Addr(_) => panic!("a share code names a host"),
    }
    match connect_target("192.168.1.9").unwrap() {
        ConnectTarget::Addr(a) => assert_eq!(a, "192.168.1.9:4646"),
        _ => panic!("raw address"),
    }
    match connect_target("192.168.1.9:5000").unwrap() {
        ConnectTarget::Addr(a) => assert_eq!(a, "192.168.1.9:5000"),
        _ => panic!("raw address"),
    }
    assert!(matches!(connect_target("TH01!!"), Err(ShareError::Base32)));
}

#[test]
fn serve_cadence_counts_ticks_and_snapshots() {
    let mut c = ServeCadence::new();
    assert_eq!(c.advance(16_667_000), (0, false));
    assert_eq!(c.advance(16_667_000), (1, false));
    assert_eq!(c.tick_accum, 2 * 16_667_000 - SIM_DT_NANOS);
    assert_eq!(c.advance(16_667_000), (0, true));
    assert_eq!(c.snapshot_accum, 0);
    assert_eq!(c.advance(100_000_000), (3, true));
    assert_eq!(frame_sleep_nanos(10_000_000), 6_667_000);
    assert_eq!(frame_sleep_nanos(20_000_000), 0);
}
