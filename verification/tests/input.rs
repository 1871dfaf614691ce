use terminal_hell::input::{is_active_after, Input, KeyCode, HELD_DECAY_NANOS};
use terminal_hell::mouse::Mouse;
use terminal_hell::net::{default_port, world_size, DEFAULT_PORT, PROTOCOL_ID};

#[test]
fn held_keys_drive_their_slots() {
    let mut i = Input::new();
    assert!(!i.up() && !i.down() && !i.left() && !i.right());
    i.key_event(KeyCode::Char('w'), true);
    i.key_event(KeyCode::Left, true);
    assert!(i.up() && i.left() && !i.down() && !i.right());
    i.key_event(KeyCode::Char('W'), false);
    assert!(!i.up() && i.left());
    i.key_event(KeyCode::Other, true);
    i.key_event(KeyCode::Char('x'), true);
    assert!(!i.down() && !i.right());
}

#[test]
fn press_without_release_decays() {
    assert!(is_active_after(true, None));
    assert!(!is_active_after(false, None));
    assert!(is_active_after(false, Some(HELD_DECAY_NANOS - 1)));
    assert!(!is_active_after(false, Some(HELD_DECAY_NANOS)));
}

#[test]
fn defaults_and_constants() {
    let m = Mouse::default();
    assert_eq!((m.col, m.row, m.lmb), (0, 0, false));
    assert_eq!(default_port(), DEFAULT_PORT);
    assert_eq!(DEFAULT_PORT, 4646);
    assert_eq!(world_size(), (1600, 800));
    assert_eq!(&PROTOCOL_ID.to_be_bytes(), b"TERMHELL");
}
