use terminal_hell::gamepad_linux_ff::{eviocrmff, eviocsff, FfEffect};

#[test]
fn ff_effect_size_matches_linux_uapi() {
    // On x86_64 Linux, sizeof(struct ff_effect) = 48.
    assert_eq!(std::mem::size_of::<FfEffect>(), 48);
}

#[test]
fn ioctl_numbers_match_linux_uapi() {
    //   EVIOCSFF  = (1<<30) | (48<<16) | (0x45<<8) | 0x80 = 0x4030_4580
    //   EVIOCRMFF = _IOC(IOC_WRITE, 'E', 0x81, 4)         = 0x4004_4581
    assert_eq!(eviocsff(), 0x4030_4580);
    assert_eq!(eviocrmff(), 0x4004_4581);
}

use terminal_hell::gamepad_linux_ff::{
    assigned_id, candidate_order, device_hint, eviocgbit_ff, eviocgname, ff_event_bytes,
    has_rumble_bit, name_from_reply, EffectSchedule, MAX_EFFECT_SLOTS,
};

#[test]
fn rumble_effect_layout() {
    let e = FfEffect::rumble(0x1234, 0xABCD, 340);
    let b = e.to_bytes();
    assert_eq!(b.len(), 48);
    assert_eq!(&b[0..16], &[0x50, 0, 0xff, 0xff, 0, 0, 0, 0, 0, 0, 0x54, 0x01, 0, 0, 0, 0]);
    assert_eq!(&b[16..20], &[0x34, 0x12, 0xCD, 0xAB]);
    assert!(b[20..].iter().all(|&x| x == 0));
}

#[test]
fn read_ioctl_numbers() {
    assert_eq!(eviocgname(256), 0x8100_4506);
    assert_eq!(eviocgbit_ff(16), 0x8010_4535);
}

#[test]
fn kernel_id_and_events() {
    assert_eq!(assigned_id(&[0x50, 0, 0x07, 0x00]), 7);
    assert_eq!(assigned_id(&[0, 0, 0xff, 0xff]), -1);
    let ev = ff_event_bytes(7, 1);
    assert_eq!(ev.len(), 24);
    assert!(ev[0..16].iter().all(|&x| x == 0));
    assert_eq!(&ev[16..24], &[0x15, 0, 7, 0, 1, 0, 0, 0]);
}

#[test]
fn rumble_bit_in_bitmap() {
    let mut bits = [0u8; 16];
    assert!(!has_rumble_bit(&bits));
    bits[10] = 1;
    assert!(has_rumble_bit(&bits));
}

#[test]
fn device_names() {
    assert_eq!(name_from_reply(b"Xbox Wireless\0junk", 18), Some("Xbox Wireless".to_string()));
    assert_eq!(name_from_reply(b"Pad", 2), Some("Pa".to_string()));
    assert_eq!(name_from_reply(&[0xff, 0xfe, 0], 3), None);
    assert_eq!(device_hint("", "Wireless Controller"), "Wireless Controller");
    assert_eq!(device_hint("event-pad", "Wireless Controller"), "event-pad");
}

#[test]
fn candidates_prefer_hint_match() {
    let names = vec!["Keyboard".to_string(), "XBOX Wireless Controller".to_string()];
    assert_eq!(candidate_order(&names, "xbox wireless"), vec![1, 0]);
    assert_eq!(candidate_order(&names, "nothing"), vec![0]);
    assert_eq!(candidate_order(&names, ""), vec![0]);
    assert_eq!(candidate_order(&Vec::new(), "x"), Vec::<usize>::new());
}

#[test]
fn schedule_stops_due_effects_in_order() {
    let mut s = EffectSchedule::new();
    s.push(1, 100);
    s.push(2, 300);
    s.push(3, 200);
    assert_eq!(s.take_due(250), vec![1, 3]);
    assert_eq!(s.len(), 1);
    assert_eq!(s.take_due(250), Vec::<i16>::new());
    assert_eq!(s.drain_all(), vec![2]);
    assert_eq!(s.len(), 0);
}

#[test]
fn schedule_makes_room_at_limit() {
    let mut s = EffectSchedule::new();
    for i in 0..MAX_EFFECT_SLOTS as i16 {
        assert_eq!(s.make_room(), None);
        s.push(i, 1000);
    }
    assert_eq!(s.make_room(), Some(0));
    assert_eq!(s.len(), MAX_EFFECT_SLOTS - 1);
}
