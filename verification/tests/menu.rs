use terminal_hell::menu::{Menu, MenuAction, MenuItem, FEEDBACK_MS};

#[test]
fn toggle_opens_at_top_and_clears_feedback() {
    let mut m = Menu::default();
    m.selected = 3;
    m.set_feedback("x", 100);
    m.toggle();
    assert!(m.open);
    assert_eq!(m.selected, 0);
    assert_eq!(m.feedback, "");
    assert_eq!(m.feedback_ttl_ms, 0);
}

#[test]
fn items_depend_on_authority() {
    let m = Menu::default();
    assert_eq!(
        m.items(true),
        vec![MenuItem::Resume, MenuItem::TogglePause, MenuItem::CopyConnect, MenuItem::CopyInstall, MenuItem::Quit]
    );
    assert_eq!(m.items(false), vec![MenuItem::Resume, MenuItem::CopyConnect, MenuItem::CopyInstall, MenuItem::Quit]);
    assert_eq!(MenuItem::TogglePause.label(true), "Unpause run");
    assert_eq!(MenuItem::TogglePause.label(false), "Pause run");
}

#[test]
fn cursor_stays_in_range() {
    let mut m = Menu::default();
    m.move_up();
    assert_eq!(m.selected, 0);
    for _ in 0..10 {
        m.move_down(4);
    }
    assert_eq!(m.selected, 3);
}

#[test]
fn activate_actions() {
    let mut m = Menu::default();
    m.toggle();
    assert!(matches!(m.activate(true, None, None), MenuAction::Close));
    assert!(!m.open);
    m.selected = 1;
    assert!(matches!(m.activate(true, None, None), MenuAction::TogglePause));
    m.selected = 2;
    match m.activate(true, Some("terminal_hell connect TH01X"), None) {
        MenuAction::Copy(s) => assert_eq!(s, "terminal_hell connect TH01X"),
        _ => panic!("expected a copy"),
    }
    assert!(matches!(m.activate(true, None, None), MenuAction::NoAction));
    assert_eq!(m.feedback, "no share code yet");
    assert_eq!(m.feedback_ttl_ms, FEEDBACK_MS);
    m.selected = 3;
    assert!(matches!(m.activate(true, None, None), MenuAction::NoAction));
    assert_eq!(m.feedback, "install server not ready yet");
    m.selected = 4;
    assert!(matches!(m.activate(true, None, None), MenuAction::Quit));
    m.selected = 9;
    assert!(matches!(m.activate(true, None, None), MenuAction::NoAction));
}

#[test]
fn feedback_fades() {
    let mut m = Menu::default();
    m.set_feedback("copied", 2000);
    m.tick(1500);
    assert_eq!(m.feedback, "copied");
    assert_eq!(m.feedback_ttl_ms, 500);
    m.tick(500);
    assert_eq!(m.feedback, "");
    assert_eq!(m.feedback_ttl_ms, 0);
}

#[test]
fn menu_draws_when_open() {
    let mut m = Menu::default();
    assert!(m.render_cmds(80, 24, true, false).is_empty() || !m.open);
    m.toggle();
    assert!(!m.render_cmds(80, 24, true, false).is_empty());
}
