use jukebox::obs::Status;
use jukebox::player::Command;
use jukebox::state::{KeyAction, State};
use jukebox::status::StatusBar as EarlyStatusBar;
use jukebox::text::push_decimal;
use jukebox::widgets::{Jukebox, StatusBar};

#[test]
fn keys_map_to_actions() {
    let mut s = State::new();
    assert_eq!(s.current_y(), 1);
    assert_eq!(s.handle_key('q'), KeyAction::Quit);
    assert_eq!(s.handle_key('-'), KeyAction::Send(Command::Volume(-5)));
    assert_eq!(s.handle_key('='), KeyAction::Send(Command::Volume(5)));
    assert_eq!(s.handle_key('>'), KeyAction::Send(Command::SongControl(1)));
    assert_eq!(s.handle_key('<'), KeyAction::Send(Command::SongControl(-1)));
    assert_eq!(s.handle_key(' '), KeyAction::Send(Command::TogglePause));
    assert_eq!(s.handle_key('h'), KeyAction::Nothing);
    assert_eq!(s.handle_key('l'), KeyAction::Nothing);
    assert_eq!(s.handle_key('x'), KeyAction::Nothing);
    assert_eq!(s.current_y(), 1);
}

#[test]
fn cursor_moves_down_and_up() {
    let mut s = State::new();
    assert_eq!(s.handle_key('j'), KeyAction::Nothing);
    assert_eq!(s.current_y(), 2);
    assert_eq!(s.handle_key('k'), KeyAction::Nothing);
    assert_eq!(s.current_y(), 1);
    s.handle_key('k');
    assert_eq!(s.current_y(), 0);
}

#[test]
fn status_bar_texts() {
    let mut bar = StatusBar::new();
    assert_eq!(bar.status(), Status::Offline);
    assert_eq!(bar.text(), "OFFLINE");
    bar.update(Some(Status::Login));
    assert_eq!(bar.text(), "LOGGING TO OBS...");
    bar.update(None);
    assert_eq!(bar.text(), "LOGGING TO OBS...");
    bar.update(Some(Status::Idle));
    assert_eq!(bar.text(), "IDLE");
    assert_eq!(bar.status(), Status::Idle);
}

#[test]
fn jukebox_keeps_last_line() {
    let mut j = Jukebox::new();
    assert_eq!(j.text(), "");
    j.update(Some("A - B  | 10%".to_string()));
    assert_eq!(j.text(), "A - B  | 10%");
    j.update(None);
    assert_eq!(j.text(), "A - B  | 10%");
    j.update(Some("C - D  | 15%".to_string()));
    assert_eq!(j.text(), "C - D  | 15%");
}

#[test]
fn early_status_bar_starts_empty() {
    let _bar = EarlyStatusBar::new();
}

#[test]
fn decimal_rendering() {
    for (n, text) in [(0u64, "0"), (7, "7"), (10, "10"), (255, "255"), (1000, "1000"), (u64::MAX, "18446744073709551615")] {
        let mut s = String::from("x");
        push_decimal(&mut s, n);
        assert_eq!(s, format!("x{}", text));
    }
}
