use jukebox::player::{credits_line, Command, Player, SinkAction};

fn exts(list: &[&str]) -> Vec<String> {
    list.iter().map(|s| s.to_string()).collect()
}

fn sorted(mut v: Vec<usize>) -> Vec<usize> {
    v.sort();
    v
}

#[test]
fn playlist_holds_each_mp3_once() {
    let e = exts(&["mp3", "txt", "mp3", "MP3", "flac", "mp3", "", "mp3.bak"]);
    let p = Player::new(&e, 10);
    assert_eq!(sorted(p.playlist()), vec![0, 2, 5]);
    assert_eq!(p.playlist_len(), 3);
    assert_eq!(p.current(), 0);
    assert_eq!(p.volume(), 10);
    assert_eq!(p.credits(), "");
}

#[test]
fn playlist_of_directory_without_songs_is_empty() {
    let p = Player::new(&exts(&["txt", "jpg"]), 10);
    assert_eq!(p.playlist_len(), 0);
}

#[test]
fn playlist_is_shuffled() {
    let e: Vec<String> = (0..30).map(|_| "mp3".to_string()).collect();
    let p = Player::new(&e, 10);
    let list = p.playlist();
    assert_eq!(sorted(list.clone()), (0..30).collect::<Vec<usize>>());
    assert_ne!(list, (0..30).collect::<Vec<usize>>());
}

#[test]
fn songs_play_in_playlist_order_then_start_over() {
    let e = exts(&["mp3", "mp3", "mp3"]);
    let mut p = Player::new(&e, 10);
    let first = p.playlist();
    for i in 0..3 {
        assert_eq!(p.start_song(), first[i]);
        assert_eq!(p.current(), i);
        p.song_finished();
    }
    assert_eq!(p.current(), 3);
    let song = p.start_song();
    assert_eq!(p.current(), 0);
    assert_eq!(song, p.playlist()[0]);
    assert_eq!(sorted(p.playlist()), vec![0, 1, 2]);
}

#[test]
fn volume_steps_and_bounds() {
    let mut p = Player::new(&exts(&["mp3"]), 10);
    assert_eq!(p.set_volume(5), " | 15%");
    assert_eq!(p.volume(), 15);
    assert_eq!(p.set_volume(-5), " | 10%");
    p.set_volume(-5);
    p.set_volume(-5);
    assert_eq!(p.volume(), 0);
    assert_eq!(p.set_volume(-5), " | 0%");
    assert_eq!(p.volume(), 0);
    for _ in 0..25 {
        p.set_volume(5);
    }
    assert_eq!(p.volume(), 100);
    assert_eq!(p.display(), " | 100%");
    p.set_volume(-5);
    p.set_volume(5);
    assert_eq!(p.volume(), 100);
    p.set_volume(i32::MIN);
    assert_eq!(p.volume(), 0);
    p.set_volume(i32::MAX);
    assert_eq!(p.volume(), 100);
}

#[test]
fn credits_with_comments() {
    let mut p = Player::new(&exts(&["mp3"]), 10);
    let line = p.set_credits(
        Some("Song".to_string()),
        Some("Band".to_string()),
        &exts(&["live", "remastered"]),
    );
    assert_eq!(p.credits(), "Song - Band (live, remastered)");
    assert_eq!(line, "Song - Band (live, remastered) | 10%");
}

#[test]
fn credits_without_tags() {
    assert_eq!(credits_line(None, None, &Vec::new()), "unknown - unknown ");
    assert_eq!(credits_line(Some("T".to_string()), None, &exts(&["one"])), "T - unknown (one)");
    assert_eq!(credits_line(None, Some("A".to_string()), &exts(&["", ""])), "unknown - A (, )");
}

#[test]
fn volume_command() {
    let mut p = Player::new(&exts(&["mp3"]), 10);
    p.set_credits(Some("S".to_string()), Some("B".to_string()), &Vec::new());
    let out = Command::Volume(5).run(&mut p, false);
    assert!(!out.stop);
    assert_eq!(out.sink, SinkAction::SetVolume(15));
    assert_eq!(out.display, Some("S - B  | 15%".to_string()));
    assert_eq!(p.volume(), 15);
    let out = Command::Volume(-50).run(&mut p, true);
    assert_eq!(out.sink, SinkAction::SetVolume(0));
    assert_eq!(out.display, Some("S - B  | 0%".to_string()));
}

#[test]
fn song_control_commands() {
    let mut p = Player::new(&exts(&["mp3", "mp3", "mp3"]), 10);
    let out = Command::SongControl(1).run(&mut p, false);
    assert!(out.stop);
    assert_eq!(out.sink, SinkAction::Keep);
    assert_eq!(out.display, None);
    assert_eq!(p.current(), 1);
    let out = Command::SongControl(-1).run(&mut p, false);
    assert!(out.stop);
    assert_eq!(p.current(), 0);
    let out = Command::SongControl(0).run(&mut p, false);
    assert!(!out.stop);
    assert_eq!(p.current(), 0);
    Command::SongControl(5).run(&mut p, false);
    assert_eq!(p.current(), 5);
    p.start_song();
    assert_eq!(p.current(), 0);
}

#[test]
fn toggle_pause_command() {
    let mut p = Player::new(&exts(&["mp3"]), 10);
    let out = Command::TogglePause.run(&mut p, true);
    assert_eq!(out.sink, SinkAction::Play);
    assert!(!out.stop);
    let out = Command::TogglePause.run(&mut p, false);
    assert_eq!(out.sink, SinkAction::Pause);
    assert_eq!(p.volume(), 10);
    assert_eq!(p.current(), 0);
}
