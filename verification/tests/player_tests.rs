use playrusty::player::{LoadOutcome, PlayOutcome, Player, RunOutcome, TrackStatus};
use playrusty::playlist::DirEntry;
use playrusty::PlayerError;

fn entry(path: &str, is_file: bool) -> DirEntry {
    DirEntry { path: String::from(path), is_file }
}

fn loaded_player(paths: &[&str]) -> Player {
    let mut p = Player::new();
    let listing: Vec<DirEntry> = paths.iter().map(|s| entry(s, true)).collect();
    p.load_playlist(Some(listing)).unwrap();
    p
}

#[test]
fn new_player_is_idle() {
    let p = Player::new();
    assert_eq!(p.tracks.len(), 0);
    assert_eq!(p.current, 0);
    assert!(!p.active);
    assert_eq!(p.queued, 0);
    assert!(!p.playing);
    assert_eq!(p.volume, 1000);
}

#[test]
fn set_volume_clamps_low() {
    let mut p = Player::new();
    let applied = p.set_volume(-250);
    assert_eq!(applied, 0);
    assert_eq!(p.volume, 0);
}

#[test]
fn set_volume_clamps_high() {
    let mut p = Player::new();
    let applied = p.set_volume(1500);
    assert_eq!(applied, 1000);
    assert_eq!(p.volume, 1000);
}

#[test]
fn set_volume_keeps_in_range() {
    let mut p = Player::new();
    let applied = p.set_volume(700);
    assert_eq!(applied, 700);
    assert_eq!(p.volume, 700);
}

#[test]
fn play_on_empty_queue_reports_nothing_loaded() {
    let mut p = Player::new();
    let before_playing = p.playing;
    let r = p.play();
    assert_eq!(r, PlayOutcome::NothingLoaded);
    assert_eq!(p.playing, before_playing);
    assert_eq!(p.queued, 0);
}

#[test]
fn load_file_failures_report_and_change_nothing() {
    let mut p = Player::new();
    assert_eq!(p.load_file(LoadOutcome::OpenFailed), Err(PlayerError::IoError));
    assert_eq!(p.queued, 0);
    assert_eq!(p.load_file(LoadOutcome::DecodeFailed), Err(PlayerError::DecodeError));
    assert_eq!(p.queued, 0);
}

#[test]
fn load_file_queues_without_playing() {
    let mut p = Player::new();
    assert_eq!(p.load_file(LoadOutcome::Decoded), Ok(()));
    assert_eq!(p.queued, 1);
    assert!(!p.playing);
}

#[test]
fn resume_after_pause_keeps_queue_at_one() {
    let mut p = Player::new();
    p.load_file(LoadOutcome::Decoded).unwrap();
    assert_eq!(p.play(), PlayOutcome::Started);
    assert!(p.playing);
    p.pause();
    assert!(!p.playing);
    assert_eq!(p.play(), PlayOutcome::Started);
    assert!(p.playing);
    assert_eq!(p.queued, 1);
}

#[test]
fn stop_clears_everything_from_any_state() {
    let mut p = loaded_player(&["x/a.mp3", "x/b.mp3"]);
    let ok = vec![true, true];
    assert_eq!(p.play_playlist(&ok), RunOutcome::Started);
    assert!(p.active);
    p.stop();
    assert!(!p.active);
    assert_eq!(p.queued, 0);
    assert!(!p.playing);
    assert_eq!(p.current, 0);
    // idempotent: a second stop changes nothing
    p.stop();
    assert!(!p.active);
    assert_eq!(p.queued, 0);
}

#[test]
fn missing_directory_keeps_prior_state() {
    let mut p = loaded_player(&["x/a.mp3", "x/b.mp3"]);
    let r = p.load_playlist(None);
    assert_eq!(r, Err(PlayerError::NotFoundError));
    assert_eq!(p.tracks.len(), 2);
    assert_eq!(p.tracks[0], "x/a.mp3");
    assert_eq!(p.tracks[1], "x/b.mp3");
}

#[test]
fn empty_playlist_run_is_a_warning_not_an_error() {
    let mut p = Player::new();
    p.load_playlist(Some(Vec::new())).unwrap();
    let before_active = p.active;
    let r = p.play_playlist(&Vec::new());
    assert_eq!(r, RunOutcome::EmptyPlaylist);
    assert_eq!(p.active, before_active);
    assert!(!p.playing);
}

#[test]
fn playlist_run_queues_every_success() {
    let mut p = loaded_player(&["m/c.mp3", "m/a.mp3", "m/b.mp3"]);
    let ok = vec![true, true, true];
    assert_eq!(p.play_playlist(&ok), RunOutcome::Started);
    assert!(p.active);
    assert!(p.playing);
    assert_eq!(p.current, 0);
    assert_eq!(p.baseline, 3);
    assert_eq!(p.queued, 3);
}

#[test]
fn failed_tracks_lower_the_baseline_only() {
    let mut p = loaded_player(&["m/a.mp3", "m/b.mp3", "m/c.mp3"]);
    let ok = vec![false, true, true];
    assert_eq!(p.play_playlist(&ok), RunOutcome::Started);
    assert!(p.active);
    assert_eq!(p.baseline, 2);
    assert_eq!(p.queued, 2);
    assert_eq!(p.tracks.len(), 3);
}

#[test]
fn drains_drive_cursor_through_each_index_once() {
    let mut p = loaded_player(&["d/t0.mp3", "d/t1.mp3", "d/t2.mp3"]);
    let ok = vec![true, true, true];
    p.play_playlist(&ok);
    let mut announced: Vec<usize> = Vec::new();

    let rep = p.check_playlist_progress(3);
    assert_eq!(rep.now_playing, None);
    assert!(!rep.completed);
    assert_eq!(p.current, 0);

    let rep = p.check_playlist_progress(2);
    assert_eq!(rep.now_playing, Some(1));
    announced.extend(rep.now_playing);
    assert!(!rep.completed);
    assert_eq!(p.current, 1);

    let rep = p.check_playlist_progress(1);
    assert_eq!(rep.now_playing, Some(2));
    announced.extend(rep.now_playing);
    assert!(!rep.completed);
    assert_eq!(p.current, 2);

    let rep = p.check_playlist_progress(0);
    assert_eq!(rep.now_playing, None);
    assert!(rep.completed);
    assert!(!p.active);
    assert_eq!(p.current, 0);

    assert_eq!(announced, vec![1, 2]);
}

#[test]
fn repeated_poll_reports_no_second_advance() {
    let mut p = loaded_player(&["d/t0.mp3", "d/t1.mp3", "d/t2.mp3"]);
    let ok = vec![true, true, true];
    p.play_playlist(&ok);
    let rep = p.check_playlist_progress(2);
    assert_eq!(rep.now_playing, Some(1));
    let rep = p.check_playlist_progress(2);
    assert_eq!(rep.now_playing, None);
    assert_eq!(p.current, 1);
}

#[test]
fn completion_is_reported_exactly_once() {
    let mut p = loaded_player(&["d/t0.mp3", "d/t1.mp3"]);
    let ok = vec![true, true];
    p.play_playlist(&ok);
    let rep = p.check_playlist_progress(0);
    assert!(rep.completed);
    assert!(!p.active);
    let rep = p.check_playlist_progress(0);
    assert!(!rep.completed);
    assert!(!p.active);
}

#[test]
fn poll_outside_a_run_only_tracks_the_queue() {
    let mut p = Player::new();
    p.load_file(LoadOutcome::Decoded).unwrap();
    let rep = p.check_playlist_progress(0);
    assert!(!rep.completed);
    assert_eq!(rep.now_playing, None);
    assert_eq!(p.queued, 0);
    assert!(p.is_empty());
}

#[test]
fn report_shows_completed_now_playing_and_pending() {
    let mut p = loaded_player(&["d/t0.mp3", "d/t1.mp3", "d/t2.mp3"]);
    let ok = vec![true, true, true];
    p.play_playlist(&ok);
    p.check_playlist_progress(2);
    let rep = p.playlist_report();
    assert_eq!(rep.len(), 3);
    assert_eq!(rep[0], (String::from("t0.mp3"), TrackStatus::Completed));
    assert_eq!(rep[1], (String::from("t1.mp3"), TrackStatus::NowPlaying));
    assert_eq!(rep[2], (String::from("t2.mp3"), TrackStatus::Pending));
}

#[test]
fn report_is_all_pending_when_inactive() {
    let p = loaded_player(&["d/t0.mp3", "d/t1.mp3"]);
    let rep = p.playlist_report();
    assert_eq!(rep[0].1, TrackStatus::Pending);
    assert_eq!(rep[1].1, TrackStatus::Pending);
}

#[test]
fn now_playing_names_the_cursor_track() {
    let mut p = loaded_player(&["dir/sub/one.mp3", "dir/sub/two.mp3"]);
    let ok = vec![true, true];
    p.play_playlist(&ok);
    let (name, idx, total) = p.now_playing().unwrap();
    assert_eq!(name, "one.mp3");
    assert_eq!(idx, 0);
    assert_eq!(total, 2);
}

#[test]
fn now_playing_is_none_without_a_playlist() {
    let p = Player::new();
    assert!(p.now_playing().is_none());
}
