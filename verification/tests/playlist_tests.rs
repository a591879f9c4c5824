use playrusty::player::Player;
use playrusty::playlist::{collect_tracks, DirEntry};

fn entry(path: &str, is_file: bool) -> DirEntry {
    DirEntry { path: String::from(path), is_file }
}

#[test]
fn listing_keeps_audio_files_sorted_and_skips_the_rest() {
    let mut p = Player::new();
    let listing = vec![
        entry("b.mp3", true),
        entry("a.wav", true),
        entry("c.txt", true),
        entry("sub", false),
    ];
    p.load_playlist(Some(listing)).unwrap();
    assert_eq!(p.tracks, vec![String::from("a.wav"), String::from("b.mp3")]);
    assert_eq!(p.current, 0);
    assert!(!p.active);
}

#[test]
fn loading_resets_cursor_and_run_state() {
    let mut p = Player::new();
    p.load_playlist(Some(vec![entry("z.ogg", true), entry("y.ogg", true)])).unwrap();
    let ok = vec![true, true];
    p.play_playlist(&ok);
    p.check_playlist_progress(1);
    assert!(p.active);
    assert_eq!(p.current, 1);
    p.load_playlist(Some(vec![entry("m.ogg", true)])).unwrap();
    assert!(!p.active);
    assert_eq!(p.current, 0);
    assert_eq!(p.tracks, vec![String::from("m.ogg")]);
}

#[test]
fn extension_match_ignores_ascii_case() {
    let listing = vec![
        entry("one.MP3", true),
        entry("two.FlAc", true),
        entry("three.OGG", true),
        entry("four.WaV", true),
        entry("five.M4A", true),
    ];
    let tracks = collect_tracks(listing);
    assert_eq!(tracks.len(), 5);
}

#[test]
fn every_supported_extension_is_kept() {
    let listing = vec![
        entry("a.mp3", true),
        entry("b.wav", true),
        entry("c.flac", true),
        entry("d.m4a", true),
        entry("e.ogg", true),
    ];
    let tracks = collect_tracks(listing);
    assert_eq!(tracks.len(), 5);
}

#[test]
fn unsupported_and_extensionless_files_are_skipped() {
    let listing = vec![
        entry("notes.txt", true),
        entry("cover.jpg", true),
        entry("README", true),
        entry("song.mp3.bak", true),
        entry("trailingdot.", true),
    ];
    let tracks = collect_tracks(listing);
    assert!(tracks.is_empty());
}

#[test]
fn directories_are_skipped_even_with_audio_names() {
    let listing = vec![entry("folder.mp3", false), entry("keeper.mp3", true)];
    let tracks = collect_tracks(listing);
    assert_eq!(tracks, vec![String::from("keeper.mp3")]);
}

#[test]
fn dotfiles_without_a_real_extension_are_skipped() {
    let listing = vec![
        entry(".mp3", true),
        entry("dir/.mp3", true),
        entry(".hidden.mp3", true),
    ];
    let tracks = collect_tracks(listing);
    assert_eq!(tracks, vec![String::from(".hidden.mp3")]);
}

#[test]
fn sorting_is_lexicographic_on_the_full_path() {
    let listing = vec![
        entry("music/10.mp3", true),
        entry("music/2.mp3", true),
        entry("music/1.mp3", true),
        entry("music/a.mp3", true),
    ];
    let tracks = collect_tracks(listing);
    assert_eq!(
        tracks,
        vec![
            String::from("music/1.mp3"),
            String::from("music/10.mp3"),
            String::from("music/2.mp3"),
            String::from("music/a.mp3"),
        ]
    );
}

#[test]
fn duplicate_names_all_survive_the_sort() {
    let listing = vec![
        entry("dup.mp3", true),
        entry("ace.mp3", true),
        entry("dup.mp3", true),
    ];
    let tracks = collect_tracks(listing);
    assert_eq!(
        tracks,
        vec![String::from("ace.mp3"), String::from("dup.mp3"), String::from("dup.mp3")]
    );
}

#[test]
fn empty_listing_yields_an_empty_playlist() {
    let tracks = collect_tracks(Vec::new());
    assert!(tracks.is_empty());
}
