use playrusty::command::{parse_command, Command};

fn tokens(line: &str) -> Vec<String> {
    line.split_whitespace().map(String::from).collect()
}

#[test]
fn blank_line_is_empty() {
    assert_eq!(parse_command(&tokens("   ")), Command::Empty);
}

#[test]
fn simple_commands_parse() {
    assert_eq!(parse_command(&tokens("play")), Command::Play);
    assert_eq!(parse_command(&tokens("pause")), Command::Pause);
    assert_eq!(parse_command(&tokens("stop")), Command::Stop);
    assert_eq!(parse_command(&tokens("help")), Command::Help);
}

#[test]
fn every_quit_spelling_quits() {
    assert_eq!(parse_command(&tokens("quit")), Command::Quit);
    assert_eq!(parse_command(&tokens("exit")), Command::Quit);
    assert_eq!(parse_command(&tokens("q")), Command::Quit);
}

#[test]
fn load_rejoins_a_path_with_spaces() {
    assert_eq!(
        parse_command(&tokens("load my music/one track.mp3")),
        Command::Load(String::from("my music/one track.mp3"))
    );
}

#[test]
fn load_without_a_path_is_usage() {
    assert_eq!(parse_command(&tokens("load")), Command::LoadUsage);
}

#[test]
fn volume_keeps_its_raw_argument() {
    assert_eq!(parse_command(&tokens("volume 0.5")), Command::Volume(String::from("0.5")));
    assert_eq!(parse_command(&tokens("volume")), Command::VolumeUsage);
}

#[test]
fn playlist_subcommands_parse() {
    assert_eq!(
        parse_command(&tokens("playlist run my songs")),
        Command::PlaylistRun(String::from("my songs"))
    );
    assert_eq!(parse_command(&tokens("playlist show")), Command::PlaylistShow);
    assert_eq!(parse_command(&tokens("playlist status")), Command::PlaylistStatus);
    assert_eq!(parse_command(&tokens("playlist")), Command::PlaylistUsage);
    assert_eq!(parse_command(&tokens("playlist run")), Command::PlaylistRunUsage);
    assert_eq!(parse_command(&tokens("playlist shuffle")), Command::PlaylistUnknown);
}

#[test]
fn anything_else_is_unknown() {
    assert_eq!(parse_command(&tokens("dance")), Command::Unknown);
    assert_eq!(parse_command(&tokens("Play")), Command::Unknown);
}
