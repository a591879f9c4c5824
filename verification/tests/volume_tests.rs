use playrusty::text::display_name;
use playrusty::volume::parse_volume;
use playrusty::PlayerError;

#[test]
fn plain_decimals_parse_to_permille() {
    assert_eq!(parse_volume("0.5"), Ok(500));
    assert_eq!(parse_volume("0.25"), Ok(250));
    assert_eq!(parse_volume("0.125"), Ok(125));
    assert_eq!(parse_volume("1"), Ok(1000));
    assert_eq!(parse_volume("0"), Ok(0));
    assert_eq!(parse_volume(".5"), Ok(500));
    assert_eq!(parse_volume("1."), Ok(1000));
}

#[test]
fn out_of_range_values_clamp_silently() {
    assert_eq!(parse_volume("1.5"), Ok(1000));
    assert_eq!(parse_volume("250"), Ok(1000));
    assert_eq!(parse_volume("-0.3"), Ok(0));
    assert_eq!(parse_volume("-12"), Ok(0));
    assert_eq!(parse_volume("99999999999999999999999999"), Ok(1000));
}

#[test]
fn signs_are_accepted() {
    assert_eq!(parse_volume("+0.75"), Ok(750));
    assert_eq!(parse_volume("-0"), Ok(0));
}

#[test]
fn extra_precision_is_truncated() {
    assert_eq!(parse_volume("0.12349"), Ok(123));
    assert_eq!(parse_volume("0.9999"), Ok(999));
}

#[test]
fn non_numeric_volume_is_a_parse_error() {
    assert_eq!(parse_volume("loud"), Err(PlayerError::ParseError));
    assert_eq!(parse_volume(""), Err(PlayerError::ParseError));
    assert_eq!(parse_volume("."), Err(PlayerError::ParseError));
    assert_eq!(parse_volume("-"), Err(PlayerError::ParseError));
    assert_eq!(parse_volume("1.2.3"), Err(PlayerError::ParseError));
    assert_eq!(parse_volume("0.5x"), Err(PlayerError::ParseError));
    assert_eq!(parse_volume("0,5"), Err(PlayerError::ParseError));
}

#[test]
fn display_name_strips_the_directory_part() {
    assert_eq!(display_name("music/album/track.mp3"), "track.mp3");
    assert_eq!(display_name("track.mp3"), "track.mp3");
    assert_eq!(display_name("/abs/path/t.ogg"), "t.ogg");
}
