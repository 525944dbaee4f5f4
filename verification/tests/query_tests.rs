use anime_cli::query::{
    episodes, full_query, media_check, option_resolution, parse_number, prompt_resolution,
    without_line_breaks, Episodes, MediaCheck, NotNumeric,
};

#[test]
fn numbers_are_read_from_their_digits() {
    assert_eq!(parse_number("12"), Ok(Some(12)));
    assert_eq!(parse_number("720p"), Ok(Some(720)));
    assert_eq!(parse_number(" 1 0 "), Ok(Some(10)));
    assert_eq!(parse_number("ep-07\n"), Ok(Some(7)));
    assert_eq!(parse_number("65535"), Ok(Some(65535)));
    assert_eq!(parse_number("0000000000000000000005"), Ok(Some(5)));
}

#[test]
fn no_digits_give_no_number() {
    assert_eq!(parse_number(""), Ok(None));
    assert_eq!(parse_number("abc"), Ok(None));
    assert_eq!(parse_number("\r\n"), Ok(None));
    assert_eq!(parse_number("+-"), Ok(None));
}

#[test]
fn digits_that_make_no_number_are_an_error() {
    assert_eq!(parse_number("65536"), Err(NotNumeric));
    assert_eq!(parse_number("99999999999999999999"), Err(NotNumeric));
    assert_eq!(parse_number("\u{0663}"), Err(NotNumeric));
    assert_eq!(parse_number("1\u{00bd}"), Err(NotNumeric));
}

#[test]
fn resolution_given_as_an_option() {
    assert_eq!(option_resolution(None), Ok(Some(720)));
    assert_eq!(option_resolution(Some("0")), Ok(None));
    assert_eq!(option_resolution(Some("1080")), Ok(Some(1080)));
    assert_eq!(option_resolution(Some("480p")), Ok(Some(480)));
    assert_eq!(option_resolution(Some("00")), Ok(Some(0)));
    assert_eq!(option_resolution(Some("")), Ok(None));
    assert_eq!(option_resolution(Some("70000")), Err(NotNumeric));
}

#[test]
fn resolution_typed_at_the_prompt() {
    assert_eq!(prompt_resolution(Some(1)), Some(480));
    assert_eq!(prompt_resolution(Some(2)), Some(720));
    assert_eq!(prompt_resolution(Some(3)), Some(1080));
    assert_eq!(prompt_resolution(Some(4)), Some(4));
    assert_eq!(prompt_resolution(Some(720)), Some(720));
    assert_eq!(prompt_resolution(Some(0)), Some(0));
    assert_eq!(prompt_resolution(None), None);
}

#[test]
fn episodes_run_from_start_to_end() {
    assert_eq!(episodes(Some(1), Some(10)), Episodes { first: 1, last: 10, numbered: true });
    assert_eq!(episodes(Some(5), None), Episodes { first: 5, last: 5, numbered: true });
    assert_eq!(episodes(None, Some(3)), Episodes { first: 1, last: 3, numbered: true });
    assert_eq!(episodes(None, None), Episodes { first: 1, last: 1, numbered: false });
    assert_eq!(episodes(Some(4), Some(4)), Episodes { first: 4, last: 4, numbered: true });
    assert_eq!(
        episodes(Some(65535), Some(65535)),
        Episodes { first: 65535, last: 65535, numbered: true }
    );
}

#[test]
fn an_end_before_the_start_swaps_the_two() {
    assert_eq!(episodes(Some(10), Some(1)), Episodes { first: 1, last: 10, numbered: true });
    assert_eq!(episodes(None, Some(0)), Episodes { first: 0, last: 0, numbered: true });
    assert_eq!(episodes(Some(0), Some(0)), Episodes { first: 0, last: 0, numbered: true });
}

#[test]
fn the_resolution_goes_behind_the_query() {
    assert_eq!(full_query("sakamoto", Some(720)), "sakamoto 720");
    assert_eq!(full_query("sakamoto", Some(0)), "sakamoto 0");
    assert_eq!(full_query("sakamoto", None), "sakamoto");
    assert_eq!(full_query("", Some(1080)), " 1080");
}

#[test]
fn media_files_are_known_by_their_extension() {
    for ext in ["aif", "cda", "mid", "midi", "mp3", "mpa", "ogg", "wav", "wma", "wpl"] {
        assert_eq!(media_check(Some(ext)), MediaCheck::Media);
    }
    for ext in [
        "3g2", "3gp", "avi", "flv", "h264", "m4v", "mkv", "mov", "mp4", "mpg", "mpeg", "rm",
        "swf", "vob", "wmv",
    ] {
        assert_eq!(media_check(Some(ext)), MediaCheck::Media);
    }
    for ext in ["txt", "MKV", "mk", "mkvv", "", "zip", " mkv"] {
        assert_eq!(media_check(Some(ext)), MediaCheck::NotMedia);
    }
    assert_eq!(media_check(None), MediaCheck::NoExtension);
}

#[test]
fn line_breaks_are_taken_out_of_what_was_typed() {
    assert_eq!(without_line_breaks("sakamoto\n"), "sakamoto");
    assert_eq!(without_line_breaks("sakamoto\r\n"), "sakamoto");
    assert_eq!(without_line_breaks("a\nb\rc\r\n\n"), "abc");
    assert_eq!(without_line_breaks("\r\n"), "");
    assert_eq!(without_line_breaks(""), "");
    assert_eq!(without_line_breaks(" two words\t"), " two words\t");
    assert_eq!(without_line_breaks("h\u{e9}\n"), "h\u{e9}");
}
