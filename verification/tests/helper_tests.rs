use waveform::helper::{ascii_lines, get_command_args, is_flag, parse_rgb, rgb_converter};
use waveform::text::{decimal_string, parse_unsigned, split_on_char, split_whitespace_words};

fn args(line: &str) -> Vec<String> {
    get_command_args(String::from(line))
}

#[test]
fn splits_words_and_groups_flag_values() {
    assert_eq!(
        args("download never gonna -an rick astley -rn give up"),
        vec!["download", "never", "gonna", "-an", "rick astley", "-rn", "give up"]
    );
}

#[test]
fn line_without_flags_gives_its_words() {
    assert_eq!(args("  play   the\tsong \n"), vec!["play", "the", "song"]);
}

#[test]
fn first_word_is_the_command_name() {
    assert_eq!(args("-x a b")[0], "-x");
    assert_eq!(args("download -rn x")[0], "download");
}

#[test]
fn consecutive_flags_have_no_empty_group() {
    assert_eq!(args("a -x -y b c"), vec!["a", "-x", "-y", "b c"]);
}

#[test]
fn flag_value_ends_the_line() {
    assert_eq!(args("cmd -an  artist   name  "), vec!["cmd", "-an", "artist name"]);
}

#[test]
fn empty_line_has_no_arguments() {
    assert!(args("").is_empty());
    assert!(args(" \t ").is_empty());
}

#[test]
fn unicode_whitespace_separates_words() {
    assert_eq!(args("a\u{3000}b\u{a0}c"), vec!["a", "b", "c"]);
    assert_eq!(split_whitespace_words("x\u{2003}y"), vec!["x", "y"]);
}

#[test]
fn arguments_are_never_empty() {
    for line in ["-a", "x -a", "-a -b -c", "q - - -"] {
        assert!(args(line).iter().all(|a| !a.is_empty()), "{line}");
    }
}

#[test]
fn recognises_flags() {
    assert!(is_flag("-rn"));
    assert!(is_flag("-"));
    assert!(!is_flag("rn"));
    assert!(!is_flag("a-b"));
}

#[test]
fn reads_full_colour() {
    assert_eq!(rgb_converter("12,200,7"), [12, 200, 7]);
    assert_eq!(rgb_converter("+1,0,255"), [1, 0, 255]);
    assert_eq!(rgb_converter("007,08,9"), [7, 8, 9]);
}

#[test]
fn missing_channels_are_white() {
    assert_eq!(rgb_converter("10"), [10, 255, 255]);
    assert_eq!(rgb_converter("10,20"), [10, 20, 255]);
}

#[test]
fn refuses_bad_colours() {
    assert_eq!(parse_rgb(""), None);
    assert_eq!(parse_rgb("256,0,0"), None);
    assert_eq!(parse_rgb("1,2,3,4"), None);
    assert_eq!(parse_rgb("1, 2,3"), None);
    assert_eq!(parse_rgb("1,,3"), None);
    assert_eq!(parse_rgb("-1,2,3"), None);
    assert_eq!(parse_rgb("+,2,3"), None);
    assert_eq!(parse_rgb("1,2,3,"), None);
}

#[test]
fn colour_round_trip() {
    for (r, g, b) in [(0u8, 0u8, 0u8), (255, 128, 9), (10, 99, 100)] {
        let text = format!("{},{},{}", decimal_string(r as u64), decimal_string(g as u64), decimal_string(b as u64));
        assert_eq!(parse_rgb(&text), Some([r, g, b]));
    }
}

#[test]
fn parses_unsigned_like_std() {
    for s in ["0", "255", "256", "+7", "+", "", "-1", "12a", "00000000000000000000000000042", " 1", "18446744073709551615", "18446744073709551616", "99999999999999999999999"] {
        assert_eq!(parse_unsigned(s, 255), s.parse::<u8>().ok().map(|v| v as u64), "{s:?}");
        assert_eq!(parse_unsigned(s, u64::MAX), s.parse::<u64>().ok(), "{s:?}");
    }
}

#[test]
fn writes_decimal() {
    assert_eq!(decimal_string(0), "0");
    assert_eq!(decimal_string(10), "10");
    assert_eq!(decimal_string(u64::MAX), u64::MAX.to_string());
}

#[test]
fn splits_on_separator_like_std() {
    for s in ["", ",", "a,b", "a,,b,", "abc"] {
        let expected: Vec<String> = s.split(',').map(String::from).collect();
        assert_eq!(split_on_char(s, ','), expected);
    }
}

#[test]
fn whitespace_split_matches_std() {
    for s in ["", " a  b ", "a\u{85}b\u{2028}c", "\u{1680}x\u{205f}"] {
        let expected: Vec<String> = s.split_whitespace().map(String::from).collect();
        assert_eq!(split_whitespace_words(s), expected);
    }
}

#[test]
fn picture_lines() {
    assert_eq!(ascii_lines("ab\ncd\n"), vec!["ab", "cd"]);
    assert_eq!(ascii_lines("ab\ncd"), vec!["ab", "cd"]);
    assert_eq!(ascii_lines("\nx"), vec!["", "x"]);
    assert!(ascii_lines("").is_empty());
}
