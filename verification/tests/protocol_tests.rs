use buck::protocol::{
    is_ready_marker_line, line_get_length, line_get_pos, line_pause, line_seek_absolute,
    line_seek_relative, line_volume, parse_answer, parse_duration_ms, u64_to_string,
};

#[test]
fn parses_length_answers_to_milliseconds() {
    assert_eq!(parse_answer("ANS_LENGTH=245.72", "ANS_LENGTH="), Some(245_720));
    assert_eq!(parse_answer("ANS_LENGTH=7", "ANS_LENGTH="), Some(7_000));
    assert_eq!(parse_answer("ANS_LENGTH=0.5", "ANS_LENGTH="), Some(500));
    assert_eq!(
        parse_answer("ANS_TIME_POSITION=61.5", "ANS_TIME_POSITION="),
        Some(61_500)
    );
}

#[test]
fn rejects_lines_without_the_prefix() {
    assert_eq!(parse_answer("Playing.", "ANS_LENGTH="), None);
    assert_eq!(parse_answer("ANS_TIME_POSITION=1.0", "ANS_LENGTH="), None);
    assert_eq!(parse_answer("", "ANS_LENGTH="), None);
}

#[test]
fn duration_grammar_is_digits_dot_digits() {
    assert_eq!(parse_duration_ms("12."), Some(12_000));
    assert_eq!(parse_duration_ms("12.3456"), Some(12_345));
    assert_eq!(parse_duration_ms("0.001"), Some(1));
    assert_eq!(parse_duration_ms(""), None);
    assert_eq!(parse_duration_ms("abc"), None);
    assert_eq!(parse_duration_ms("1.2.3"), None);
    assert_eq!(parse_duration_ms("-3.5"), None);
    assert_eq!(parse_duration_ms(".5"), None);
}

#[test]
fn overflowing_durations_are_rejected() {
    assert_eq!(parse_duration_ms("99999999999999999999999999999"), None);
}

#[test]
fn renders_decimals() {
    assert_eq!(u64_to_string(0), "0");
    assert_eq!(u64_to_string(7), "7");
    assert_eq!(u64_to_string(1234), "1234");
    assert_eq!(u64_to_string(1000000), "1000000");
}

#[test]
fn renders_process_command_lines() {
    assert_eq!(line_pause(), "pause\n");
    assert_eq!(line_get_length(), "get_time_length\n");
    assert_eq!(line_get_pos(), "get_time_pos\n");
    assert_eq!(line_volume(60), "volume 60 1\n");
    assert_eq!(line_seek_relative(5), "seek 5 0\n");
    assert_eq!(line_seek_relative(-5), "seek -5 0\n");
    assert_eq!(line_seek_absolute(61_500), "seek 61 2\n");
}

#[test]
fn recognizes_the_readiness_marker() {
    assert!(is_ready_marker_line("AO: [alsa] 48000Hz 2ch s16le"));
    assert!(is_ready_marker_line("noise AO: [alsa]"));
    assert!(!is_ready_marker_line("AO: [pulse] 48000Hz"));
    assert!(!is_ready_marker_line("Playing /m/x.mp3."));
}
