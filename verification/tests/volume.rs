use status_query::volume::{
    get_volume_level, level_of_line, mixer_arguments, mixer_program, volume_line,
};

#[test]
fn mixer_invocation() {
    assert_eq!(mixer_program(), "amixer");
    assert_eq!(mixer_arguments(), ["get", "Master"]);
}

const REPORT: &str = "Simple mixer control 'Master',0\n  Capabilities: pvolume pswitch pswitch-joined\n  Playback channels: Front Left - Front Right\n  Limits: Playback 0 - 65536\n  Mono:\n  Front Left: Playback 42598 [65%] [on]\n  Front Right: Playback 42598 [65%] [on]\n";

#[test]
fn muted_line_wins_over_its_own_percentage() {
    assert_eq!(get_volume_level("  Front Left: Playback 50 [65%] [off]\n"), "MUTED");
}

#[test]
fn mono_line_gives_percentage_without_brackets() {
    assert_eq!(get_volume_level("  Mono: Playback 50 [65%]"), "VOL: 65%");
}

#[test]
fn mono_line_with_switch_state_stops_at_first_percent_sign() {
    assert_eq!(get_volume_level("  Mono: Playback 50 [65%] [-12.00dB] [on]\n"), "VOL: 65%");
}

#[test]
fn full_report_skips_bare_mono_line() {
    assert_eq!(get_volume_level(REPORT), "VOL: 65%");
}

#[test]
fn muted_line_after_lines_without_level() {
    let report = "Simple mixer control 'Master',0\n  Mono:\n  Front Left: Playback 0 [0%] [off]\n";
    assert_eq!(get_volume_level(report), "MUTED");
}

#[test]
fn muted_line_wins_over_an_earlier_level() {
    let report = "Front Left: Playback 50 [65%] [on]\nFront Right: Playback 50 [65%] [off]\n";
    assert_eq!(get_volume_level(report), "MUTED");
    assert_eq!(get_volume_level("  Mono: Playback 50 [65%]\n\n\nlast [off]"), "MUTED");
}

#[test]
fn first_level_is_reported_where_nothing_is_muted() {
    let report = "  Front Left: Playback 50 [65%] [on]\n  Mono: Playback 50 [30%] [on]\n";
    assert_eq!(get_volume_level(report), "VOL: 65%");
}

#[test]
fn muted_marker_on_unrelated_line_still_mutes() {
    assert_eq!(get_volume_level("something [off]\n  Mono: Playback 50 [65%]\n"), "MUTED");
}

#[test]
fn no_channel_line_is_unknown() {
    assert_eq!(get_volume_level("Simple mixer control 'Master',0\n  Limits: 0 - 10 [5%]\n"), "Unknown");
    assert_eq!(get_volume_level(""), "Unknown");
}

#[test]
fn channel_line_without_percent_is_skipped() {
    assert_eq!(get_volume_level("  Mono: Playback [on]\n  Front Left: [7%]\n"), "VOL: 7%");
    assert_eq!(get_volume_level("  Mono: 50%\n"), "Unknown");
}

#[test]
fn carriage_returns_do_not_change_the_result() {
    assert_eq!(get_volume_level("  Mono: Playback 50 [65%]\r\n"), "VOL: 65%");
    assert_eq!(get_volume_level("header\r\n  Front Left: x [off]\r\n"), "MUTED");
}

#[test]
fn characters_outside_ascii_keep_the_slice_in_place() {
    assert_eq!(get_volume_level("  Mono: \u{e9}\u{fffd} [\u{e9}5%]"), "VOL: \u{e9}5%");
}

#[test]
fn percent_before_bracket_is_no_level() {
    assert_eq!(get_volume_level("Mono: 50% [on]\n"), "Unknown");
    assert_eq!(get_volume_level("  Mono: 50% [on]\n  x [off]\n"), "MUTED");
    assert_eq!(get_volume_level("  Mono: 50% [on]\n  Front Left: Playback [7%]\n"), "VOL: 7%");
    assert_eq!(get_volume_level("  Mono: %[\n"), "Unknown");
}

#[test]
fn level_of_a_single_line() {
    assert_eq!(level_of_line("  Mono: Playback 50 [65%] [on]"), Some(String::from("VOL: 65%")));
    assert_eq!(level_of_line("  Front Left: [%"), Some(String::from("VOL: %")));
    assert_eq!(level_of_line("  Front Right: Playback 50 [65%] [on]"), None);
    assert_eq!(level_of_line("  Mono: 50% [on]"), None);
    assert_eq!(level_of_line("  Mono: [on]"), None);
    assert_eq!(level_of_line("  Mono: 50%"), None);
    assert_eq!(level_of_line(""), None);
}

#[test]
fn every_result_has_one_of_three_forms() {
    let reports = ["", "\n", "Mono: 50% [on]\n", "Mono: [1%]", "a\nb [off]\nMono: [2%]", "Front Left: [%", "Mono: [[%%]]", "x [on] 5%"];
    for report in reports {
        let line = get_volume_level(report);
        let is_level = line.starts_with("VOL: ") && line.ends_with('%') && line.chars().count() >= 6;
        assert!(line == "MUTED" || line == "Unknown" || is_level, "{:?}", report);
        assert_eq!(line == "MUTED", report.contains("[off]"), "{:?}", report);
    }
}

#[test]
fn volume_line_of_a_report_that_could_not_be_had() {
    assert_eq!(volume_line(None), "Unknown");
    assert_eq!(volume_line(Some(REPORT)), "VOL: 65%");
    assert_eq!(volume_line(Some("x [off]")), "MUTED");
}
