use status_query::memory::{
    get_memory, meminfo_path, memory_line, parse_meminfo_value, used_megabytes,
};

#[test]
fn memory_line_of_a_table_that_could_not_be_read() {
    assert_eq!(memory_line(None), "Unknown");
    assert_eq!(memory_line(Some("MemTotal: 2048 kB\n")), "MEM: 2M");
    assert_eq!(memory_line(Some("")), "Unable to retrieve memory info");
}

#[test]
fn memory_table_path() {
    assert_eq!(meminfo_path(), "/proc/meminfo");
}

#[test]
fn sixteen_gigabytes_half_available() {
    let table = "MemTotal: 16000000 kB\nMemAvailable: 8000000 kB\n";
    assert_eq!(get_memory(table), "MEM: 7812M");
}

#[test]
fn table_without_total_has_no_figures() {
    assert_eq!(get_memory("MemFree: 100 kB\nMemAvailable: 8000000 kB\n"), "Unable to retrieve memory info");
    assert_eq!(get_memory(""), "Unable to retrieve memory info");
}

#[test]
fn order_of_lines_does_not_matter() {
    let table = "MemAvailable:    8000000 kB\nMemFree: 1 kB\nMemTotal:       16000000 kB\n";
    assert_eq!(get_memory(table), "MEM: 7812M");
}

#[test]
fn realistic_table() {
    let table = "MemTotal:       32768000 kB\nMemFree:         1234567 kB\nMemAvailable:   20480000 kB\nBuffers:          204800 kB\nCached:          8000000 kB\n";
    assert_eq!(get_memory(table), "MEM: 12000M");
}

#[test]
fn last_matching_line_wins() {
    let table = "MemTotal: 1 kB\nMemTotal: 4096 kB\nMemAvailable: 2048 kB\nMemAvailable: 1024 kB";
    assert_eq!(get_memory(table), "MEM: 3M");
}

#[test]
fn leading_white_space_of_the_table_is_trimmed() {
    assert_eq!(get_memory("  \n  MemTotal: 2048 kB\n"), "MEM: 2M");
    assert_eq!(get_memory("x\n  MemTotal: 2048 kB\n"), "Unable to retrieve memory info");
}

#[test]
fn total_that_is_no_number_counts_as_missing() {
    assert_eq!(get_memory("MemTotal: lots kB\nMemAvailable: 5 kB"), "Unable to retrieve memory info");
    assert_eq!(get_memory("MemTotal:2048 kB\n"), "Unable to retrieve memory info");
}

#[test]
fn more_available_than_total_rounds_towards_zero() {
    assert_eq!(get_memory("MemTotal: 1000 kB\nMemAvailable: 3000 kB"), "MEM: -1M");
    assert_eq!(get_memory("MemTotal: 1000 kB\nMemAvailable: 1500 kB"), "MEM: 0M");
}

#[test]
fn missing_available_counts_as_zero() {
    assert_eq!(get_memory("MemTotal: 10240 kB"), "MEM: 10M");
}

#[test]
fn carriage_returns_before_line_feeds() {
    assert_eq!(get_memory("MemTotal: 4096 kB\r\nMemAvailable: 1024\r\n"), "MEM: 3M");
}

#[test]
fn figure_of_a_line() {
    assert_eq!(parse_meminfo_value("MemTotal:       16000000 kB"), 16000000);
    assert_eq!(parse_meminfo_value("MemTotal:\t-5"), -5);
    assert_eq!(parse_meminfo_value("MemTotal: +7 kB"), 7);
    assert_eq!(parse_meminfo_value("MemTotal:"), 0);
    assert_eq!(parse_meminfo_value(""), 0);
    assert_eq!(parse_meminfo_value("   "), 0);
    assert_eq!(parse_meminfo_value("MemTotal: 12kB"), 0);
    assert_eq!(parse_meminfo_value("  a\u{a0}9223372036854775807  "), 9223372036854775807);
    assert_eq!(parse_meminfo_value("a 9223372036854775808"), 0);
    assert_eq!(parse_meminfo_value("a -9223372036854775808 b"), i64::MIN);
}

#[test]
fn figure_of_a_line_agrees_with_std() {
    let lines = ["MemTotal: 1 kB", "x  007", " y\t+0 z", "one", "a - b", "a + b", "a 1_000", "a 99999999999999999999"];
    for line in lines {
        let expected: i64 = line.split_whitespace().nth(1).unwrap_or("0").parse().unwrap_or(0);
        assert_eq!(parse_meminfo_value(line), expected, "{:?}", line);
    }
}

#[test]
fn used_megabytes_at_the_ends_of_the_range() {
    assert_eq!(used_megabytes(16000000, 8000000), 7812);
    assert_eq!(used_megabytes(i64::MAX, i64::MIN), 18014398509481983);
    assert_eq!(used_megabytes(i64::MIN, i64::MAX), -18014398509481983);
    assert_eq!(used_megabytes(0, 1023), 0);
    assert_eq!(used_megabytes(0, 1024), -1);
}
