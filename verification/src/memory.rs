//! The memory query: the memory in use, from the kernel's table of memory
//! figures.

use crate::number::{decimal, div_truncating, format_decimal, parse_i64, parse_in_range, trunc_div};
use crate::text::{
    has_prefix, line_starting_at, lines_from, lines_of, reading_view, second_word, second_word_of,
    starts_with, trim, trimmed,
};
use vstd::prelude::*;

verus! {

/// The figure of a line of the table: its second word read as an integer
/// that fits 64 bits, or 0 where there is no such word or it is no such
/// integer.
pub open spec fn meminfo_value(line: Seq<char>) -> int {
    match parse_in_range(second_word(line), i64::MIN as int, i64::MAX as int) {
        Some(v) => v,
        None => 0,
    }
}

/// The figure of the last line that begins with `prefix`, or 0 where no line
/// does.
pub open spec fn last_value_with_prefix(lines: Seq<Seq<char>>, prefix: Seq<char>) -> int
    decreases lines.len(),
{
    if lines.len() == 0 {
        0
    } else if has_prefix(lines.last(), prefix) {
        meminfo_value(lines.last())
    } else {
        last_value_with_prefix(lines.drop_last(), prefix)
    }
}

/// The total memory that the lines state, in kilobytes.
pub open spec fn total_kb(lines: Seq<Seq<char>>) -> int {
    last_value_with_prefix(lines, "MemTotal:"@)
}

/// The available memory that the lines state, in kilobytes.
pub open spec fn available_kb(lines: Seq<Seq<char>>) -> int {
    last_value_with_prefix(lines, "MemAvailable:"@)
}

/// The memory in use, in megabytes: total less available, divided by 1024
/// and rounded towards zero.
pub open spec fn used_mb(total: int, available: int) -> int {
    trunc_div(total - available, 1024)
}

/// The line that the memory query prints for the raw text of the table.
pub open spec fn memory_report(raw: Seq<char>) -> Seq<char> {
    let lines = lines_of(trim(raw));
    if total_kb(lines) == 0 {
        "Unable to retrieve memory info"@
    } else {
        "MEM: "@ + decimal(used_mb(total_kb(lines), available_kb(lines))) + "M"@
    }
}

/// The line that the memory query prints: the report on the table, or the
/// placeholder where the table could not be read.
pub open spec fn memory_line_of(reading: Option<Seq<char>>) -> Seq<char> {
    match reading {
        Some(raw) => memory_report(raw),
        None => "Unknown"@,
    }
}

/// The path of the kernel's table of memory figures.
pub fn meminfo_path() -> (path: &'static str)
    ensures
        path@ == "/proc/meminfo"@,
{
    "/proc/meminfo"
}

/// The figure of a line of the table.
pub fn parse_meminfo_value(line: &str) -> (v: i64)
    ensures
        v == meminfo_value(line@),
{
    match parse_i64(second_word_of(line)) {
        Some(v) => v,
        None => 0,
    }
}

/// The memory in use, in megabytes.
pub fn used_megabytes(total: i64, available: i64) -> (used: i64)
    ensures
        used == used_mb(total as int, available as int),
{
    let used = div_truncating(total as i128 - available as i128, 1024);
    used as i64
}

/// The line that the memory query prints for the raw text of the table.
pub fn get_memory(raw: &str) -> (r: String)
    ensures
        r@ == memory_report(raw@),
{
    let table = trimmed(raw);
    let text = table.as_str();
    let n = text.unicode_len();
    let mut total: i64 = 0;
    let mut available: i64 = 0;
    let mut i: usize = 0;
    let ghost mut seen: Seq<Seq<char>> = Seq::empty();
    assert(seen + lines_from(text@, 0) =~= lines_of(text@));
    while i < n
        invariant
            n == text@.len(),
            i <= n,
            seen + lines_from(text@, i as int) == lines_of(text@),
            total == total_kb(seen),
            available == available_kb(seen),
        decreases n - i,
    {
        let (line, e) = line_starting_at(text, i);
        if starts_with(line, "MemTotal:") {
            total = parse_meminfo_value(line);
        }
        if starts_with(line, "MemAvailable:") {
            available = parse_meminfo_value(line);
        }
        proof {
            let next = seen.push(line@);
            assert(next.drop_last() =~= seen);
            assert(next + lines_from(text@, e + 1) =~= seen + lines_from(text@, i as int));
            seen = next;
        }
        i = if e == n {
            n
        } else {
            e + 1
        };
    }
    assert(seen =~= lines_of(text@));
    if total == 0 {
        return String::from_str("Unable to retrieve memory info");
    }
    let mut report = String::from_str("MEM: ");
    let used = format_decimal(used_megabytes(total, available));
    report.append(used.as_str());
    report.append("M");
    report
}

/// The line that the memory query prints: the report on the table, or the
/// placeholder where the table could not be read.
pub fn memory_line(reading: Option<&str>) -> (r: String)
    ensures
        r@ == memory_line_of(reading_view(reading)),
{
    match reading {
        Some(raw) => get_memory(raw),
        None => String::from_str("Unknown"),
    }
}

/// Where no line of the table begins with the total's label, the query
/// reports that it has no figures.
pub proof fn lemma_report_without_total(raw: Seq<char>)
    requires
        forall|j: int|
            0 <= j < lines_of(trim(raw)).len() ==> !has_prefix(
                #[trigger] lines_of(trim(raw))[j],
                "MemTotal:"@,
            ),
    ensures
        memory_report(raw) == "Unable to retrieve memory info"@,
{
    lemma_total_missing(lines_of(trim(raw)));
}

/// Where no line begins with the total's label, the total is 0.
pub proof fn lemma_total_missing(lines: Seq<Seq<char>>)
    requires
        forall|j: int| 0 <= j < lines.len() ==> !has_prefix(#[trigger] lines[j], "MemTotal:"@),
    ensures
        total_kb(lines) == 0,
    decreases lines.len(),
{
    if lines.len() > 0 {
        assert(!has_prefix(lines[lines.len() - 1], "MemTotal:"@));
        lemma_total_missing(lines.drop_last());
    }
}

} // verus!
