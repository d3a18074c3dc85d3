//! The volume query: what the mixer's report says of the master channel.

use crate::text::{
    contains, find_char, find_from, has_substring, lemma_find_from_bounds, line_starting_at,
    lines_from, lines_of, reading_view,
};
use vstd::prelude::*;

verus! {

/// The line says that the channel is switched off.
pub open spec fn is_muted(line: Seq<char>) -> bool {
    has_substring(line, "[off]"@)
}

/// Some line says that the channel is switched off.
pub open spec fn any_muted(lines: Seq<Seq<char>>) -> bool {
    exists|j: int| 0 <= j < lines.len() && is_muted(#[trigger] lines[j])
}

/// The line speaks of the mono channel or of the front left one.
pub open spec fn names_channel(line: Seq<char>) -> bool {
    has_substring(line, "Mono:"@) || has_substring(line, "Front Left:"@)
}

/// The line speaks of a channel and holds an opening bracket and a percent
/// sign, the first bracket before the first sign.
pub open spec fn has_level(line: Seq<char>) -> bool {
    &&& names_channel(line)
    &&& line.contains('[')
    &&& line.contains('%')
    &&& find_from(line, '[', 0) < find_from(line, '%', 0)
}

/// What stands after the first opening bracket of the line, up to its first
/// percent sign, that sign included.
pub open spec fn level_of(line: Seq<char>) -> Seq<char> {
    line.subrange(find_from(line, '[', 0) + 1, find_from(line, '%', 0) + 1)
}

/// The level of the first line that has one, or the placeholder where no
/// line has one.
pub open spec fn first_level(lines: Seq<Seq<char>>) -> Seq<char>
    decreases lines.len(),
{
    if lines.len() == 0 {
        "Unknown"@
    } else if has_level(lines[0]) {
        "VOL: "@ + level_of(lines[0])
    } else {
        first_level(lines.skip(1))
    }
}

/// The volume that the lines report: muted where any line is, whatever its
/// place among them; else the level of the first line that has one.
pub open spec fn volume_of(lines: Seq<Seq<char>>) -> Seq<char> {
    if any_muted(lines) {
        "MUTED"@
    } else {
        first_level(lines)
    }
}

/// The line that the volume query prints: the volume that the report
/// states, or the placeholder where there is no report.
pub open spec fn volume_line_of(report: Option<Seq<char>>) -> Seq<char> {
    match report {
        Some(output) => volume_of(lines_of(output)),
        None => "Unknown"@,
    }
}

/// The program that reports on the mixer.
pub fn mixer_program() -> (program: &'static str)
    ensures
        program@ == "amixer"@,
{
    "amixer"
}

/// The arguments that make the mixer report on the master channel.
pub fn mixer_arguments() -> (arguments: [&'static str; 2])
    ensures
        arguments[0]@ == "get"@,
        arguments[1]@ == "Master"@,
{
    ["get", "Master"]
}

/// The level that the line states, if it has one.
pub fn level_of_line(line: &str) -> (r: Option<String>)
    ensures
        r is Some <==> has_level(line@),
        r is Some ==> r->0@ == "VOL: "@ + level_of(line@),
{
    if contains(line, "Mono:") || contains(line, "Front Left:") {
        if let Some(start) = find_char(line, '[') {
            if let Some(end) = find_char(line, '%') {
                if start < end {
                    let mut level = String::from_str("VOL: ");
                    level.append(line.substring_char(start + 1, end + 1));
                    return Some(level);
                }
            }
        }
    }
    None
}

/// The volume that the mixer's report states.
pub fn get_volume_level(output: &str) -> (r: String)
    ensures
        r@ == volume_of(lines_of(output@)),
{
    let n = output.unicode_len();
    let mut i: usize = 0;
    let mut level: Option<String> = None;
    let ghost mut seen: Seq<Seq<char>> = Seq::empty();
    assert(seen + lines_from(output@, 0) =~= lines_of(output@));
    while i < n
        invariant
            n == output@.len(),
            i <= n,
            seen + lines_from(output@, i as int) == lines_of(output@),
            forall|j: int| 0 <= j < seen.len() ==> !is_muted(#[trigger] seen[j]),
            level is Some ==> level->0@ == first_level(lines_of(output@)),
            level is None ==> first_level(lines_of(output@)) == first_level(
                lines_from(output@, i as int),
            ),
        decreases n - i,
    {
        let (line, e) = line_starting_at(output, i);
        let ghost here = lines_from(output@, i as int);
        let ghost next = seen.push(line@);
        proof {
            assert(here[0] == line@);
            assert(here.skip(1) =~= lines_from(output@, e + 1));
            assert(next + lines_from(output@, e + 1) =~= seen + here);
        }
        if contains(line, "[off]") {
            assert(lines_of(output@)[seen.len() as int] == line@);
            return String::from_str("MUTED");
        }
        if level.is_none() {
            level = level_of_line(line);
        }
        proof {
            seen = next;
        }
        i = if e == n {
            n
        } else {
            e + 1
        };
    }
    assert(seen =~= lines_of(output@));
    match level {
        Some(level) => level,
        None => String::from_str("Unknown"),
    }
}

/// The line that the volume query prints: the volume that the report
/// states, or the placeholder where there is no report.
pub fn volume_line(report: Option<&str>) -> (r: String)
    ensures
        r@ == volume_line_of(reading_view(report)),
{
    match report {
        Some(output) => get_volume_level(output),
        None => String::from_str("Unknown"),
    }
}

/// A muted line decides wherever it stands: the report is then muted,
/// whatever levels that line or any other holds.
pub proof fn lemma_mute_has_priority(lines: Seq<Seq<char>>, k: int)
    requires
        0 <= k < lines.len(),
        is_muted(lines[k]),
    ensures
        volume_of(lines) == "MUTED"@,
{
}

/// Where no line is muted, the first line with a level gives the report.
pub proof fn lemma_first_level_is_reported(lines: Seq<Seq<char>>, k: int)
    requires
        0 <= k < lines.len(),
        has_level(lines[k]),
        !any_muted(lines),
        forall|j: int| 0 <= j < k ==> !has_level(#[trigger] lines[j]),
    ensures
        volume_of(lines) == "VOL: "@ + level_of(lines[k]),
{
    lemma_first_level_found(lines, k);
}

/// The first line with a level gives the first level.
pub proof fn lemma_first_level_found(lines: Seq<Seq<char>>, k: int)
    requires
        0 <= k < lines.len(),
        has_level(lines[k]),
        forall|j: int| 0 <= j < k ==> !has_level(#[trigger] lines[j]),
    ensures
        first_level(lines) == "VOL: "@ + level_of(lines[k]),
    decreases lines.len(),
{
    if k > 0 {
        assert(!has_level(lines[0]));
        let rest = lines.skip(1);
        assert(forall|j: int| 0 <= j <= k - 1 ==> rest[j] == lines[j + 1]);
        lemma_first_level_found(rest, k - 1);
    }
}

/// The level of a line starts directly after its first opening bracket and
/// ends with its first percent sign: the bracket is left out, the sign is
/// the last character and the only one of its kind.
pub proof fn lemma_level_bounds(line: Seq<char>)
    requires
        has_level(line),
    ensures
        line[find_from(line, '[', 0)] == '[',
        level_of(line).len() == find_from(line, '%', 0) - find_from(line, '[', 0),
        level_of(line).len() >= 1,
        level_of(line).last() == '%',
        !level_of(line).drop_last().contains('%'),
{
    lemma_find_from_bounds(line, '[', 0);
    lemma_find_from_bounds(line, '%', 0);
    let open = find_from(line, '[', 0);
    let sign = find_from(line, '%', 0);
    let at = choose|i: int| 0 <= i < line.len() && line[i] == '%';
    assert(sign <= at);
    let level = level_of(line);
    assert forall|i: int| 0 <= i < level.len() - 1 implies level.drop_last()[i] != '%' by {
        assert(level.drop_last()[i] == line[open + 1 + i]);
    }
}

/// Every report has a volume, and it takes one of three forms: muted,
/// exactly where some line is muted; the level of one of the lines; or
/// unknown.
pub proof fn lemma_volume_forms(lines: Seq<Seq<char>>)
    ensures
        volume_of(lines) == "MUTED"@ <==> any_muted(lines),
        !any_muted(lines) ==> volume_of(lines) == "Unknown"@ || exists|k: int|
            0 <= k < lines.len() && has_level(#[trigger] lines[k]) && volume_of(lines) == "VOL: "@
                + level_of(lines[k]),
{
    lemma_first_level_forms(lines);
}

/// The first level is unknown or the level of one of the lines, and never
/// reads as muted.
pub proof fn lemma_first_level_forms(lines: Seq<Seq<char>>)
    ensures
        first_level(lines) != "MUTED"@,
        first_level(lines) == "Unknown"@ || exists|k: int|
            0 <= k < lines.len() && has_level(#[trigger] lines[k]) && first_level(lines) == "VOL: "@
                + level_of(lines[k]),
    decreases lines.len(),
{
    reveal_strlit("MUTED");
    reveal_strlit("Unknown");
    reveal_strlit("VOL: ");
    if lines.len() == 0 {
        assert("Unknown"@[0] != "MUTED"@[0]);
    } else if has_level(lines[0]) {
        assert(("VOL: "@ + level_of(lines[0]))[0] != "MUTED"@[0]);
    } else {
        let rest = lines.skip(1);
        lemma_first_level_forms(rest);
        if first_level(rest) != "Unknown"@ {
            let k = choose|k: int|
                0 <= k < rest.len() && has_level(#[trigger] rest[k]) && first_level(rest) == "VOL: "@
                    + level_of(rest[k]);
            assert(rest[k] == lines[k + 1]);
            assert(has_level(lines[k + 1]));
        }
    }
}

/// Where no line is muted and none has a level, the volume is unknown.
pub proof fn lemma_volume_unknown(lines: Seq<Seq<char>>)
    requires
        forall|j: int| 0 <= j < lines.len() ==> !is_muted(#[trigger] lines[j]) && !has_level(lines[j]),
    ensures
        volume_of(lines) == "Unknown"@,
{
    lemma_first_level_forms(lines);
}

} // verus!
