//! The backlight query: the brightness of the display as a percentage of its
//! maximum.

use crate::number::{decimal, div_truncating, format_decimal, parse_i32, parse_in_range, trunc_div};
use crate::text::{reading_view, trim, trimmed};
use vstd::prelude::*;

verus! {

/// The integer that the raw text of a sensor writes once it is trimmed, where
/// it fits 32 bits; `fallback` for any other text.
pub open spec fn sensor_value(raw: Seq<char>, fallback: int) -> int {
    match parse_in_range(trim(raw), i32::MIN as int, i32::MAX as int) {
        Some(v) => v,
        None => fallback,
    }
}

/// The current brightness that the raw text states, 0 where it states none.
pub open spec fn current_of(raw: Seq<char>) -> int {
    sensor_value(raw, 0)
}

/// The maximum brightness that the raw text states, 1 where it states none.
pub open spec fn maximum_of(raw: Seq<char>) -> int {
    sensor_value(raw, 1)
}

/// The brightness as a percentage of the maximum, rounded towards zero and
/// not clamped.
pub open spec fn percentage(current: int, maximum: int) -> int
    recommends
        maximum != 0,
{
    trunc_div(current * 100, maximum)
}

/// The line that the backlight query prints for the raw texts of the two
/// sensors: the percentage, or the placeholder where the maximum is 0 and
/// there is no percentage.
pub open spec fn brightness_report(current_raw: Seq<char>, maximum_raw: Seq<char>) -> Seq<char> {
    if maximum_of(maximum_raw) == 0 {
        "Unknown"@
    } else {
        "BL: "@ + decimal(percentage(current_of(current_raw), maximum_of(maximum_raw))) + "%"@
    }
}

/// The line that the backlight query prints: the report on the two sensors,
/// or the placeholder where one of them could not be read.
pub open spec fn backlight_line_of(
    current: Option<Seq<char>>,
    maximum: Option<Seq<char>>,
) -> Seq<char> {
    match (current, maximum) {
        (Some(current_raw), Some(maximum_raw)) => brightness_report(current_raw, maximum_raw),
        _ => "Unknown"@,
    }
}

/// The path of the sensor of the current brightness.
pub fn brightness_path() -> (path: &'static str)
    ensures
        path@ == "/sys/class/backlight/amdgpu_bl1/brightness"@,
{
    "/sys/class/backlight/amdgpu_bl1/brightness"
}

/// The path of the sensor of the maximum brightness.
pub fn max_brightness_path() -> (path: &'static str)
    ensures
        path@ == "/sys/class/backlight/amdgpu_bl1/max_brightness"@,
{
    "/sys/class/backlight/amdgpu_bl1/max_brightness"
}

/// The integer that the raw text of a sensor writes, or `fallback`.
pub fn read_sensor_value(raw: &str, fallback: i32) -> (v: i32)
    ensures
        v == sensor_value(raw@, fallback as int),
{
    let text = trimmed(raw);
    match parse_i32(text.as_str()) {
        Some(v) => v,
        None => fallback,
    }
}

/// The current brightness that the raw text states, 0 where it states none.
pub fn current_brightness(raw: &str) -> (v: i32)
    ensures
        v == current_of(raw@),
{
    read_sensor_value(raw, 0)
}

/// The maximum brightness that the raw text states, 1 where it states none.
pub fn max_brightness(raw: &str) -> (v: i32)
    ensures
        v == maximum_of(raw@),
{
    read_sensor_value(raw, 1)
}

/// The brightness as a percentage of the maximum.
pub fn brightness_percentage(current: i32, maximum: i32) -> (p: i64)
    requires
        maximum != 0,
    ensures
        p == percentage(current as int, maximum as int),
{
    let p = div_truncating(current as i128 * 100, maximum as i128);
    p as i64
}

/// The line that the backlight query prints for the raw texts of the two
/// sensors.
pub fn get_brightness(current_raw: &str, maximum_raw: &str) -> (r: String)
    ensures
        r@ == brightness_report(current_raw@, maximum_raw@),
{
    let current = current_brightness(current_raw);
    let maximum = max_brightness(maximum_raw);
    if maximum == 0 {
        return String::from_str("Unknown");
    }
    let mut report = String::from_str("BL: ");
    let p = format_decimal(brightness_percentage(current, maximum));
    report.append(p.as_str());
    report.append("%");
    report
}

/// The line that the backlight query prints: the report on the two sensors,
/// or the placeholder where one of them could not be read.
pub fn backlight_line(current: Option<&str>, maximum: Option<&str>) -> (r: String)
    ensures
        r@ == backlight_line_of(reading_view(current), reading_view(maximum)),
{
    match (current, maximum) {
        (Some(current_raw), Some(maximum_raw)) => get_brightness(current_raw, maximum_raw),
        _ => String::from_str("Unknown"),
    }
}

/// For a brightness that is not negative and a positive maximum, the
/// percentage is the floor of a hundred times the brightness over the
/// maximum.
pub proof fn lemma_percentage_is_floor(current: int, maximum: int)
    requires
        0 <= current,
        0 < maximum,
    ensures
        percentage(current, maximum) == (current * 100) / maximum,
        percentage(current, maximum) * maximum <= current * 100 < (percentage(current, maximum) + 1)
            * maximum,
{
    let p = (current * 100) / maximum;
    assert(p * maximum <= current * 100 < (p + 1) * maximum) by (nonlinear_arith)
        requires
            p == (current * 100) / maximum,
            0 < maximum,
    ;
}

/// A brightness at its maximum is 100 percent.
pub proof fn lemma_percentage_at_maximum(maximum: int)
    requires
        maximum != 0,
    ensures
        percentage(maximum, maximum) == 100,
{
    if maximum > 0 {
        assert((maximum * 100) / maximum == 100) by (nonlinear_arith)
            requires
                maximum > 0,
        ;
    } else {
        assert((-(maximum * 100)) / (-maximum) == 100) by (nonlinear_arith)
            requires
                maximum < 0,
        ;
    }
}

/// The percentage is not clamped: a brightness above a positive maximum is
/// at least 100 percent, and more than 100 as soon as it lies a hundredth of
/// the maximum above it.
pub proof fn lemma_percentage_unclamped(current: int, maximum: int)
    requires
        0 < maximum < current,
    ensures
        percentage(current, maximum) >= 100,
        (current - maximum) * 100 >= maximum ==> percentage(current, maximum) > 100,
{
    lemma_percentage_is_floor(current, maximum);
    let p = percentage(current, maximum);
    assert(p >= 100) by (nonlinear_arith)
        requires
            current * 100 < (p + 1) * maximum,
            0 < maximum < current,
    ;
    if (current - maximum) * 100 >= maximum {
        assert(p > 100) by (nonlinear_arith)
            requires
                current * 100 < (p + 1) * maximum,
                (current - maximum) * 100 >= maximum,
                0 < maximum,
        ;
    }
}

} // verus!
