//! The battery queries: the state of charge and the charging status, each as
//! the trimmed text of its sensor, or a placeholder where it could not be
//! read.

use crate::text::{reading_view, trim, trimmed};
use vstd::prelude::*;

verus! {

/// What a sensor states: the trimmed text of its reading, or the placeholder
/// where there is no reading.
pub open spec fn reading_or_unknown(reading: Option<Seq<char>>) -> Seq<char> {
    match reading {
        Some(raw) => trim(raw),
        None => "Unknown"@,
    }
}

/// The line of the combined query: the status, a colon, the capacity and a
/// percent sign.
pub open spec fn battery_line(status: Option<Seq<char>>, capacity: Option<Seq<char>>) -> Seq<char> {
    reading_or_unknown(status) + ": "@ + reading_or_unknown(capacity) + "%"@
}

/// The line of the capacity query: the capacity and a percent sign.
pub open spec fn capacity_line(capacity: Option<Seq<char>>) -> Seq<char> {
    reading_or_unknown(capacity) + "%"@
}

/// The line of the status query: the status alone.
pub open spec fn status_line(status: Option<Seq<char>>) -> Seq<char> {
    reading_or_unknown(status)
}

/// The directory of the battery's sensors, with its separator at the end.
pub fn battery_directory() -> (path: &'static str)
    ensures
        path@ == "/sys/class/power_supply/BAT0/"@,
{
    "/sys/class/power_supply/BAT0/"
}

/// The path of a sensor: the directory, which ends in its separator, and the
/// sensor's name.
pub fn sensor_path(directory: &str, name: &str) -> (path: String)
    ensures
        path@ == directory@ + name@,
{
    let mut path = String::from_str(directory);
    path.append(name);
    path
}

/// The path of the capacity sensor of the battery in `battery_path`.
pub fn capacity_path(battery_path: &str) -> (path: String)
    ensures
        path@ == battery_path@ + "capacity"@,
{
    sensor_path(battery_path, "capacity")
}

/// The path of the status sensor of the battery in `battery_path`.
pub fn status_path(battery_path: &str) -> (path: String)
    ensures
        path@ == battery_path@ + "status"@,
{
    sensor_path(battery_path, "status")
}

/// What a sensor states, or the placeholder where there is no reading.
pub fn read_or_unknown(reading: Option<&str>) -> (r: String)
    ensures
        r@ == reading_or_unknown(reading_view(reading)),
{
    match reading {
        Some(raw) => trimmed(raw),
        None => String::from_str("Unknown"),
    }
}

/// The capacity of the battery, from the raw text of its sensor.
pub fn get_battery_capacity(raw: &str) -> (r: String)
    ensures
        r@ == trim(raw@),
{
    trimmed(raw)
}

/// The status of the battery, from the raw text of its sensor.
pub fn get_battery_status(raw: &str) -> (r: String)
    ensures
        r@ == trim(raw@),
{
    trimmed(raw)
}

/// The line of the combined query.
pub fn battery_summary(status: Option<&str>, capacity: Option<&str>) -> (r: String)
    ensures
        r@ == battery_line(reading_view(status), reading_view(capacity)),
{
    let mut line = read_or_unknown(status);
    line.append(": ");
    let level = read_or_unknown(capacity);
    line.append(level.as_str());
    line.append("%");
    line
}

/// The line of the capacity query.
pub fn capacity_summary(capacity: Option<&str>) -> (r: String)
    ensures
        r@ == capacity_line(reading_view(capacity)),
{
    let mut line = read_or_unknown(capacity);
    line.append("%");
    line
}

/// The line of the status query.
pub fn status_summary(status: Option<&str>) -> (r: String)
    ensures
        r@ == status_line(reading_view(status)),
{
    read_or_unknown(status)
}

} // verus!
