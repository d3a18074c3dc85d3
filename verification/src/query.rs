//! Which query the flags of the command line select, and the fixed texts that
//! go with them.

use vstd::prelude::*;

verus! {

/// The flags of the command line, each set or not.
#[derive(Clone, Copy, Debug, PartialEq, Eq, Default)]
pub struct Flags {
    pub battery: bool,
    pub battery_state: bool,
    pub battery_capacity: bool,
    pub volume_level: bool,
    pub backlight: bool,
    pub memory: bool,
}

/// What one run of the program reports.
#[derive(Clone, Copy, Debug, PartialEq, Eq)]
pub enum Query {
    /// Status and capacity of the battery.
    Battery,
    /// Status of the battery.
    BatteryState,
    /// Capacity of the battery.
    BatteryCapacity,
    /// Volume of the master channel.
    VolumeLevel,
    /// Brightness of the display.
    Backlight,
    /// Memory in use.
    Memory,
    /// No query: the usage text.
    Usage,
}

/// The sensor whose reading failed.
#[derive(Clone, Copy, Debug, PartialEq, Eq)]
pub enum Field {
    BatteryCapacity,
    BatteryStatus,
    VolumeLevel,
    Backlight,
    Memory,
}

/// The query that the flags select: the first flag that is set, in the order
/// of the fields, and the usage text where none is.
pub open spec fn selected(flags: Flags) -> Query {
    if flags.battery {
        Query::Battery
    } else if flags.battery_state {
        Query::BatteryState
    } else if flags.battery_capacity {
        Query::BatteryCapacity
    } else if flags.volume_level {
        Query::VolumeLevel
    } else if flags.backlight {
        Query::Backlight
    } else if flags.memory {
        Query::Memory
    } else {
        Query::Usage
    }
}

/// The name under which a failed reading is reported.
pub open spec fn field_label(field: Field) -> Seq<char> {
    match field {
        Field::BatteryCapacity => "battery capacity"@,
        Field::BatteryStatus => "battery status"@,
        Field::VolumeLevel => "volume level"@,
        Field::Backlight => "backlight"@,
        Field::Memory => "memory"@,
    }
}

/// The line that reports a failed reading.
pub open spec fn diagnostic_line(field: Field, cause: Seq<char>) -> Seq<char> {
    "Error reading "@ + field_label(field) + ": "@ + cause
}

/// The query that the flags select.
pub fn select_query(flags: Flags) -> (q: Query)
    ensures
        q == selected(flags),
{
    if flags.battery {
        Query::Battery
    } else if flags.battery_state {
        Query::BatteryState
    } else if flags.battery_capacity {
        Query::BatteryCapacity
    } else if flags.volume_level {
        Query::VolumeLevel
    } else if flags.backlight {
        Query::Backlight
    } else if flags.memory {
        Query::Memory
    } else {
        Query::Usage
    }
}

/// The usage text, as it is printed where no flag is set.
pub fn usage_text() -> (text: &'static str)
    ensures
        text@
            == "Usage: \n        --battery        Output battery status and capacity.\n        --battery-state  Output battery status only.\n        --battery-level  Output battery capacity only.\n        --volume-level   Output volume level.\n        --backlight      Output backlight"@,
{
    "Usage: \n        --battery        Output battery status and capacity.\n        --battery-state  Output battery status only.\n        --battery-level  Output battery capacity only.\n        --volume-level   Output volume level.\n        --backlight      Output backlight"
}

/// The line that reports a failed reading of `field`, with its cause.
pub fn diagnostic(field: Field, cause: &str) -> (line: String)
    ensures
        line@ == diagnostic_line(field, cause@),
{
    let label = match field {
        Field::BatteryCapacity => "battery capacity",
        Field::BatteryStatus => "battery status",
        Field::VolumeLevel => "volume level",
        Field::Backlight => "backlight",
        Field::Memory => "memory",
    };
    let mut line = String::from_str("Error reading ");
    line.append(label);
    line.append(": ");
    line.append(cause);
    line
}

/// A flag that is set is passed over only for one that stands before it: the
/// combined battery query wins over all, and the usage text is selected
/// exactly where no flag is set.
pub proof fn lemma_first_flag_wins(flags: Flags)
    ensures
        flags.battery ==> selected(flags) == Query::Battery,
        selected(flags) == Query::BatteryState <==> !flags.battery && flags.battery_state,
        selected(flags) == Query::BatteryCapacity <==> !flags.battery && !flags.battery_state
            && flags.battery_capacity,
        selected(flags) == Query::Usage <==> !(flags.battery || flags.battery_state
            || flags.battery_capacity || flags.volume_level || flags.backlight || flags.memory),
{
}

} // verus!
