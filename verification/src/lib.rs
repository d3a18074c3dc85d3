//! Status queries for a laptop: battery, volume, backlight and memory, each
//! rendered as one short line of text from the raw text of its sensor.

pub mod backlight;
pub mod battery;
pub mod memory;
pub mod number;
pub mod query;
pub mod text;
pub mod volume;
