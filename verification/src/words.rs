//! The words of the command line and of the LED control files.

use vstd::prelude::*;
use vstd::string::StringExecFns;
use crate::digital_clock::ClockFormat;

verus! {

/// Whether two strings hold the same text.
pub fn same_text(a: &str, b: &str) -> (same: bool)
    ensures
        same == (a@ == b@),
{
    let x: String = a.to_owned();
    let y: String = b.to_owned();
    x == y
}

/// The way a counter counts.
#[derive(Debug, Clone, Copy, PartialEq, Eq, Structural)]
pub enum CountMode {
    Up,
    Down,
    UpDown,
    Random,
}

/// The mode that `word` names, if it names one.
pub open spec fn spec_count_mode(word: Seq<char>) -> Option<CountMode> {
    if word == "up"@ {
        Some(CountMode::Up)
    } else if word == "down"@ {
        Some(CountMode::Down)
    } else if word == "updown"@ {
        Some(CountMode::UpDown)
    } else if word == "random"@ {
        Some(CountMode::Random)
    } else {
        None
    }
}

/// Reads a counting mode: `up`, `down`, `updown` or `random`.
pub fn count_mode(word: &str) -> (mode: Option<CountMode>)
    ensures
        mode == spec_count_mode(word@),
{
    if same_text(word, "up") {
        Some(CountMode::Up)
    } else if same_text(word, "down") {
        Some(CountMode::Down)
    } else if same_text(word, "updown") {
        Some(CountMode::UpDown)
    } else if same_text(word, "random") {
        Some(CountMode::Random)
    } else {
        None
    }
}

/// The clock format that `word` names, if it names one.
pub open spec fn spec_clock_format(word: Seq<char>) -> Option<ClockFormat> {
    if word == "12h"@ {
        Some(ClockFormat::TwelveHour)
    } else if word == "24h"@ {
        Some(ClockFormat::TwentyFourHour)
    } else {
        None
    }
}

/// Reads a clock format: `12h` or `24h`.
pub fn clock_format(word: &str) -> (format: Option<ClockFormat>)
    ensures
        format == spec_clock_format(word@),
{
    if same_text(word, "12h") {
        Some(ClockFormat::TwelveHour)
    } else if same_text(word, "24h") {
        Some(ClockFormat::TwentyFourHour)
    } else {
        None
    }
}

/// A control file of a user LED.
#[derive(Debug, Clone, Copy, PartialEq, Eq, Structural)]
pub enum LedControl {
    Brightness,
    Trigger,
}

/// The control that `word` names, if it names one.
pub open spec fn spec_led_control(word: Seq<char>) -> Option<LedControl> {
    if word == "brightness"@ {
        Some(LedControl::Brightness)
    } else if word == "trigger"@ {
        Some(LedControl::Trigger)
    } else {
        None
    }
}

/// Reads the name of a control file: `brightness` or `trigger`.
pub fn led_control(word: &str) -> (control: Option<LedControl>)
    ensures
        control == spec_led_control(word@),
{
    if same_text(word, "brightness") {
        Some(LedControl::Brightness)
    } else if same_text(word, "trigger") {
        Some(LedControl::Trigger)
    } else {
        None
    }
}

/// Whether `value` may be written to `control`: a brightness is `0` or
/// `1`, a trigger is one of `heartbeat`, `timer`, `none`, `default-on` and
/// `oneshot`.
pub open spec fn led_value_ok(control: LedControl, value: Seq<char>) -> bool {
    match control {
        LedControl::Brightness => value == "0"@ || value == "1"@,
        LedControl::Trigger => value == "heartbeat"@ || value == "timer"@ || value == "none"@
            || value == "default-on"@ || value == "oneshot"@,
    }
}

/// Whether `value` may be written to `control`.
pub fn is_led_value(control: LedControl, value: &str) -> (ok: bool)
    ensures
        ok == led_value_ok(control, value@),
{
    match control {
        LedControl::Brightness => same_text(value, "0") || same_text(value, "1"),
        LedControl::Trigger => same_text(value, "heartbeat") || same_text(value, "timer")
            || same_text(value, "none") || same_text(value, "default-on") || same_text(
            value,
            "oneshot",
        ),
    }
}

/// The path of the control file `control` of user LED `led`.
pub open spec fn led_path(led: Seq<char>, control: LedControl) -> Seq<char> {
    "/sys/class/leds/beaglebone:green:usr"@ + led + match control {
        LedControl::Brightness => "/brightness"@,
        LedControl::Trigger => "/trigger"@,
    }
}

/// The path of the control file `control` of user LED `led`.
pub fn led_control_path(led: &str, control: LedControl) -> (path: String)
    ensures
        path@ == led_path(led@, control),
{
    let mut path = String::from_str("/sys/class/leds/beaglebone:green:usr");
    path.append(led);
    match control {
        LedControl::Brightness => path.append("/brightness"),
        LedControl::Trigger => path.append("/trigger"),
    }
    path
}

} // verus!
