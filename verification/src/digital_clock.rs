//! A clock on the four-digit display: hours on the left pair of digits,
//! minutes on the right pair.

use vstd::prelude::*;
use crate::gpio::{GpioError, GpioResult};
use crate::lines::LineBank;
use crate::multiplex::{
    all_hidden, digit_lines, digit_release_steps, digit_request_steps, lines_busy, only_shown,
    pointed_levels, sweep_steps, Digits, SevenSegmentDisplay,
};
use crate::seven_segment::{all_dark, blank_steps, release_steps, request_steps, segment_lines};

verus! {

/// How the hour is shown.
#[derive(Debug, Clone, Copy, PartialEq, Eq, Hash, Structural)]
pub enum ClockFormat {
    TwelveHour,
    TwentyFourHour,
}

/// Time, in milliseconds, for which each digit of the clock is shown
/// before the next one takes over.
pub const DWELL_MS: u64 = 3;

/// The hour of the day, 0 to 23, at `secs` seconds since midnight of
/// 1 January 1970.
pub open spec fn hour_of_day(secs: u64) -> int {
    ((secs as int) % 86400) / 3600
}

/// The minute of the hour, 0 to 59, at `secs` seconds since midnight of
/// 1 January 1970.
pub open spec fn minute_of_hour(secs: u64) -> int {
    ((secs as int) % 3600) / 60
}

/// The hour as `format` shows it. A twelve-hour clock shows midnight as
/// 12, the hours after noon less twelve, and the others as they are.
pub open spec fn shown_hour(format: ClockFormat, hour: int) -> int {
    match format {
        ClockFormat::TwentyFourHour => hour,
        ClockFormat::TwelveHour => if hour == 0 {
            12
        } else if hour > 12 {
            hour - 12
        } else {
            hour
        },
    }
}

/// The four digits of the clock face, left to right: tens and units of
/// the hour, tens and units of the minute.
pub open spec fn face_digits(hours: int, minutes: int) -> Seq<u8> {
    seq![(hours / 10) as u8, (hours % 10) as u8, (minutes / 10) as u8, (minutes % 10) as u8]
}

/// The four digits that a clock of `format` shows at `secs` seconds since
/// midnight of 1 January 1970.
pub open spec fn clock_face(format: ClockFormat, secs: u64) -> Seq<u8> {
    face_digits(shown_hour(format, hour_of_day(secs)), minute_of_hour(secs))
}

/// The shown hour lies on the clock face: 1 to 12 on a twelve-hour clock,
/// 0 to 23 on a twenty-four-hour one, and the minute lies below 60.
pub proof fn lemma_clock_ranges(format: ClockFormat, secs: u64)
    ensures
        0 <= hour_of_day(secs) < 24,
        0 <= minute_of_hour(secs) < 60,
        format == ClockFormat::TwelveHour ==> 1 <= shown_hour(format, hour_of_day(secs)) <= 12,
        format == ClockFormat::TwentyFourHour
            ==> shown_hour(format, hour_of_day(secs)) == hour_of_day(secs),
{
}

/// A clock that shows the time on the four-digit display.
pub struct DigitalClock {
    display: SevenSegmentDisplay,
    format: ClockFormat,
}

impl DigitalClock {
    /// The clock's display is well-formed.
    pub closed spec fn wf(&self) -> bool {
        self.display.wf()
    }

    /// The display the clock drives.
    pub closed spec fn display(&self) -> SevenSegmentDisplay {
        self.display
    }

    /// How the clock shows the hour.
    pub closed spec fn format(&self) -> ClockFormat {
        self.format
    }

    /// A clock on a freshly leased display.
    pub fn new(bank: &mut LineBank, format: ClockFormat) -> (r: GpioResult<DigitalClock>)
        ensures
            lines_busy(old(bank).held()) ==> {
                &&& r.is_err()
                &&& r->Err_0 == GpioError::LineInUse
                &&& *final(bank) == *old(bank)
            },
            !lines_busy(old(bank).held()) ==> {
                &&& r.is_ok()
                &&& r->Ok_0.wf()
                &&& r->Ok_0.format() == format
                &&& r->Ok_0.display().live()
                &&& r->Ok_0.display().levels() == all_dark()
                &&& r->Ok_0.display().selects() == all_hidden()
                &&& final(bank).held()
                    == old(bank).held().union(segment_lines()).union(digit_lines())
                &&& final(bank).pending()
                    == old(bank).pending() + request_steps() + digit_request_steps()
            },
    {
        match SevenSegmentDisplay::new(bank) {
            Err(e) => Err(e),
            Ok(display) => Ok(DigitalClock { display, format }),
        }
    }

    /// The hour, as the clock shows it, and the minute at `now`, given in
    /// seconds since midnight of 1 January 1970.
    pub fn get_current_time(&self, now: u64) -> (time: (u8, u8))
        ensures
            time.0 == shown_hour(self.format(), hour_of_day(now)),
            time.1 == minute_of_hour(now),
    {
        let seconds: u64 = now % (60 * 60 * 24);
        let hours: u8 = (seconds / (60 * 60)) as u8;
        let minutes: u8 = ((seconds % (60 * 60)) / 60) as u8;
        assert((now % 86400) % 3600 == now % 3600) by (nonlinear_arith);
        let display_hours: u8 = match self.format {
            ClockFormat::TwelveHour => {
                if hours == 0 {
                    12
                } else if hours > 12 {
                    hours - 12
                } else {
                    hours
                }
            },
            ClockFormat::TwentyFourHour => hours,
        };
        (display_hours, minutes)
    }

    /// One sweep of the display that shows the time at `now`: each digit
    /// for `DWELL_MS` milliseconds, the decimal point lit at the third
    /// position.
    pub fn display_time(&mut self, bank: &mut LineBank, now: u64) -> (r: GpioResult<()>)
        requires
            old(self).wf(),
        ensures
            final(self).wf(),
            final(self).format() == old(self).format(),
            final(self).display().live() == old(self).display().live(),
            final(bank).held() == old(bank).held(),
            !old(self).display().live() ==> {
                &&& r == Err::<(), GpioError>(GpioError::NotExported)
                &&& final(self).display().levels() == old(self).display().levels()
                &&& final(self).display().selects() == old(self).display().selects()
                &&& *final(bank) == *old(bank)
            },
            old(self).display().live() ==> {
                &&& r.is_ok()
                &&& final(self).display().levels()
                    == pointed_levels(minute_of_hour(now) as u8 % 10, false)
                &&& final(self).display().selects() == only_shown(Digits::D_4)
                &&& final(bank).pending() == old(bank).pending() + sweep_steps(
                    clock_face(old(self).format(), now),
                    Some(Digits::D_3),
                    DWELL_MS,
                )
            },
    {
        let (hours, minutes) = self.get_current_time(now);
        let digits: [u8; 4] = [hours / 10, hours % 10, minutes / 10, minutes % 10];
        assert(digits@ =~= face_digits(
            shown_hour(self.format(), hour_of_day(now)),
            minute_of_hour(now),
        ));
        self.display.sweep(bank, digits, Some(Digits::D_3), DWELL_MS)
    }

    /// Ends the clock's life: the segments are switched off and the lines
    /// given back.
    pub fn release(&mut self, bank: &mut LineBank)
        requires
            old(self).wf(),
        ensures
            final(self).wf(),
            final(self).format() == old(self).format(),
            !final(self).display().live(),
            !old(self).display().live() ==> *final(bank) == *old(bank),
            old(self).display().live() ==> {
                &&& final(self).display().levels() == all_dark()
                &&& final(bank).held()
                    == old(bank).held().difference(segment_lines()).difference(digit_lines())
                &&& final(bank).pending()
                    == old(bank).pending() + blank_steps() + release_steps() + digit_release_steps()
            },
    {
        self.display.release(bank);
    }
}

} // verus!
