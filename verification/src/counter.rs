//! A counter on the single-digit display.

use vstd::prelude::*;
use crate::gpio::{GpioError, GpioResult};
use crate::lines::{Action, LineBank};
use crate::seven_segment::{
    all_dark, blank_steps, digit_steps, glyph_levels, release_steps, request_steps,
    segment_lines, segments_busy, SevenSegmentDisplay,
};

verus! {

/// The largest value the counter shows: the wrap glyph.
pub const MAX_DIGIT: u8 = 10;

/// The smallest value the counter shows.
pub const MIN_DIGIT: u8 = 0;

/// The longest delay, in milliseconds, that a caller may ask for.
pub const MAX_DELAY_MS: u64 = 9999;

/// The delay, in milliseconds, used in place of one that is too long.
pub const DEFAULT_DELAY_MS: u64 = 1000;

/// The delay to count with when `requested` was asked for: a delay above
/// `MAX_DELAY_MS` is replaced by `DEFAULT_DELAY_MS`.
pub fn effective_delay(requested: u64) -> (delay: u64)
    ensures
        requested <= MAX_DELAY_MS ==> delay == requested,
        requested > MAX_DELAY_MS ==> delay == DEFAULT_DELAY_MS,
{
    if requested > MAX_DELAY_MS {
        DEFAULT_DELAY_MS
    } else {
        requested
    }
}

/// The steps that show `digit` and leave it standing for `delay`
/// milliseconds.
pub open spec fn show_steps(digit: u8, delay: u64) -> Seq<Action> {
    digit_steps(digit) + seq![Action::Hold { millis: delay }]
}

/// The steps that show each of `digits` in turn, each for `delay`
/// milliseconds.
pub open spec fn pass_steps(digits: Seq<u8>, delay: u64) -> Seq<Action>
    decreases digits.len(),
{
    if digits.len() == 0 {
        Seq::<Action>::empty()
    } else {
        pass_steps(digits.drop_last(), delay) + show_steps(digits.last(), delay)
    }
}

/// The values of one pass upwards: 0 to 10.
pub open spec fn up_digits() -> Seq<u8> {
    Seq::new(11, |i: int| i as u8)
}

/// The values of one pass downwards: 10 to 0.
pub open spec fn down_digits() -> Seq<u8> {
    Seq::new(11, |i: int| (10 - i) as u8)
}

/// The values of one pass up and down again: 0 to 9, then 10 to 1.
pub open spec fn updown_digits() -> Seq<u8> {
    Seq::new(
        20,
        |i: int|
            if i < 10 {
                i as u8
            } else {
                (20 - i) as u8
            },
    )
}

/// `rand::random_range` on the half-open range from `low` to `high`: it
/// draws from the thread's generator, so all that is known of the result is
/// that it lies in the range. The range must not be empty.
#[verifier::external_body]
fn random_in(low: u8, high: u8) -> (r: u8)
    requires
        low < high,
    ensures
        low <= r < high,
{
    rand::random_range(low..high)
}

/// A counter that shows one value at a time.
pub struct Counter {
    display: SevenSegmentDisplay,
}

impl Counter {
    /// The counter's display is well-formed.
    pub closed spec fn wf(&self) -> bool {
        self.display.wf()
    }

    /// The display the counter drives.
    pub closed spec fn display(&self) -> SevenSegmentDisplay {
        self.display
    }

    /// A counter on a freshly leased display.
    pub fn new(bank: &mut LineBank) -> (r: GpioResult<Counter>)
        ensures
            segments_busy(old(bank).held()) ==> {
                &&& r.is_err()
                &&& r->Err_0 == GpioError::LineInUse
                &&& *final(bank) == *old(bank)
            },
            !segments_busy(old(bank).held()) ==> {
                &&& r.is_ok()
                &&& r->Ok_0.wf()
                &&& r->Ok_0.display().live()
                &&& r->Ok_0.display().levels() == all_dark()
                &&& final(bank).held() == old(bank).held().union(segment_lines())
                &&& final(bank).pending() == old(bank).pending() + request_steps()
            },
    {
        match SevenSegmentDisplay::new(bank) {
            Err(e) => Err(e),
            Ok(display) => Ok(Counter { display }),
        }
    }

    /// Shows `digit` and leaves it standing for `delay` milliseconds.
    pub fn show(&mut self, bank: &mut LineBank, digit: u8, delay: u64) -> (r: GpioResult<()>)
        requires
            old(self).wf(),
        ensures
            final(self).wf(),
            final(self).display().live() == old(self).display().live(),
            final(bank).held() == old(bank).held(),
            !old(self).display().live() ==> {
                &&& r == Err::<(), GpioError>(GpioError::NotExported)
                &&& final(self).display().levels() == old(self).display().levels()
                &&& *final(bank) == *old(bank)
            },
            old(self).display().live() ==> {
                &&& r.is_ok()
                &&& final(self).display().levels() == glyph_levels(digit)
                &&& final(bank).pending() == old(bank).pending() + show_steps(digit, delay)
            },
    {
        match self.display.set_digit(bank, digit) {
            Err(e) => {
                return Err(e);
            },
            Ok(()) => {},
        }
        bank.hold(delay);
        assert(bank.pending() =~= old(bank).pending() + show_steps(digit, delay));
        Ok(())
    }

    /// Shows each of `digits` in turn, each for `delay` milliseconds.
    fn pass(&mut self, bank: &mut LineBank, digits: &Vec<u8>, delay: u64) -> (r: GpioResult<()>)
        requires
            old(self).wf(),
            digits@.len() > 0,
        ensures
            final(self).wf(),
            final(self).display().live() == old(self).display().live(),
            final(bank).held() == old(bank).held(),
            !old(self).display().live() ==> {
                &&& r == Err::<(), GpioError>(GpioError::NotExported)
                &&& final(self).display().levels() == old(self).display().levels()
                &&& *final(bank) == *old(bank)
            },
            old(self).display().live() ==> {
                &&& r.is_ok()
                &&& final(self).display().levels() == glyph_levels(digits@.last())
                &&& final(bank).pending() == old(bank).pending() + pass_steps(digits@, delay)
            },
    {
        let mut i: usize = 0;
        assert(digits@.take(0) =~= Seq::<u8>::empty());
        assert(old(bank).pending() + pass_steps(digits@.take(0), delay) =~= old(bank).pending());
        while i < digits.len()
            invariant
                i <= digits@.len(),
                digits@.len() > 0,
                self.wf(),
                self.display().live() == old(self).display().live(),
                bank.held() == old(bank).held(),
                i == 0 ==> self.display().levels() == old(self).display().levels(),
                i > 0 ==> {
                    &&& old(self).display().live()
                    &&& self.display().levels() == glyph_levels(digits@[i - 1])
                },
                !old(self).display().live() ==> *bank == *old(bank),
                old(self).display().live() ==> bank.pending() == old(bank).pending() + pass_steps(
                    digits@.take(i as int),
                    delay,
                ),
            decreases digits@.len() - i,
        {
            let ghost before = bank.pending();
            match self.show(bank, digits[i], delay) {
                Err(e) => {
                    return Err(e);
                },
                Ok(()) => {},
            }
            proof {
                let next = digits@.take(i as int + 1);
                assert(next.drop_last() =~= digits@.take(i as int));
                assert(next.last() == digits@[i as int]);
                assert(before + show_steps(digits@[i as int], delay) =~= old(bank).pending()
                    + pass_steps(next, delay));
            }
            i += 1;
        }
        assert(digits@.take(i as int) =~= digits@);
        Ok(())
    }

    /// One pass upwards: 0 to 10, each value for `delay` milliseconds.
    pub fn count_up(&mut self, bank: &mut LineBank, delay: u64) -> (r: GpioResult<()>)
        requires
            old(self).wf(),
        ensures
            final(self).wf(),
            final(self).display().live() == old(self).display().live(),
            final(bank).held() == old(bank).held(),
            !old(self).display().live() ==> {
                &&& r == Err::<(), GpioError>(GpioError::NotExported)
                &&& final(self).display().levels() == old(self).display().levels()
                &&& *final(bank) == *old(bank)
            },
            old(self).display().live() ==> {
                &&& r.is_ok()
                &&& final(self).display().levels() == glyph_levels(MAX_DIGIT)
                &&& final(bank).pending() == old(bank).pending() + pass_steps(up_digits(), delay)
            },
    {
        let mut digits: Vec<u8> = Vec::new();
        let mut d: u8 = MIN_DIGIT;
        while d <= MAX_DIGIT
            invariant
                d <= MAX_DIGIT + 1,
                digits@.len() == d,
                forall|k: int| 0 <= k < d ==> digits@[k] == k,
            decreases MAX_DIGIT + 1 - d,
        {
            digits.push(d);
            d += 1;
        }
        assert(digits@ =~= up_digits());
        self.pass(bank, &digits, delay)
    }

    /// One pass downwards: 10 to 0, each value for `delay` milliseconds.
    pub fn count_down(&mut self, bank: &mut LineBank, delay: u64) -> (r: GpioResult<()>)
        requires
            old(self).wf(),
        ensures
            final(self).wf(),
            final(self).display().live() == old(self).display().live(),
            final(bank).held() == old(bank).held(),
            !old(self).display().live() ==> {
                &&& r == Err::<(), GpioError>(GpioError::NotExported)
                &&& final(self).display().levels() == old(self).display().levels()
                &&& *final(bank) == *old(bank)
            },
            old(self).display().live() ==> {
                &&& r.is_ok()
                &&& final(self).display().levels() == glyph_levels(MIN_DIGIT)
                &&& final(bank).pending() == old(bank).pending() + pass_steps(down_digits(), delay)
            },
    {
        let mut digits: Vec<u8> = Vec::new();
        let mut n: u8 = 0;
        while n <= MAX_DIGIT - MIN_DIGIT
            invariant
                n <= MAX_DIGIT - MIN_DIGIT + 1,
                digits@.len() == n,
                forall|k: int| 0 <= k < n ==> digits@[k] == MAX_DIGIT - k,
            decreases MAX_DIGIT - MIN_DIGIT + 1 - n,
        {
            digits.push(MAX_DIGIT - n);
            n += 1;
        }
        assert(digits@ =~= down_digits());
        self.pass(bank, &digits, delay)
    }

    /// One pass up and down again: 0 to 9, then 10 to 1, each value for
    /// `delay` milliseconds.
    pub fn count_updown(&mut self, bank: &mut LineBank, delay: u64) -> (r: GpioResult<()>)
        requires
            old(self).wf(),
        ensures
            final(self).wf(),
            final(self).display().live() == old(self).display().live(),
            final(bank).held() == old(bank).held(),
            !old(self).display().live() ==> {
                &&& r == Err::<(), GpioError>(GpioError::NotExported)
                &&& final(self).display().levels() == old(self).display().levels()
                &&& *final(bank) == *old(bank)
            },
            old(self).display().live() ==> {
                &&& r.is_ok()
                &&& final(self).display().levels() == glyph_levels(1)
                &&& final(bank).pending()
                    == old(bank).pending() + pass_steps(updown_digits(), delay)
            },
    {
        let mut digits: Vec<u8> = Vec::new();
        let mut d: u8 = MIN_DIGIT;
        while d < MAX_DIGIT
            invariant
                d <= MAX_DIGIT,
                digits@.len() == d,
                forall|k: int| 0 <= k < d ==> digits@[k] == k,
            decreases MAX_DIGIT - d,
        {
            digits.push(d);
            d += 1;
        }
        let mut n: u8 = 0;
        while n < MAX_DIGIT - MIN_DIGIT
            invariant
                n <= MAX_DIGIT - MIN_DIGIT,
                digits@.len() == 10 + n,
                forall|k: int| 0 <= k < 10 ==> digits@[k] == k,
                forall|k: int| 10 <= k < 10 + n ==> digits@[k] == 20 - k,
            decreases MAX_DIGIT - MIN_DIGIT - n,
        {
            digits.push(MAX_DIGIT - n);
            n += 1;
        }
        assert(digits@ =~= updown_digits());
        self.pass(bank, &digits, delay)
    }

    /// Shows a value drawn at random from 0 to 9 for `delay` milliseconds.
    pub fn count_random(&mut self, bank: &mut LineBank, delay: u64) -> (r: GpioResult<()>)
        requires
            old(self).wf(),
        ensures
            final(self).wf(),
            final(self).display().live() == old(self).display().live(),
            final(bank).held() == old(bank).held(),
            !old(self).display().live() ==> {
                &&& r == Err::<(), GpioError>(GpioError::NotExported)
                &&& final(self).display().levels() == old(self).display().levels()
                &&& *final(bank) == *old(bank)
            },
            old(self).display().live() ==> r.is_ok(),
            old(self).display().live() ==> exists|digit: u8|
                {
                    &&& digit < 10
                    &&& final(self).display().levels() == glyph_levels(digit)
                    &&& final(bank).pending() == old(bank).pending() + #[trigger] show_steps(
                        digit,
                        delay,
                    )
                },
    {
        let digit: u8 = random_in(0, 10);
        self.show(bank, digit, delay)
    }

    /// Ends the counter's life: the segments are switched off and the
    /// lines given back.
    pub fn release(&mut self, bank: &mut LineBank)
        requires
            old(self).wf(),
        ensures
            final(self).wf(),
            !final(self).display().live(),
            !old(self).display().live() ==> *final(bank) == *old(bank),
            old(self).display().live() ==> {
                &&& final(self).display().levels() == all_dark()
                &&& final(bank).held() == old(bank).held().difference(segment_lines())
                &&& final(bank).pending() == old(bank).pending() + blank_steps() + release_steps()
            },
    {
        self.display.release(bank);
    }
}

} // verus!
