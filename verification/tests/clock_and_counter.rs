use gpio_display::counter::{
    effective_delay, Counter, DEFAULT_DELAY_MS, MAX_DELAY_MS, MAX_DIGIT, MIN_DIGIT,
};
use gpio_display::digital_clock::{ClockFormat, DigitalClock, DWELL_MS};
use gpio_display::gpio::{GpioError, Level};
use gpio_display::lines::{Action, LineBank};
use gpio_display::multiplex::Digits;
use gpio_display::pins::{resolve, PinLocation};
use gpio_display::segment::{segments_for, segments_in_blanking_order, Segment};

fn segment_line(seg: Segment) -> PinLocation {
    resolve(seg.gpio()).unwrap()
}

fn is_segment_line(line: PinLocation) -> bool {
    segments_in_blanking_order().into_iter().any(|s| segment_line(s) == line)
}

fn show_steps(digit: u8, delay: u64) -> Vec<Action> {
    let mut steps: Vec<Action> = segments_in_blanking_order()
        .into_iter()
        .map(|s| Action::Write { line: segment_line(s), level: Level::Low })
        .collect();
    for s in segments_for(digit) {
        steps.push(Action::Write { line: segment_line(s), level: Level::High });
    }
    steps.push(Action::Hold { millis: delay });
    steps
}

fn pass_steps(digits: &[u8], delay: u64) -> Vec<Action> {
    digits.iter().flat_map(|d| show_steps(*d, delay)).collect()
}

/// The digits of a clock face, read off the steps of one sweep: the glyph
/// put on the segment lines before each hold.
fn face_of(steps: &[Action]) -> (Vec<u8>, Vec<bool>) {
    let mut digits = Vec::new();
    let mut points = Vec::new();
    let mut lit: Vec<PinLocation> = Vec::new();
    for step in steps {
        match step {
            Action::Write { line, .. } if !is_segment_line(*line) => {}
            Action::Write { line, level: Level::High } => lit.push(*line),
            Action::Write { line, level: Level::Low } => lit.retain(|l| l != line),
            Action::Hold { .. } => {
                let point = lit.contains(&segment_line(Segment::DP));
                let digit = (0u8..=10)
                    .find(|d| {
                        let glyph: Vec<PinLocation> =
                            segments_for(*d).into_iter().map(segment_line).collect();
                        glyph.iter().all(|l| lit.contains(l))
                            && lit.iter().all(|l| {
                                glyph.contains(l) || *l == segment_line(Segment::DP)
                            })
                    })
                    .unwrap();
                digits.push(digit);
                points.push(point);
            }
            _ => {}
        }
    }
    (digits, points)
}

fn at(hour: u64, minute: u64, second: u64) -> u64 {
    19_000 * 86_400 + hour * 3_600 + minute * 60 + second
}

#[test]
fn twelve_hour_clock_maps_the_boundary_hours() {
    let mut bank = LineBank::new();
    let clock = DigitalClock::new(&mut bank, ClockFormat::TwelveHour).unwrap();
    assert_eq!(clock.get_current_time(at(0, 0, 0)), (12, 0));
    assert_eq!(clock.get_current_time(at(13, 0, 0)), (1, 0));
    assert_eq!(clock.get_current_time(at(23, 0, 0)), (11, 0));
    assert_eq!(clock.get_current_time(at(12, 0, 0)), (12, 0));
}

#[test]
fn twelve_hour_clock_maps_every_hour() {
    let mut bank = LineBank::new();
    let clock = DigitalClock::new(&mut bank, ClockFormat::TwelveHour).unwrap();
    let shown: [u8; 24] =
        [12, 1, 2, 3, 4, 5, 6, 7, 8, 9, 10, 11, 12, 1, 2, 3, 4, 5, 6, 7, 8, 9, 10, 11];
    for hour in 0u64..24 {
        assert_eq!(clock.get_current_time(at(hour, 30, 59)), (shown[hour as usize], 30));
    }
}

#[test]
fn twenty_four_hour_clock_passes_the_hour_through() {
    let mut bank = LineBank::new();
    let clock = DigitalClock::new(&mut bank, ClockFormat::TwentyFourHour).unwrap();
    for hour in 0u64..24 {
        assert_eq!(clock.get_current_time(at(hour, 7, 1)), (hour as u8, 7));
    }
}

#[test]
fn clock_reads_hours_and_minutes_off_the_epoch_seconds() {
    let mut bank = LineBank::new();
    let clock = DigitalClock::new(&mut bank, ClockFormat::TwentyFourHour).unwrap();
    assert_eq!(clock.get_current_time(0), (0, 0));
    assert_eq!(clock.get_current_time(59), (0, 0));
    assert_eq!(clock.get_current_time(60), (0, 1));
    assert_eq!(clock.get_current_time(3_599), (0, 59));
    assert_eq!(clock.get_current_time(3_600), (1, 0));
    assert_eq!(clock.get_current_time(86_399), (23, 59));
    assert_eq!(clock.get_current_time(86_400), (0, 0));
    assert_eq!(clock.get_current_time(1_700_000_000), (22, 13));
    assert_eq!(clock.get_current_time(u64::MAX), (7, 0));
}

#[test]
fn display_time_sweeps_the_four_digits_of_the_time() {
    let mut bank = LineBank::new();
    let mut clock = DigitalClock::new(&mut bank, ClockFormat::TwentyFourHour).unwrap();
    bank.take_pending();
    assert_eq!(clock.display_time(&mut bank, at(21, 45, 10)), Ok(()));
    let steps = bank.take_pending();
    let (digits, points) = face_of(&steps);
    assert_eq!(digits, vec![2, 1, 4, 5]);
    assert_eq!(points, vec![false, false, true, false]);
    let holds: Vec<u64> = steps
        .iter()
        .filter_map(|s| if let Action::Hold { millis } = s { Some(*millis) } else { None })
        .collect();
    assert_eq!(holds, vec![DWELL_MS; 4]);
    assert_eq!(DWELL_MS, 3);
    assert!(holds.iter().sum::<u64>() < 16);
}

#[test]
fn display_time_in_twelve_hour_format() {
    let mut bank = LineBank::new();
    let mut clock = DigitalClock::new(&mut bank, ClockFormat::TwelveHour).unwrap();
    bank.take_pending();
    clock.display_time(&mut bank, at(0, 5, 0)).unwrap();
    assert_eq!(face_of(&bank.take_pending()).0, vec![1, 2, 0, 5]);
    clock.display_time(&mut bank, at(15, 59, 59)).unwrap();
    assert_eq!(face_of(&bank.take_pending()).0, vec![0, 3, 5, 9]);
}

#[test]
fn display_time_matches_a_sweep_of_the_display() {
    let mut bank = LineBank::new();
    let mut clock = DigitalClock::new(&mut bank, ClockFormat::TwentyFourHour).unwrap();
    bank.take_pending();
    clock.display_time(&mut bank, at(9, 30, 0)).unwrap();
    let by_clock = bank.take_pending();
    clock.release(&mut bank);
    bank.take_pending();
    let mut display = gpio_display::multiplex::SevenSegmentDisplay::new(&mut bank).unwrap();
    bank.take_pending();
    display.sweep(&mut bank, [0, 9, 3, 0], Some(Digits::D_3), 3).unwrap();
    assert_eq!(by_clock, bank.take_pending());
}

#[test]
fn a_released_clock_refuses_to_display() {
    let mut bank = LineBank::new();
    let mut clock = DigitalClock::new(&mut bank, ClockFormat::TwelveHour).unwrap();
    clock.release(&mut bank);
    bank.take_pending();
    assert_eq!(clock.display_time(&mut bank, at(1, 2, 3)), Err(GpioError::NotExported));
    assert_eq!(bank.pending_len(), 0);
    clock.release(&mut bank);
    assert_eq!(bank.pending_len(), 0);
}

#[test]
fn second_clock_on_the_same_bank_is_busy() {
    let mut bank = LineBank::new();
    let _clock = DigitalClock::new(&mut bank, ClockFormat::TwelveHour).unwrap();
    let second = DigitalClock::new(&mut bank, ClockFormat::TwentyFourHour);
    assert_eq!(second.err(), Some(GpioError::LineInUse));
}

#[test]
fn delay_above_the_maximum_falls_back_to_the_default() {
    assert_eq!(MAX_DELAY_MS, 9999);
    assert_eq!(DEFAULT_DELAY_MS, 1000);
    assert_eq!(effective_delay(0), 0);
    assert_eq!(effective_delay(1), 1);
    assert_eq!(effective_delay(1000), 1000);
    assert_eq!(effective_delay(9999), 9999);
    assert_eq!(effective_delay(10000), 1000);
    assert_eq!(effective_delay(u64::MAX), 1000);
}

#[test]
fn counter_limits() {
    assert_eq!(MIN_DIGIT, 0);
    assert_eq!(MAX_DIGIT, 10);
}

#[test]
fn show_sets_the_digit_and_holds() {
    let mut bank = LineBank::new();
    let mut counter = Counter::new(&mut bank).unwrap();
    assert_eq!(bank.take_pending().len(), 8);
    assert_eq!(counter.show(&mut bank, 6, 250), Ok(()));
    assert_eq!(bank.take_pending(), show_steps(6, 250));
}

#[test]
fn count_up_shows_zero_to_ten() {
    let mut bank = LineBank::new();
    let mut counter = Counter::new(&mut bank).unwrap();
    bank.take_pending();
    assert_eq!(counter.count_up(&mut bank, 100), Ok(()));
    assert_eq!(bank.take_pending(), pass_steps(&[0, 1, 2, 3, 4, 5, 6, 7, 8, 9, 10], 100));
}

#[test]
fn count_down_shows_ten_to_zero() {
    let mut bank = LineBank::new();
    let mut counter = Counter::new(&mut bank).unwrap();
    bank.take_pending();
    assert_eq!(counter.count_down(&mut bank, 7), Ok(()));
    assert_eq!(bank.take_pending(), pass_steps(&[10, 9, 8, 7, 6, 5, 4, 3, 2, 1, 0], 7));
}

#[test]
fn count_updown_shows_zero_to_nine_then_ten_to_one() {
    let mut bank = LineBank::new();
    let mut counter = Counter::new(&mut bank).unwrap();
    bank.take_pending();
    assert_eq!(counter.count_updown(&mut bank, 0), Ok(()));
    assert_eq!(
        bank.take_pending(),
        pass_steps(&[0, 1, 2, 3, 4, 5, 6, 7, 8, 9, 10, 9, 8, 7, 6, 5, 4, 3, 2, 1], 0)
    );
}

#[test]
fn count_random_shows_one_decimal_digit() {
    let mut bank = LineBank::new();
    let mut counter = Counter::new(&mut bank).unwrap();
    bank.take_pending();
    for _ in 0..200 {
        assert_eq!(counter.count_random(&mut bank, 40), Ok(()));
        let steps = bank.take_pending();
        assert!((0u8..10).any(|d| steps == show_steps(d, 40)));
    }
}

#[test]
fn count_random_does_not_always_show_the_low_end() {
    let mut bank = LineBank::new();
    let mut counter = Counter::new(&mut bank).unwrap();
    bank.take_pending();
    let mut seen = [false; 10];
    for _ in 0..400 {
        counter.count_random(&mut bank, 1).unwrap();
        let steps = bank.take_pending();
        let digit = (0u8..10).find(|d| steps == show_steps(*d, 1)).unwrap();
        seen[digit as usize] = true;
    }
    assert!(seen.iter().filter(|s| **s).count() >= 2);
}

#[test]
fn a_released_counter_refuses_to_count() {
    let mut bank = LineBank::new();
    let mut counter = Counter::new(&mut bank).unwrap();
    counter.release(&mut bank);
    bank.take_pending();
    assert_eq!(counter.count_up(&mut bank, 1), Err(GpioError::NotExported));
    assert_eq!(counter.count_down(&mut bank, 1), Err(GpioError::NotExported));
    assert_eq!(counter.count_updown(&mut bank, 1), Err(GpioError::NotExported));
    assert_eq!(counter.count_random(&mut bank, 1), Err(GpioError::NotExported));
    assert_eq!(counter.show(&mut bank, 3, 1), Err(GpioError::NotExported));
    assert_eq!(bank.pending_len(), 0);
}

#[test]
fn second_counter_on_the_same_bank_is_busy() {
    let mut bank = LineBank::new();
    let _counter = Counter::new(&mut bank).unwrap();
    assert_eq!(Counter::new(&mut bank).err(), Some(GpioError::LineInUse));
}
