use gpio_display::gpio::{ActiveLevel, Direction, Edge, Gpio, GpioError, Level};
use gpio_display::lines::{Action, LineBank};
use gpio_display::pins::PinLocation;

const LINE: PinLocation = PinLocation { chip: 1, offset: 7 };
const OTHER: PinLocation = PinLocation { chip: 1, offset: 8 };

fn output(bank: &mut LineBank, initial: Level) -> Gpio {
    Gpio::acquire(bank, LINE, 39, Direction::Out, initial, Edge::Off, ActiveLevel::High).unwrap()
}

fn input(bank: &mut LineBank) -> Gpio {
    Gpio::acquire(bank, LINE, 39, Direction::In, Level::High, Edge::Off, ActiveLevel::High).unwrap()
}

#[test]
fn new_bank_holds_nothing() {
    let mut bank = LineBank::new();
    assert!(!bank.is_held(LINE));
    assert_eq!(bank.pending_len(), 0);
    assert_eq!(bank.take_pending(), Vec::<Action>::new());
}

#[test]
fn acquire_records_one_request_with_the_initial_level() {
    let mut bank = LineBank::new();
    let lease = output(&mut bank, Level::High);
    assert!(bank.is_held(LINE));
    assert!(!bank.is_held(OTHER));
    assert_eq!(lease.get_pin(), 39);
    assert_eq!(lease.get_line(), LINE);
    assert!(!lease.is_released());
    assert_eq!(lease.commanded(), Level::High);
    assert_eq!(
        bank.take_pending(),
        vec![Action::Request {
            line: LINE,
            direction: Direction::Out,
            active: ActiveLevel::High,
            edge: Edge::Off,
            initial: Level::High,
        }]
    );
}

#[test]
fn acquire_of_an_input_asks_for_low() {
    let mut bank = LineBank::new();
    let lease =
        Gpio::acquire(&mut bank, LINE, 39, Direction::In, Level::High, Edge::Rising, ActiveLevel::Low)
            .unwrap();
    assert_eq!(lease.commanded(), Level::Low);
    assert_eq!(
        bank.take_pending(),
        vec![Action::Request {
            line: LINE,
            direction: Direction::In,
            active: ActiveLevel::Low,
            edge: Edge::Rising,
            initial: Level::Low,
        }]
    );
}

#[test]
fn second_acquire_of_a_held_line_is_busy() {
    let mut bank = LineBank::new();
    let _first = output(&mut bank, Level::Low);
    let before = bank.pending_len();
    let second =
        Gpio::acquire(&mut bank, LINE, 39, Direction::In, Level::Low, Edge::Off, ActiveLevel::High);
    assert_eq!(second.err(), Some(GpioError::LineInUse));
    assert_eq!(bank.pending_len(), before);
    assert!(bank.is_held(LINE));
}

#[test]
fn release_then_acquire_again_succeeds() {
    let mut bank = LineBank::new();
    let mut first = output(&mut bank, Level::Low);
    assert!(Gpio::acquire(&mut bank, LINE, 39, Direction::Out, Level::Low, Edge::Off, ActiveLevel::High)
        .is_err());
    first.release(&mut bank);
    assert!(!bank.is_held(LINE));
    let again =
        Gpio::acquire(&mut bank, LINE, 39, Direction::Out, Level::High, Edge::Off, ActiveLevel::High);
    assert!(again.is_ok());
    assert!(bank.is_held(LINE));
}

#[test]
fn a_held_line_does_not_block_another_line() {
    let mut bank = LineBank::new();
    let _first = output(&mut bank, Level::Low);
    let other =
        Gpio::acquire(&mut bank, OTHER, 40, Direction::Out, Level::Low, Edge::Off, ActiveLevel::High);
    assert!(other.is_ok());
    assert!(bank.is_held(LINE));
    assert!(bank.is_held(OTHER));
}

#[test]
fn releasing_one_line_keeps_the_other_lease() {
    let mut bank = LineBank::new();
    let mut first = output(&mut bank, Level::Low);
    let _other =
        Gpio::acquire(&mut bank, OTHER, 40, Direction::Out, Level::Low, Edge::Off, ActiveLevel::High)
            .unwrap();
    first.release(&mut bank);
    assert!(!bank.is_held(LINE));
    assert!(bank.is_held(OTHER));
}

#[test]
fn release_twice_does_nothing_the_second_time() {
    let mut bank = LineBank::new();
    let mut lease = output(&mut bank, Level::Low);
    bank.take_pending();
    lease.release(&mut bank);
    assert!(lease.is_released());
    assert_eq!(bank.take_pending(), vec![Action::Release { line: LINE }]);
    lease.release(&mut bank);
    assert!(lease.is_released());
    assert_eq!(bank.pending_len(), 0);
    assert!(!bank.is_held(LINE));
}

#[test]
fn second_release_does_not_free_a_newer_lease() {
    let mut bank = LineBank::new();
    let mut old = output(&mut bank, Level::Low);
    old.release(&mut bank);
    let _newer = output(&mut bank, Level::Low);
    old.release(&mut bank);
    assert!(bank.is_held(LINE));
}

#[test]
fn event_detection_on_an_output_is_refused_on_a_free_line() {
    let mut bank = LineBank::new();
    for edge in [Edge::Rising, Edge::Falling, Edge::Both] {
        let r =
            Gpio::acquire(&mut bank, LINE, 39, Direction::Out, Level::Low, edge, ActiveLevel::High);
        assert_eq!(r.err(), Some(GpioError::WrongDirection));
        assert!(!bank.is_held(LINE));
        assert_eq!(bank.pending_len(), 0);
    }
}

#[test]
fn every_second_request_for_a_held_line_is_busy() {
    let mut bank = LineBank::new();
    let _held = output(&mut bank, Level::Low);
    bank.take_pending();
    for direction in [Direction::In, Direction::Out] {
        for level in [Level::Low, Level::High] {
            for edge in [Edge::Off, Edge::Rising, Edge::Falling, Edge::Both] {
                for active in [ActiveLevel::Low, ActiveLevel::High] {
                    let r = Gpio::acquire(&mut bank, LINE, 39, direction, level, edge, active);
                    assert_eq!(r.err(), Some(GpioError::LineInUse));
                    assert_eq!(bank.pending_len(), 0);
                    assert!(bank.is_held(LINE));
                }
            }
        }
    }
}

#[test]
fn set_value_writes_and_remembers() {
    let mut bank = LineBank::new();
    let mut lease = output(&mut bank, Level::Low);
    bank.take_pending();
    assert_eq!(lease.set_value(&mut bank, Level::High), Ok(()));
    assert_eq!(lease.commanded(), Level::High);
    assert_eq!(lease.read_value(None), Ok(Level::High));
    assert_eq!(lease.set_value(&mut bank, Level::Low), Ok(()));
    assert_eq!(lease.read_value(Some(Level::High)), Ok(Level::Low));
    assert_eq!(
        bank.take_pending(),
        vec![
            Action::Write { line: LINE, level: Level::High },
            Action::Write { line: LINE, level: Level::Low }
        ]
    );
}

#[test]
fn set_value_on_an_input_is_the_wrong_direction() {
    let mut bank = LineBank::new();
    let mut lease = input(&mut bank);
    bank.take_pending();
    assert_eq!(lease.set_value(&mut bank, Level::High), Err(GpioError::WrongDirection));
    assert_eq!(bank.pending_len(), 0);
    assert_eq!(lease.commanded(), Level::Low);
}

#[test]
fn set_value_after_release_is_not_exported() {
    let mut bank = LineBank::new();
    let mut lease = output(&mut bank, Level::Low);
    lease.release(&mut bank);
    bank.take_pending();
    assert_eq!(lease.set_value(&mut bank, Level::High), Err(GpioError::NotExported));
    assert_eq!(bank.pending_len(), 0);
}

#[test]
fn read_value_of_an_input_is_the_sample() {
    let mut bank = LineBank::new();
    let lease = input(&mut bank);
    assert_eq!(lease.read_value(Some(Level::High)), Ok(Level::High));
    assert_eq!(lease.read_value(Some(Level::Low)), Ok(Level::Low));
    assert_eq!(lease.read_value(None), Err(GpioError::InvalidValue));
}

#[test]
fn read_value_after_release_is_not_exported() {
    let mut bank = LineBank::new();
    let mut lease = input(&mut bank);
    lease.release(&mut bank);
    assert_eq!(lease.read_value(Some(Level::High)), Err(GpioError::NotExported));
}

#[test]
fn set_direction_gives_the_line_up_before_asking_again() {
    let mut bank = LineBank::new();
    let mut lease = output(&mut bank, Level::High);
    bank.take_pending();
    assert_eq!(lease.set_direction(&mut bank, Direction::In), Ok(()));
    assert_eq!(lease.read_direction(), Ok(Direction::In));
    assert_eq!(lease.commanded(), Level::Low);
    assert!(bank.is_held(LINE));
    assert_eq!(
        bank.take_pending(),
        vec![
            Action::Release { line: LINE },
            Action::Request {
                line: LINE,
                direction: Direction::In,
                active: ActiveLevel::High,
                edge: Edge::Off,
                initial: Level::Low,
            }
        ]
    );
}

#[test]
fn set_direction_after_release_is_not_exported() {
    let mut bank = LineBank::new();
    let mut lease = output(&mut bank, Level::High);
    lease.release(&mut bank);
    bank.take_pending();
    assert_eq!(lease.set_direction(&mut bank, Direction::In), Err(GpioError::NotExported));
    assert_eq!(lease.read_direction(), Ok(Direction::Out));
    assert_eq!(bank.pending_len(), 0);
}

#[test]
fn set_edge_off_is_a_no_op_in_every_state() {
    let mut bank = LineBank::new();
    let mut lease = output(&mut bank, Level::High);
    bank.take_pending();
    assert_eq!(lease.set_edge(&mut bank, Edge::Off), Ok(()));
    assert_eq!(bank.pending_len(), 0);
    lease.release(&mut bank);
    bank.take_pending();
    assert_eq!(lease.set_edge(&mut bank, Edge::Off), Ok(()));
    assert_eq!(bank.pending_len(), 0);
}

#[test]
fn set_edge_on_an_input_asks_again_with_detection() {
    let mut bank = LineBank::new();
    let mut lease = input(&mut bank);
    bank.take_pending();
    assert_eq!(lease.set_edge(&mut bank, Edge::Falling), Ok(()));
    assert_eq!(
        bank.take_pending(),
        vec![
            Action::Release { line: LINE },
            Action::Request {
                line: LINE,
                direction: Direction::In,
                active: ActiveLevel::High,
                edge: Edge::Falling,
                initial: Level::Low,
            }
        ]
    );
    assert!(bank.is_held(LINE));
}

#[test]
fn set_edge_on_an_output_is_the_wrong_direction() {
    let mut bank = LineBank::new();
    let mut lease = output(&mut bank, Level::High);
    bank.take_pending();
    assert_eq!(lease.set_edge(&mut bank, Edge::Rising), Err(GpioError::WrongDirection));
    assert_eq!(bank.pending_len(), 0);
}

#[test]
fn set_edge_after_release_is_not_exported() {
    let mut bank = LineBank::new();
    let mut lease = input(&mut bank);
    lease.release(&mut bank);
    assert_eq!(lease.set_edge(&mut bank, Edge::Rising), Err(GpioError::NotExported));
}

#[test]
fn read_edge_reports_both_on_a_held_input_only() {
    let mut bank = LineBank::new();
    let mut lease = input(&mut bank);
    assert_eq!(lease.read_edge(), Ok(Edge::Both));
    lease.set_direction(&mut bank, Direction::Out).unwrap();
    assert_eq!(lease.read_edge(), Ok(Edge::Off));
    lease.set_direction(&mut bank, Direction::In).unwrap();
    assert_eq!(lease.read_edge(), Ok(Edge::Both));
    lease.release(&mut bank);
    assert_eq!(lease.read_edge(), Ok(Edge::Off));
}

#[test]
fn set_active_low_asks_again_in_the_same_direction() {
    let mut bank = LineBank::new();
    let mut lease = output(&mut bank, Level::High);
    bank.take_pending();
    assert_eq!(lease.read_active_low(), Ok(ActiveLevel::High));
    assert_eq!(lease.set_active_low(&mut bank, ActiveLevel::Low), Ok(()));
    assert_eq!(lease.read_active_low(), Ok(ActiveLevel::Low));
    assert_eq!(lease.read_direction(), Ok(Direction::Out));
    assert_eq!(
        bank.take_pending(),
        vec![
            Action::Release { line: LINE },
            Action::Request {
                line: LINE,
                direction: Direction::Out,
                active: ActiveLevel::Low,
                edge: Edge::Off,
                initial: Level::Low,
            }
        ]
    );
}

#[test]
fn set_active_low_after_release_changes_nothing() {
    let mut bank = LineBank::new();
    let mut lease = output(&mut bank, Level::High);
    lease.release(&mut bank);
    assert_eq!(lease.set_active_low(&mut bank, ActiveLevel::Low), Err(GpioError::NotExported));
    assert_eq!(lease.read_active_low(), Ok(ActiveLevel::High));
}

#[test]
fn toggle_flips_the_commanded_level() {
    let mut bank = LineBank::new();
    let mut lease = output(&mut bank, Level::Low);
    bank.take_pending();
    assert_eq!(lease.toggle(&mut bank), Ok(()));
    assert_eq!(lease.commanded(), Level::High);
    assert_eq!(lease.toggle(&mut bank), Ok(()));
    assert_eq!(lease.commanded(), Level::Low);
    assert_eq!(
        bank.take_pending(),
        vec![
            Action::Write { line: LINE, level: Level::High },
            Action::Write { line: LINE, level: Level::Low }
        ]
    );
}

#[test]
fn toggle_needs_a_held_output() {
    let mut bank = LineBank::new();
    let mut lease = input(&mut bank);
    assert_eq!(lease.toggle(&mut bank), Err(GpioError::WrongDirection));
    lease.release(&mut bank);
    assert_eq!(lease.toggle(&mut bank), Err(GpioError::NotExported));
}

#[test]
fn level_toggled_is_the_other_level() {
    assert_eq!(Level::Low.toggled(), Level::High);
    assert_eq!(Level::High.toggled(), Level::Low);
}

#[test]
fn os_errors_are_classified() {
    assert_eq!(GpioError::from_os_error(16), GpioError::LineInUse);
    assert_eq!(GpioError::from_os_error(1), GpioError::Permission);
    assert_eq!(GpioError::from_os_error(13), GpioError::Permission);
    assert_eq!(GpioError::from_os_error(2), GpioError::NotFound);
    assert_eq!(GpioError::from_os_error(6), GpioError::NotFound);
    assert_eq!(GpioError::from_os_error(19), GpioError::NotFound);
    assert_eq!(GpioError::from_os_error(5), GpioError::Io(5));
    assert_eq!(GpioError::from_os_error(22), GpioError::Io(22));
    assert_eq!(GpioError::from_os_error(0), GpioError::Io(0));
    assert_eq!(GpioError::from_os_error(-1), GpioError::Io(-1));
}

#[test]
fn hold_is_recorded_in_order() {
    let mut bank = LineBank::new();
    let mut lease = output(&mut bank, Level::Low);
    bank.take_pending();
    lease.set_value(&mut bank, Level::High).unwrap();
    bank.hold(250);
    lease.set_value(&mut bank, Level::Low).unwrap();
    assert_eq!(bank.pending_len(), 3);
    assert_eq!(
        bank.take_pending(),
        vec![
            Action::Write { line: LINE, level: Level::High },
            Action::Hold { millis: 250 },
            Action::Write { line: LINE, level: Level::Low }
        ]
    );
    assert_eq!(bank.pending_len(), 0);
    assert!(bank.is_held(LINE));
}

#[test]
fn steps_are_handed_out_oldest_first() {
    let mut bank = LineBank::new();
    assert_eq!(bank.next_step(), None);
    let mut lease = output(&mut bank, Level::Low);
    lease.set_value(&mut bank, Level::High).unwrap();
    bank.hold(5);
    let request = Action::Request {
        line: LINE,
        direction: Direction::Out,
        active: ActiveLevel::High,
        edge: Edge::Off,
        initial: Level::Low,
    };
    assert_eq!(bank.next_step(), Some(request));
    assert_eq!(bank.next_step(), Some(request));
    assert_eq!(bank.step_done(Ok(())), Ok(()));
    assert_eq!(bank.next_step(), Some(Action::Write { line: LINE, level: Level::High }));
    assert_eq!(bank.step_done(Ok(())), Ok(()));
    assert_eq!(bank.next_step(), Some(Action::Hold { millis: 5 }));
    assert_eq!(bank.step_done(Ok(())), Ok(()));
    assert_eq!(bank.next_step(), None);
    assert_eq!(bank.step_done(Ok(())), Ok(()));
    assert_eq!(bank.pending_len(), 0);
    assert!(bank.is_held(LINE));
}

#[test]
fn a_failed_step_ends_the_run() {
    let mut bank = LineBank::new();
    let mut lease = output(&mut bank, Level::Low);
    lease.set_value(&mut bank, Level::High).unwrap();
    lease.set_value(&mut bank, Level::Low).unwrap();
    assert_eq!(bank.step_done(Ok(())), Ok(()));
    assert_eq!(bank.pending_len(), 2);
    assert_eq!(bank.step_done(Err(5)), Err(GpioError::Io(5)));
    assert_eq!(bank.next_step(), None);
    assert_eq!(bank.pending_len(), 0);
    assert!(bank.is_held(LINE));
}

#[test]
fn a_failed_request_is_reported_by_its_kind() {
    for (code, error) in [
        (16, GpioError::LineInUse),
        (13, GpioError::Permission),
        (1, GpioError::Permission),
        (2, GpioError::NotFound),
        (19, GpioError::NotFound),
        (22, GpioError::Io(22)),
    ] {
        let mut bank = LineBank::new();
        let _lease = output(&mut bank, Level::Low);
        bank.hold(1);
        assert_eq!(bank.step_done(Err(code)), Err(error));
        assert_eq!(bank.pending_len(), 0);
    }
}

#[test]
fn a_failure_with_nothing_recorded_is_still_reported() {
    let mut bank = LineBank::new();
    assert_eq!(bank.step_done(Err(16)), Err(GpioError::LineInUse));
    assert_eq!(bank.pending_len(), 0);
}
