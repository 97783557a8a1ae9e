use gpio_display::chip_manager::{get_chip_manager, ChipManagerCell, ChipScan, GpioChipManager};
use gpio_display::gpio::{ActiveLevel, Direction, Edge, Gpio, GpioError, Level, PinInfo};
use gpio_display::lines::{Action, LineBank};
use gpio_display::pins::PinLocation;

fn scan(index: usize, lines: usize) -> ChipScan {
    ChipScan {
        path: format!("/dev/gpiochip{}", index),
        name: format!("gpiochip{}", index),
        line_names: (0..lines)
            .map(|o| if o % 2 == 0 { format!("c{}-l{}", index, o) } else { String::new() })
            .collect(),
    }
}

fn two_by_sixteen() -> Vec<ChipScan> {
    vec![scan(0, 16), scan(1, 16)]
}

fn filled_cell() -> ChipManagerCell {
    let mut cell = ChipManagerCell::new();
    cell.initialize(Ok(two_by_sixteen())).unwrap();
    cell
}

#[test]
fn two_controllers_of_sixteen_lines_give_thirty_two_pins() {
    let manager = GpioChipManager::new(Ok(two_by_sixteen())).unwrap();
    assert_eq!(manager.pin_count(), 32);
    for pin in 0u16..32 {
        let chip = (pin / 16) as usize;
        let offset = (pin % 16) as u32;
        let info = manager.get_pin_info(pin).unwrap();
        assert_eq!(info.chip_path, format!("/dev/gpiochip{}", chip));
        assert_eq!(info.chip_name, format!("gpiochip{}", chip));
        assert_eq!(info.line_offset, offset);
        assert_eq!(manager.get_chip_for_pin(pin), Ok(chip));
        assert_eq!(manager.pin_location(pin), Ok(PinLocation { chip: chip as u32, offset }));
    }
    assert_eq!(manager.get_pin_info(32).err(), Some(GpioError::PinNotFound(32)));
}

#[test]
fn the_registry_holds_each_controller_once_in_enumeration_order() {
    let manager = GpioChipManager::new(Ok(vec![scan(4, 3), scan(0, 0), scan(9, 5)])).unwrap();
    assert_eq!(manager.chip_path_at(0).map(String::as_str), Some("/dev/gpiochip4"));
    assert_eq!(manager.chip_path_at(1).map(String::as_str), Some("/dev/gpiochip0"));
    assert_eq!(manager.chip_path_at(2).map(String::as_str), Some("/dev/gpiochip9"));
    assert_eq!(manager.chip_path_at(3), None);
    assert_eq!(manager.chip_path_at(usize::MAX), None);
    for pin in 0u16..8 {
        let chip = manager.get_chip_for_pin(pin).unwrap();
        assert_eq!(manager.chip_path_at(chip), Some(&manager.get_pin_info(pin).unwrap().chip_path));
    }
}

#[test]
fn the_controller_list_holds_paths_not_names() {
    let odd = ChipScan {
        path: "/dev/gpiochip7".to_string(),
        name: "bank-a".to_string(),
        line_names: vec![String::new()],
    };
    let manager = GpioChipManager::new(Ok(vec![odd])).unwrap();
    assert_eq!(manager.chip_path_at(0).map(String::as_str), Some("/dev/gpiochip7"));
    assert_eq!(manager.get_pin_info(0).unwrap().chip_name, "bank-a");
}

#[test]
fn pins_are_numbered_in_sequence() {
    let manager = GpioChipManager::new(Ok(two_by_sixteen())).unwrap();
    let list = manager.list_pins();
    assert_eq!(list.len(), 32);
    for (k, (pin, info)) in list.iter().enumerate() {
        assert_eq!(*pin as usize, k);
        assert_eq!(info, manager.get_pin_info(*pin).unwrap());
    }
}

#[test]
fn empty_line_names_are_recorded_as_none() {
    let manager = GpioChipManager::new(Ok(two_by_sixteen())).unwrap();
    assert_eq!(manager.get_pin_info(0).unwrap().line_name, Some("c0-l0".to_string()));
    assert_eq!(manager.get_pin_info(1).unwrap().line_name, None);
    assert_eq!(manager.get_pin_info(18).unwrap().line_name, Some("c1-l2".to_string()));
    assert_eq!(manager.get_pin_info(19).unwrap().line_name, None);
}

#[test]
fn controllers_of_different_sizes_are_numbered_back_to_back() {
    let manager = GpioChipManager::new(Ok(vec![scan(0, 3), scan(1, 0), scan(2, 5)])).unwrap();
    assert_eq!(manager.pin_count(), 8);
    let expected: [(usize, u32); 8] =
        [(0, 0), (0, 1), (0, 2), (2, 0), (2, 1), (2, 2), (2, 3), (2, 4)];
    for (pin, (chip, offset)) in expected.iter().enumerate() {
        let info = manager.get_pin_info(pin as u16).unwrap();
        assert_eq!(info.line_offset, *offset);
        assert_eq!(info.chip_path, format!("/dev/gpiochip{}", chip));
        assert_eq!(manager.get_chip_for_pin(pin as u16), Ok(*chip));
    }
}

#[test]
fn discovery_without_controllers_fails() {
    assert_eq!(GpioChipManager::new(Ok(Vec::new())).err(), Some(GpioError::DiscoveryFailed));
}

#[test]
fn discovery_after_a_failed_enumeration_fails() {
    assert_eq!(GpioChipManager::new(Err(13)).err(), Some(GpioError::DiscoveryFailed));
    assert_eq!(GpioChipManager::new(Err(0)).err(), Some(GpioError::DiscoveryFailed));
}

#[test]
fn discovery_of_controllers_without_lines_gives_an_empty_registry() {
    let manager = GpioChipManager::new(Ok(vec![scan(0, 0)])).unwrap();
    assert_eq!(manager.pin_count(), 0);
    assert_eq!(manager.get_pin_info(0).err(), Some(GpioError::PinNotFound(0)));
    assert!(manager.list_pins().is_empty());
}

#[test]
fn discovery_numbers_at_most_65536_pins() {
    let full = GpioChipManager::new(Ok(vec![scan(0, 65536)])).unwrap();
    assert_eq!(full.pin_count(), 65536);
    assert_eq!(full.get_pin_info(65535).unwrap().line_offset, 65535);
    let over = GpioChipManager::new(Ok(vec![scan(0, 65536), scan(1, 1)]));
    assert_eq!(over.err(), Some(GpioError::DiscoveryFailed));
    let over = GpioChipManager::new(Ok(vec![scan(0, 65537)]));
    assert_eq!(over.err(), Some(GpioError::DiscoveryFailed));
}

#[test]
fn unknown_pin_is_not_found() {
    let manager = GpioChipManager::new(Ok(two_by_sixteen())).unwrap();
    assert_eq!(manager.get_pin_info(40).err(), Some(GpioError::PinNotFound(40)));
    assert_eq!(manager.get_chip_for_pin(40), Err(GpioError::PinNotFound(40)));
    assert_eq!(manager.pin_location(65535), Err(GpioError::PinNotFound(65535)));
}

#[test]
fn pin_info_duplicate_is_equal() {
    let info = PinInfo {
        chip_path: "/dev/gpiochip2".to_string(),
        line_offset: 9,
        chip_name: "gpio-2".to_string(),
        line_name: Some("P8_7".to_string()),
    };
    assert_eq!(info.duplicate(), info);
    let bare = PinInfo { line_name: None, ..info.duplicate() };
    assert_eq!(bare.duplicate(), bare);
}

#[test]
fn empty_cell_has_no_registry() {
    let cell = ChipManagerCell::new();
    assert!(!cell.is_initialized());
    assert_eq!(get_chip_manager(&cell).err(), Some(GpioError::NotExported));
    assert!(!Gpio::is_exported(&cell, 0));
}

#[test]
fn cell_is_filled_once() {
    let mut cell = ChipManagerCell::new();
    assert_eq!(cell.initialize(Ok(two_by_sixteen())), Ok(()));
    assert!(cell.is_initialized());
    assert_eq!(get_chip_manager(&cell).unwrap().pin_count(), 32);
    assert_eq!(cell.initialize(Ok(vec![scan(7, 4)])), Ok(()));
    assert_eq!(get_chip_manager(&cell).unwrap().pin_count(), 32);
    assert_eq!(cell.initialize(Err(5)), Ok(()));
    assert_eq!(cell.initialize(Ok(Vec::new())), Ok(()));
    let manager = get_chip_manager(&cell).unwrap();
    assert_eq!(manager.pin_count(), 32);
    assert_eq!(manager.get_pin_info(17).unwrap().chip_path, "/dev/gpiochip1");
}

#[test]
fn cell_stays_empty_when_discovery_fails() {
    let mut cell = ChipManagerCell::new();
    assert_eq!(cell.initialize(Ok(Vec::new())), Err(GpioError::DiscoveryFailed));
    assert!(!cell.is_initialized());
    assert_eq!(cell.initialize(Err(2)), Err(GpioError::DiscoveryFailed));
    assert!(!cell.is_initialized());
    assert_eq!(cell.initialize(Ok(two_by_sixteen())), Ok(()));
    assert!(cell.is_initialized());
}

#[test]
fn is_exported_tells_known_pins() {
    let cell = filled_cell();
    assert!(Gpio::is_exported(&cell, 0));
    assert!(Gpio::is_exported(&cell, 31));
    assert!(!Gpio::is_exported(&cell, 32));
}

#[test]
fn gpio_new_leases_the_registered_line_active_low() {
    let cell = filled_cell();
    let mut bank = LineBank::new();
    let lease =
        Gpio::new(&cell, &mut bank, 20, Direction::Out, Level::High, Edge::Off).unwrap();
    let line = PinLocation { chip: 1, offset: 4 };
    assert_eq!(lease.get_pin(), 20);
    assert_eq!(lease.get_line(), line);
    assert_eq!(lease.read_direction(), Ok(Direction::Out));
    assert_eq!(lease.read_active_low(), Ok(ActiveLevel::Low));
    assert_eq!(lease.read_value(None), Ok(Level::High));
    assert_eq!(
        bank.take_pending(),
        vec![Action::Request {
            line,
            direction: Direction::Out,
            active: ActiveLevel::Low,
            edge: Edge::Off,
            initial: Level::High,
        }]
    );
    assert_eq!(lease.get_pin_info(&cell).unwrap().line_offset, 4);
    assert_eq!(lease.get_pin_info(&cell).unwrap().chip_name, "gpiochip1");
}

#[test]
fn gpio_new_with_event_detection() {
    let cell = filled_cell();
    let mut bank = LineBank::new();
    let lease = Gpio::new(&cell, &mut bank, 3, Direction::In, Level::High, Edge::Both).unwrap();
    assert_eq!(lease.read_direction(), Ok(Direction::In));
    assert_eq!(
        bank.take_pending(),
        vec![Action::Request {
            line: PinLocation { chip: 0, offset: 3 },
            direction: Direction::In,
            active: ActiveLevel::Low,
            edge: Edge::Both,
            initial: Level::Low,
        }]
    );
}

#[test]
fn gpio_new_reports_each_refusal() {
    let empty = ChipManagerCell::new();
    let cell = filled_cell();
    let mut bank = LineBank::new();
    let r = Gpio::new(&empty, &mut bank, 3, Direction::Out, Level::Low, Edge::Off);
    assert_eq!(r.err(), Some(GpioError::NotExported));
    let r = Gpio::new(&cell, &mut bank, 32, Direction::Out, Level::Low, Edge::Off);
    assert_eq!(r.err(), Some(GpioError::PinNotFound(32)));
    let r = Gpio::new(&cell, &mut bank, 3, Direction::Out, Level::Low, Edge::Rising);
    assert_eq!(r.err(), Some(GpioError::WrongDirection));
    assert_eq!(bank.pending_len(), 0);
    let _held = Gpio::new(&cell, &mut bank, 3, Direction::Out, Level::Low, Edge::Off).unwrap();
    let r = Gpio::new(&cell, &mut bank, 3, Direction::In, Level::Low, Edge::Off);
    assert_eq!(r.err(), Some(GpioError::LineInUse));
    assert_eq!(bank.pending_len(), 1);
}

#[test]
fn gpio_new_on_a_pin_under_lease_is_busy_whatever_is_asked() {
    let cell = filled_cell();
    let mut bank = LineBank::new();
    let _alive = Gpio::new(&cell, &mut bank, 5, Direction::Out, Level::Low, Edge::Off).unwrap();
    bank.take_pending();
    for dir in [Direction::In, Direction::Out] {
        for lvl in [Level::Low, Level::High] {
            for edge in [Edge::Off, Edge::Rising, Edge::Falling, Edge::Both] {
                let r = Gpio::new(&cell, &mut bank, 5, dir, lvl, edge);
                assert_eq!(r.err(), Some(GpioError::LineInUse));
                assert_eq!(bank.pending_len(), 0);
            }
        }
    }
}

#[test]
fn get_pin_info_needs_a_registry_that_knows_the_pin() {
    let cell = filled_cell();
    let small = {
        let mut c = ChipManagerCell::new();
        c.initialize(Ok(vec![scan(0, 2)])).unwrap();
        c
    };
    let mut bank = LineBank::new();
    let lease = Gpio::new(&cell, &mut bank, 9, Direction::In, Level::Low, Edge::Off).unwrap();
    assert_eq!(lease.get_pin_info(&ChipManagerCell::new()).err(), Some(GpioError::NotExported));
    assert_eq!(lease.get_pin_info(&small).err(), Some(GpioError::PinNotFound(9)));
    assert_eq!(lease.get_pin_info(&cell).unwrap().line_name, None);
}
