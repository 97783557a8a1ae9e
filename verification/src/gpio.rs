//! Line configuration values, the error taxonomy and the line lease.

use vstd::prelude::*;
use crate::chip_manager::{get_chip_manager, ChipManagerCell};
use crate::label::{consumer_label, consumer_name};
use crate::lines::{Action, LineBank};
use crate::pins::PinLocation;

verus! {

/// Why an operation on a line or on the registry was refused.
#[derive(Debug, Clone, Copy, PartialEq, Eq, Structural)]
pub enum GpioError {
    /// The device reported an error that has no variant of its own; the
    /// payload is the operating system's error number.
    Io(i32),
    /// The lease holds no line: it was released, or the registry was never
    /// filled.
    NotExported,
    /// A level was asked of an input lease without a sample to answer with.
    InvalidValue,
    /// The registry has no record of this pin.
    PinNotFound(u16),
    /// The line is already leased.
    LineInUse,
    /// The pin lies outside every controller band.
    UnsupportedPin(u32),
    /// The caller lacks the rights to the device.
    Permission,
    /// The controller or line no longer exists.
    NotFound,
    /// The operation does not apply to a lease of this direction.
    WrongDirection,
    /// Enumeration found no controller, or could not be completed.
    DiscoveryFailed,
}

pub type GpioResult<T> = Result<T, GpioError>;

#[derive(Debug, Clone, Copy, PartialEq, Eq, Structural)]
pub enum Direction {
    In,
    Out,
}

#[derive(Debug, Clone, Copy, PartialEq, Eq, Structural)]
pub enum Level {
    Low,
    High,
}

/// Which transitions of an input line are reported as events.
#[derive(Debug, Clone, Copy, PartialEq, Eq, Structural)]
pub enum Edge {
    /// No event detection.
    Off,
    Rising,
    Falling,
    Both,
}

/// Whether the logical level `High` is the electrically high or the
/// electrically low state of the line.
#[derive(Debug, Clone, Copy, PartialEq, Eq, Structural)]
pub enum ActiveLevel {
    Low,
    High,
}

/// Where a pin of the registry lives, and what the controller calls it.
#[derive(Debug, Clone, PartialEq, Eq)]
pub struct PinInfo {
    /// Device path of the controller.
    pub chip_path: String,
    /// Offset of the line within the controller.
    pub line_offset: u32,
    /// Name of the controller.
    pub chip_name: String,
    /// Name of the line, where it has one.
    pub line_name: Option<String>,
}

impl PinInfo {
    /// A copy of the record.
    pub fn duplicate(&self) -> (copy: PinInfo)
        ensures
            copy == *self,
    {
        PinInfo {
            chip_path: self.chip_path.clone(),
            line_offset: self.line_offset,
            chip_name: self.chip_name.clone(),
            line_name: match &self.line_name {
                Some(name) => Some(name.clone()),
                None => None,
            },
        }
    }
}

impl GpioError {
    /// The error that stands for operating-system error number `code`.
    pub open spec fn spec_from_os_error(code: i32) -> GpioError {
        if code == 16 {
            GpioError::LineInUse
        } else if code == 1 || code == 13 {
            GpioError::Permission
        } else if code == 2 || code == 6 || code == 19 {
            GpioError::NotFound
        } else {
            GpioError::Io(code)
        }
    }

    /// Classifies an operating-system error number reported by the device:
    /// `EBUSY` is a line in use, `EPERM` and `EACCES` are missing rights,
    /// `ENOENT`, `ENXIO` and `ENODEV` are a vanished controller or line, and
    /// every other number is kept as it is.
    pub fn from_os_error(code: i32) -> (e: GpioError)
        ensures
            e == Self::spec_from_os_error(code),
    {
        if code == 16 {
            GpioError::LineInUse
        } else if code == 1 || code == 13 {
            GpioError::Permission
        } else if code == 2 || code == 6 || code == 19 {
            GpioError::NotFound
        } else {
            GpioError::Io(code)
        }
    }
}

impl Level {
    /// The other level.
    pub open spec fn spec_toggled(self) -> Level {
        match self {
            Level::Low => Level::High,
            Level::High => Level::Low,
        }
    }

    pub fn toggled(self) -> (l: Level)
        ensures
            l == self.spec_toggled(),
    {
        match self {
            Level::Low => Level::High,
            Level::High => Level::Low,
        }
    }
}

/// What a lease is, as plain values.
pub struct LeaseState {
    /// The pin number the lease was asked for.
    pub pin: u16,
    /// The physical line behind the pin.
    pub line: PinLocation,
    pub direction: Direction,
    pub active: ActiveLevel,
    /// The event detection in force; `Off` on every output.
    pub edge: Edge,
    /// The level last commanded on an output.
    pub level: Level,
    /// Whether the line has been given back.
    pub released: bool,
}

/// Exclusive control of one line, from `acquire` until `release`.
pub struct Gpio {
    pin: u16,
    line: PinLocation,
    direction: Direction,
    active_level: ActiveLevel,
    edge: Edge,
    level: Level,
    released: bool,
}

impl View for Gpio {
    type V = LeaseState;

    closed spec fn view(&self) -> LeaseState {
        LeaseState {
            pin: self.pin,
            line: self.line,
            direction: self.direction,
            active: self.active_level,
            edge: self.edge,
            level: self.level,
            released: self.released,
        }
    }
}

/// Why a request for `line` is refused while the lines in `held` are
/// leased, or `None` where it is granted. A held line is in use, whatever
/// is asked of it; event detection on an output is refused on a free line.
pub open spec fn refusal(
    held: Set<PinLocation>,
    line: PinLocation,
    direction: Direction,
    edge: Edge,
) -> Option<GpioError> {
    if held.contains(line) {
        Some(GpioError::LineInUse)
    } else if direction == Direction::Out && edge != Edge::Off {
        Some(GpioError::WrongDirection)
    } else {
        None
    }
}

/// The level a fresh request drives: the asked one on an output, `Low`
/// otherwise.
pub open spec fn driven_level(direction: Direction, initial: Level) -> Level {
    if direction == Direction::Out {
        initial
    } else {
        Level::Low
    }
}

/// The lease that a granted request makes.
pub open spec fn fresh_lease(
    pin: u16,
    line: PinLocation,
    direction: Direction,
    initial: Level,
    edge: Edge,
    active: ActiveLevel,
) -> LeaseState {
    LeaseState {
        pin,
        line,
        direction,
        active,
        edge,
        level: driven_level(direction, initial),
        released: false,
    }
}

/// The step that asks the device for a line not held before.
pub open spec fn first_request(
    line: PinLocation,
    direction: Direction,
    initial: Level,
    edge: Edge,
    active: ActiveLevel,
) -> Action {
    Action::Request { line, direction, active, edge, initial: driven_level(direction, initial) }
}

/// A lease after its line has been asked for again under a new
/// configuration: an output starts at `Low`.
pub open spec fn reconfigured(
    lease: LeaseState,
    direction: Direction,
    active: ActiveLevel,
    edge: Edge,
) -> LeaseState {
    LeaseState { direction, active, edge, level: Level::Low, ..lease }
}

/// The two steps that take a held line into a new configuration: the old
/// hold is given up before the new one is asked for.
pub open spec fn rerequest(
    line: PinLocation,
    direction: Direction,
    active: ActiveLevel,
    edge: Edge,
) -> Seq<Action> {
    seq![
        Action::Release { line },
        Action::Request { line, direction, active, edge, initial: Level::Low },
    ]
}

impl Gpio {
    /// Leases `line` for `pin`. An output drives `initial` from the moment
    /// the request is granted; on an input `initial` is not used.
    pub fn acquire(
        bank: &mut LineBank,
        line: PinLocation,
        pin: u16,
        direction: Direction,
        initial: Level,
        edge: Edge,
        active: ActiveLevel,
    ) -> (r: GpioResult<Gpio>)
        ensures
            match refusal(old(bank).held(), line, direction, edge) {
                Some(e) => {
                    &&& r.is_err()
                    &&& r->Err_0 == e
                    &&& *final(bank) == *old(bank)
                },
                None => {
                    &&& r.is_ok()
                    &&& r->Ok_0@ == fresh_lease(pin, line, direction, initial, edge, active)
                    &&& final(bank).held() == old(bank).held().insert(line)
                    &&& final(bank).pending() == old(bank).pending().push(
                        first_request(line, direction, initial, edge, active),
                    )
                },
            },
    {
        if bank.is_held(line) {
            return Err(GpioError::LineInUse);
        }
        let level = match direction {
            Direction::Out => {
                if edge != Edge::Off {
                    return Err(GpioError::WrongDirection);
                }
                initial
            },
            Direction::In => Level::Low,
        };
        match bank.claim(line) {
            Err(e) => {
                return Err(e);
            },
            Ok(()) => {},
        }
        bank.record(Action::Request { line, direction, active, edge, initial: level });
        Ok(Gpio { pin, line, direction, active_level: active, edge, level, released: false })
    }

    /// Leases the line that the registry of `cell` records for `pin`, as an
    /// active-low line. An output drives `lvl` from the moment the request
    /// is granted.
    pub fn new(
        cell: &ChipManagerCell,
        bank: &mut LineBank,
        pin: u16,
        dir: Direction,
        lvl: Level,
        edge: Edge,
    ) -> (r: GpioResult<Gpio>)
        requires
            cell.wf(),
        ensures
            match cell.manager() {
                None => {
                    &&& r.is_err()
                    &&& r->Err_0 == GpioError::NotExported
                    &&& *final(bank) == *old(bank)
                },
                Some(m) => if pin >= m.pins().len() {
                    &&& r.is_err()
                    &&& r->Err_0 == GpioError::PinNotFound(pin)
                    &&& *final(bank) == *old(bank)
                } else {
                    match refusal(old(bank).held(), m.location(pin), dir, edge) {
                        Some(e) => {
                            &&& r.is_err()
                            &&& r->Err_0 == e
                            &&& *final(bank) == *old(bank)
                        },
                        None => {
                            &&& r.is_ok()
                            &&& r->Ok_0@ == fresh_lease(
                                pin,
                                m.location(pin),
                                dir,
                                lvl,
                                edge,
                                ActiveLevel::Low,
                            )
                            &&& final(bank).held() == old(bank).held().insert(m.location(pin))
                            &&& final(bank).pending() == old(bank).pending().push(
                                first_request(m.location(pin), dir, lvl, edge, ActiveLevel::Low),
                            )
                        },
                    }
                },
            },
    {
        let manager = match get_chip_manager(cell) {
            Err(e) => {
                return Err(e);
            },
            Ok(manager) => manager,
        };
        let line = match manager.pin_location(pin) {
            Err(e) => {
                return Err(e);
            },
            Ok(line) => line,
        };
        Gpio::acquire(bank, line, pin, dir, lvl, edge, ActiveLevel::Low)
    }

    /// The registry's record of the lease's pin.
    pub fn get_pin_info(&self, cell: &ChipManagerCell) -> (r: GpioResult<PinInfo>)
        requires
            cell.wf(),
        ensures
            match cell.manager() {
                None => r.is_err() && r->Err_0 == GpioError::NotExported,
                Some(m) => if self@.pin >= m.pins().len() {
                    r.is_err() && r->Err_0 == GpioError::PinNotFound(self@.pin)
                } else {
                    r.is_ok() && r->Ok_0 == m.pins()[self@.pin as int]
                },
            },
    {
        let manager = match get_chip_manager(cell) {
            Err(e) => {
                return Err(e);
            },
            Ok(manager) => manager,
        };
        match manager.get_pin_info(self.pin) {
            Err(e) => Err(e),
            Ok(info) => Ok(info.duplicate()),
        }
    }

    /// Whether the registry of `cell` knows `pin`.
    pub fn is_exported(cell: &ChipManagerCell, pin: u16) -> (b: bool)
        requires
            cell.wf(),
        ensures
            b == (cell.manager() matches Some(m) && pin < m.pins().len()),
    {
        match get_chip_manager(cell) {
            Ok(manager) => manager.get_pin_info(pin).is_ok(),
            Err(_) => false,
        }
    }

    /// Gives the line back. On a lease that was released before, nothing
    /// happens.
    pub fn release(&mut self, bank: &mut LineBank)
        ensures
            final(self)@ == (LeaseState { released: true, ..old(self)@ }),
            old(self)@.released ==> *final(bank) == *old(bank),
            !old(self)@.released ==> {
                &&& final(bank).held() == old(bank).held().remove(old(self)@.line)
                &&& final(bank).pending() == old(bank).pending().push(
                    Action::Release { line: old(self)@.line },
                )
            },
    {
        if self.released {
            return ;
        }
        bank.free(self.line);
        bank.record(Action::Release { line: self.line });
        self.released = true;
    }

    /// Drives an output to `lvl`.
    pub fn set_value(&mut self, bank: &mut LineBank, lvl: Level) -> (r: GpioResult<()>)
        ensures
            final(bank).held() == old(bank).held(),
            old(self)@.released ==> r == Err::<(), GpioError>(GpioError::NotExported),
            !old(self)@.released && old(self)@.direction == Direction::In
                ==> r == Err::<(), GpioError>(GpioError::WrongDirection),
            !old(self)@.released && old(self)@.direction == Direction::Out ==> r.is_ok(),
            r.is_err() ==> {
                &&& final(self)@ == old(self)@
                &&& *final(bank) == *old(bank)
            },
            r.is_ok() ==> final(self)@ == (LeaseState { level: lvl, ..old(self)@ }),
            r.is_ok() ==> final(bank).pending() == old(bank).pending().push(
                Action::Write { line: old(self)@.line, level: lvl },
            ),
    {
        if self.released {
            return Err(GpioError::NotExported);
        }
        match self.direction {
            Direction::In => Err(GpioError::WrongDirection),
            Direction::Out => {
                bank.record(Action::Write { line: self.line, level: lvl });
                self.level = lvl;
                Ok(())
            },
        }
    }
    /// The level of the line. An output answers with the level it was last
    /// told to drive; an input answers with `sampled`, the level read from
    /// the line, and cannot answer without one.
    pub fn read_value(&self, sampled: Option<Level>) -> (r: GpioResult<Level>)
        ensures
            self@.released ==> r == Err::<Level, GpioError>(GpioError::NotExported),
            !self@.released && self@.direction == Direction::Out
                ==> r == Ok::<Level, GpioError>(self@.level),
            !self@.released && self@.direction == Direction::In ==> r == match sampled {
                Some(l) => Ok::<Level, GpioError>(l),
                None => Err::<Level, GpioError>(GpioError::InvalidValue),
            },
    {
        if self.released {
            return Err(GpioError::NotExported);
        }
        match self.direction {
            Direction::Out => Ok(self.level),
            Direction::In => match sampled {
                Some(l) => Ok(l),
                None => Err(GpioError::InvalidValue),
            },
        }
    }

    /// Leaves the line held, under a new configuration: the hold is given up
    /// and asked for again without event detection, an output starting at
    /// `Low`.
    fn reconfigure(
        &mut self,
        bank: &mut LineBank,
        direction: Direction,
        active: ActiveLevel,
        edge: Edge,
    )
        requires
            !old(self)@.released,
        ensures
            final(self)@ == reconfigured(old(self)@, direction, active, edge),
            final(bank).held() == old(bank).held(),
            final(bank).pending() == old(bank).pending() + rerequest(
                old(self)@.line,
                direction,
                active,
                edge,
            ),
    {
        bank.record(Action::Release { line: self.line });
        bank.record(
            Action::Request { line: self.line, direction, active, edge, initial: Level::Low },
        );
        self.direction = direction;
        self.active_level = active;
        self.edge = edge;
        self.level = Level::Low;
        assert(final(bank).pending() =~= old(bank).pending() + rerequest(
            old(self)@.line,
            direction,
            active,
            edge,
        ));
    }

    /// Turns the lease into an input or an output. The line is asked for
    /// again in the new direction, without event detection; an output starts
    /// at `Low`.
    pub fn set_direction(&mut self, bank: &mut LineBank, dir: Direction) -> (r: GpioResult<()>)
        ensures
            final(bank).held() == old(bank).held(),
            old(self)@.released ==> {
                &&& r == Err::<(), GpioError>(GpioError::NotExported)
                &&& final(self)@ == old(self)@
                &&& *final(bank) == *old(bank)
            },
            !old(self)@.released ==> {
                &&& r.is_ok()
                &&& final(self)@ == reconfigured(old(self)@, dir, old(self)@.active, Edge::Off)
                &&& final(bank).pending() == old(bank).pending() + rerequest(
                    old(self)@.line,
                    dir,
                    old(self)@.active,
                    Edge::Off,
                )
            },
    {
        if self.released {
            return Err(GpioError::NotExported);
        }
        let active = self.active_level;
        self.reconfigure(bank, dir, active, Edge::Off);
        Ok(())
    }

    /// Switches event detection on. `Edge::Off` asks for nothing and always
    /// succeeds; any other edge needs a held input, which is asked for again
    /// with that detection.
    pub fn set_edge(&mut self, bank: &mut LineBank, edge: Edge) -> (r: GpioResult<()>)
        ensures
            final(bank).held() == old(bank).held(),
            edge == Edge::Off ==> r.is_ok(),
            edge != Edge::Off && old(self)@.released
                ==> r == Err::<(), GpioError>(GpioError::NotExported),
            edge != Edge::Off && !old(self)@.released && old(self)@.direction == Direction::Out
                ==> r == Err::<(), GpioError>(GpioError::WrongDirection),
            edge != Edge::Off && !old(self)@.released && old(self)@.direction == Direction::In ==> {
                &&& r.is_ok()
                &&& final(self)@ == reconfigured(
                    old(self)@,
                    Direction::In,
                    old(self)@.active,
                    edge,
                )
                &&& final(bank).pending() == old(bank).pending() + rerequest(
                    old(self)@.line,
                    Direction::In,
                    old(self)@.active,
                    edge,
                )
            },
            edge == Edge::Off || r.is_err() ==> {
                &&& final(self)@ == old(self)@
                &&& *final(bank) == *old(bank)
            },
    {
        if edge == Edge::Off {
            return Ok(());
        }
        if self.released {
            return Err(GpioError::NotExported);
        }
        match self.direction {
            Direction::Out => Err(GpioError::WrongDirection),
            Direction::In => {
                let active = self.active_level;
                self.reconfigure(bank, Direction::In, active, edge);
                Ok(())
            },
        }
    }

    pub fn read_direction(&self) -> (r: GpioResult<Direction>)
        ensures
            r == Ok::<Direction, GpioError>(self@.direction),
    {
        Ok(self.direction)
    }

    /// What the lease can say of its event detection: a held input reports
    /// `Both`, whichever edges it was set up for, and everything else
    /// reports `Off`.
    pub fn read_edge(&self) -> (r: GpioResult<Edge>)
        ensures
            r == Ok::<Edge, GpioError>(
                if !self@.released && self@.direction == Direction::In {
                    Edge::Both
                } else {
                    Edge::Off
                },
            ),
    {
        if self.released {
            return Ok(Edge::Off);
        }
        match self.direction {
            Direction::In => Ok(Edge::Both),
            Direction::Out => Ok(Edge::Off),
        }
    }

    /// Changes the polarity. The line is asked for again in its present
    /// direction, as `set_direction` does.
    pub fn set_active_low(&mut self, bank: &mut LineBank, active: ActiveLevel) -> (r:
        GpioResult<()>)
        ensures
            final(bank).held() == old(bank).held(),
            old(self)@.released ==> {
                &&& r == Err::<(), GpioError>(GpioError::NotExported)
                &&& final(self)@ == old(self)@
                &&& *final(bank) == *old(bank)
            },
            !old(self)@.released ==> {
                &&& r.is_ok()
                &&& final(self)@ == reconfigured(
                    old(self)@,
                    old(self)@.direction,
                    active,
                    Edge::Off,
                )
                &&& final(bank).pending() == old(bank).pending() + rerequest(
                    old(self)@.line,
                    old(self)@.direction,
                    active,
                    Edge::Off,
                )
            },
    {
        if self.released {
            return Err(GpioError::NotExported);
        }
        let dir = self.direction;
        self.reconfigure(bank, dir, active, Edge::Off);
        Ok(())
    }

    pub fn read_active_low(&self) -> (r: GpioResult<ActiveLevel>)
        ensures
            r == Ok::<ActiveLevel, GpioError>(self@.active),
    {
        Ok(self.active_level)
    }

    pub fn get_pin(&self) -> (pin: u16)
        ensures
            pin == self@.pin,
    {
        self.pin
    }

    /// The physical line under lease.
    pub fn get_line(&self) -> (line: PinLocation)
        ensures
            line == self@.line,
    {
        self.line
    }

    /// The name under which the lease asks the device for its line.
    pub fn consumer(&self) -> (name: String)
        ensures
            name@ == consumer_label(self@.pin, self@.edge != Edge::Off),
    {
        consumer_name(self.pin, self.edge != Edge::Off)
    }

    /// Takes note that the device refused the request for the line, with
    /// operating-system error number `code`. The lease ends, and since the
    /// device holds nothing for it, no release is recorded. Returns the
    /// error that `code` stands for.
    pub fn refused(&mut self, bank: &mut LineBank, code: i32) -> (e: GpioError)
        ensures
            e == GpioError::spec_from_os_error(code),
            final(self)@ == (LeaseState { released: true, ..old(self)@ }),
            final(bank).pending() == old(bank).pending(),
            old(self)@.released ==> *final(bank) == *old(bank),
            !old(self)@.released ==> final(bank).held() == old(bank).held().remove(old(self)@.line),
    {
        if !self.released {
            bank.free(self.line);
            self.released = true;
        }
        GpioError::from_os_error(code)
    }

    /// The level the lease last commanded.
    pub fn commanded(&self) -> (level: Level)
        ensures
            level == self@.level,
    {
        self.level
    }

    /// Whether the line has been given back.
    pub fn is_released(&self) -> (b: bool)
        ensures
            b == self@.released,
    {
        self.released
    }

    /// Drives an output to the level opposite to the one it was last told
    /// to drive.
    pub fn toggle(&mut self, bank: &mut LineBank) -> (r: GpioResult<()>)
        ensures
            final(bank).held() == old(bank).held(),
            old(self)@.released ==> r == Err::<(), GpioError>(GpioError::NotExported),
            !old(self)@.released && old(self)@.direction == Direction::In
                ==> r == Err::<(), GpioError>(GpioError::WrongDirection),
            !old(self)@.released && old(self)@.direction == Direction::Out ==> r.is_ok(),
            r.is_err() ==> {
                &&& final(self)@ == old(self)@
                &&& *final(bank) == *old(bank)
            },
            r.is_ok() ==> final(self)@ == (LeaseState {
                level: old(self)@.level.spec_toggled(),
                ..old(self)@
            }),
            r.is_ok() ==> final(bank).pending() == old(bank).pending().push(
                Action::Write { line: old(self)@.line, level: old(self)@.level.spec_toggled() },
            ),
    {
        if self.released {
            return Err(GpioError::NotExported);
        }
        match self.direction {
            Direction::In => Err(GpioError::WrongDirection),
            Direction::Out => {
                let next = self.level.toggled();
                self.set_value(bank, next)
            },
        }
    }
}

/// A line that has just been granted is busy: while the lease lasts, every
/// further request for it is refused with `LineInUse`, whatever direction
/// and event detection it asks for.
pub proof fn lemma_second_acquire_is_busy(
    held: Set<PinLocation>,
    line: PinLocation,
    direction: Direction,
    edge: Edge,
    again_direction: Direction,
    again_edge: Edge,
)
    requires
        refusal(held, line, direction, edge) is None,
    ensures
        refusal(held.insert(line), line, again_direction, again_edge) == Some(GpioError::LineInUse),
{
}

/// Once a lease has been released its line can be leased again: a
/// well-formed request for it is granted.
pub proof fn lemma_reacquire_after_release(
    held: Set<PinLocation>,
    line: PinLocation,
    direction: Direction,
    edge: Edge,
)
    requires
        !(direction == Direction::Out && edge != Edge::Off),
    ensures
        refusal(held.remove(line), line, direction, edge) is None,
{
}

/// Releasing a line leaves every other lease as it was.
pub proof fn lemma_release_keeps_others(
    held: Set<PinLocation>,
    line: PinLocation,
    other: PinLocation,
)
    requires
        other != line,
    ensures
        held.remove(line).contains(other) == held.contains(other),
{
}

} // verus!
