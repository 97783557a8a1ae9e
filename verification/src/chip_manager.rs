//! The registry of controllers: which pin is which line of which
//! controller.

use vstd::prelude::*;
use std::collections::HashMap;
use crate::gpio::{GpioError, GpioResult, PinInfo};
use crate::pins::PinLocation;

verus! {

/// What enumeration found of one controller.
#[derive(Debug, Clone, PartialEq, Eq)]
pub struct ChipScan {
    /// Device path of the controller.
    pub path: String,
    /// Name of the controller.
    pub name: String,
    /// The name of each line, by offset; empty for a line without a name.
    pub line_names: Vec<String>,
}

/// The largest number of pins a registry can number.
pub const MAX_PINS: usize = 65536;

/// Number of lines of controller `c`.
pub open spec fn line_count(scans: Seq<ChipScan>, c: int) -> int {
    scans[c].line_names@.len() as int
}

/// The pin of line 0 of controller `c`: pins are numbered from 0, in
/// enumeration order, each controller's lines by offset.
pub open spec fn first_pin(scans: Seq<ChipScan>, c: int) -> int
    decreases c,
{
    if c <= 0 {
        0
    } else {
        first_pin(scans, c - 1) + line_count(scans, c - 1)
    }
}

/// The pin of line `offset` of controller `c`.
pub open spec fn pin_of(scans: Seq<ChipScan>, c: int, offset: int) -> int {
    first_pin(scans, c) + offset
}

/// Number of lines of all controllers together.
pub open spec fn total_lines(scans: Seq<ChipScan>) -> int {
    first_pin(scans, scans.len() as int)
}

/// The name of a line as recorded: none where enumeration gave an empty
/// one.
pub open spec fn recorded_name(name: String) -> Option<String> {
    if name@.len() == 0 {
        None
    } else {
        Some(name)
    }
}

/// The record of line `offset` of controller `c`.
pub open spec fn pin_record(scans: Seq<ChipScan>, c: int, offset: int) -> PinInfo {
    PinInfo {
        chip_path: scans[c].path,
        line_offset: offset as u32,
        chip_name: scans[c].name,
        line_name: recorded_name(scans[c].line_names@[offset]),
    }
}

/// Whether `pins` and `chips` are the registry of `scans`: every line of
/// every controller stands at its pin, with its record and its controller.
pub open spec fn registry_of(pins: Seq<PinInfo>, chips: Seq<usize>, scans: Seq<ChipScan>) -> bool {
    &&& pins.len() == total_lines(scans)
    &&& chips.len() == total_lines(scans)
    &&& forall|c: int, offset: int|
        0 <= c < scans.len() && 0 <= offset < line_count(scans, c) ==> {
            &&& pins[#[trigger] pin_of(scans, c, offset)] == pin_record(scans, c, offset)
            &&& chips[pin_of(scans, c, offset)] == c
        }
}

/// Whether `paths` holds the device path of each controller of `scans`,
/// once and in enumeration order.
pub open spec fn paths_of(paths: Seq<String>, scans: Seq<ChipScan>) -> bool {
    &&& paths.len() == scans.len()
    &&& forall|c: int| 0 <= c < scans.len() ==> #[trigger] paths[c] == scans[c].path
}

/// Whether enumeration that found `scans` yields no registry: there is no
/// controller, or there are more controllers or more lines than can be
/// numbered.
pub open spec fn discovery_fails(scans: Seq<ChipScan>) -> bool {
    ||| scans.len() == 0
    ||| scans.len() > u32::MAX
    ||| total_lines(scans) > MAX_PINS
}

/// Pins of later controllers come after those of earlier ones.
pub proof fn lemma_first_pin_monotonic(scans: Seq<ChipScan>, c: int, d: int)
    requires
        0 <= c <= d,
    ensures
        first_pin(scans, c) <= first_pin(scans, d),
        0 <= first_pin(scans, c),
    decreases d,
{
    if c < d {
        lemma_first_pin_monotonic(scans, c, d - 1);
    } else if c > 0 {
        lemma_first_pin_monotonic(scans, c - 1, c - 1);
    }
}

/// No two lines share a pin: a pin names its controller and offset.
pub proof fn lemma_pin_numbering_injective(
    scans: Seq<ChipScan>,
    c: int,
    offset: int,
    d: int,
    other: int,
)
    requires
        0 <= c < scans.len(),
        0 <= offset < line_count(scans, c),
        0 <= d < scans.len(),
        0 <= other < line_count(scans, d),
        pin_of(scans, c, offset) == pin_of(scans, d, other),
    ensures
        c == d,
        offset == other,
{
    if c < d {
        lemma_first_pin_monotonic(scans, c + 1, d);
    } else if d < c {
        lemma_first_pin_monotonic(scans, d + 1, c);
    }
}

/// The registry: every discovered line under its pin number.
pub struct GpioChipManager {
    /// Device path of each controller, in enumeration order.
    chips: Vec<String>,
    /// The record of each pin.
    pin_map: HashMap<u16, PinInfo>,
    /// For each pin, the position of its controller in `chips`.
    chip_of: Vec<usize>,
}

impl GpioChipManager {
    /// The record of each pin, by pin number.
    pub closed spec fn pins(&self) -> Seq<PinInfo> {
        Seq::new(self.chip_of@.len(), |p: int| self.pin_map@[p as u16])
    }

    /// The controller of each pin, by pin number, as its position in
    /// enumeration order.
    pub closed spec fn chip_indices(&self) -> Seq<usize> {
        self.chip_of@
    }

    /// The device path of each controller, in enumeration order.
    pub closed spec fn chip_paths(&self) -> Seq<String> {
        self.chips@
    }

    /// The registry numbers at most `MAX_PINS` pins and knows the
    /// controller of each.
    pub closed spec fn wf(&self) -> bool {
        &&& self.chip_of@.len() <= MAX_PINS
        &&& forall|p: u16| #[trigger] self.pin_map@.contains_key(p) <==> p < self.chip_of@.len()
        &&& forall|p: int|
            0 <= p < self.chip_of@.len() ==> #[trigger] self.chip_of@[p] < self.chips@.len()
        &&& self.chips@.len() <= u32::MAX
    }
    /// The physical line behind `pin`, for a pin of the registry.
    pub open spec fn location(&self, pin: u16) -> PinLocation
        recommends
            pin < self.pins().len(),
    {
        PinLocation {
            chip: self.chip_indices()[pin as int] as u32,
            offset: self.pins()[pin as int].line_offset,
        }
    }

    /// Builds the registry from what enumeration reported: the scans of
    /// the controllers, in enumeration order, or the error number of the
    /// call that failed.
    pub fn new(found: Result<Vec<ChipScan>, i32>) -> (r: GpioResult<GpioChipManager>)
        ensures
            match found {
                Err(_) => r.is_err() && r->Err_0 == GpioError::DiscoveryFailed,
                Ok(scans) => if discovery_fails(scans@) {
                    r.is_err() && r->Err_0 == GpioError::DiscoveryFailed
                } else {
                    r.is_ok() && r->Ok_0.wf() && registry_of(
                        r->Ok_0.pins(),
                        r->Ok_0.chip_indices(),
                        scans@,
                    ) && paths_of(r->Ok_0.chip_paths(), scans@)
                },
            },
    {
        match found {
            Err(_) => Err(GpioError::DiscoveryFailed),
            Ok(scans) => {
                let mut manager = GpioChipManager {
                    chips: Vec::new(),
                    pin_map: HashMap::new(),
                    chip_of: Vec::new(),
                };
                match manager.discover_chips(&scans) {
                    Err(e) => Err(e),
                    Ok(()) => Ok(manager),
                }
            },
        }
    }

    /// Numbers every line of every controller of `scans`, in enumeration
    /// order and by offset, and records each under its pin. The registry
    /// forgets what it held before; where discovery fails it is left as it
    /// was.
    fn discover_chips(&mut self, scans: &Vec<ChipScan>) -> (r: GpioResult<()>)
        ensures
            discovery_fails(scans@) ==> {
                &&& r == Err::<(), GpioError>(GpioError::DiscoveryFailed)
                &&& *final(self) == *old(self)
            },
            !discovery_fails(scans@) ==> {
                &&& r.is_ok()
                &&& final(self).wf()
                &&& registry_of(final(self).pins(), final(self).chip_indices(), scans@)
                &&& paths_of(final(self).chip_paths(), scans@)
            },
    {
        if scans.len() == 0 || scans.len() > u32::MAX as usize {
            return Err(GpioError::DiscoveryFailed);
        }
        let mut paths: Vec<String> = Vec::new();
        let mut pins: HashMap<u16, PinInfo> = HashMap::new();
        let mut owners: Vec<usize> = Vec::new();
        let mut c: usize = 0;
        while c < scans.len()
            invariant
                c <= scans.len(),
                scans.len() <= u32::MAX,
                paths@.len() == c,
                forall|d: int| 0 <= d < c ==> #[trigger] paths@[d] == scans@[d].path,
                owners@.len() == first_pin(scans@, c as int),
                owners@.len() <= MAX_PINS,
                forall|p: u16| #[trigger] pins@.contains_key(p) <==> p < owners@.len(),
                forall|p: int| 0 <= p < owners@.len() ==> #[trigger] owners@[p] < c,
                forall|d: int, offset: int|
                    0 <= d < c && 0 <= offset < line_count(scans@, d) ==> {
                        &&& pins@[#[trigger] pin_of(scans@, d, offset) as u16] == pin_record(
                            scans@,
                            d,
                            offset,
                        )
                        &&& owners@[pin_of(scans@, d, offset)] == d
                    },
            decreases scans.len() - c,
        {
            let scan = &scans[c];
            let mut offset: usize = 0;
            while offset < scan.line_names.len()
                invariant
                    c < scans.len(),
                    *scan == scans@[c as int],
                    offset <= scan.line_names@.len(),
                    owners@.len() == first_pin(scans@, c as int) + offset,
                    owners@.len() <= MAX_PINS,
                    forall|p: u16| #[trigger] pins@.contains_key(p) <==> p < owners@.len(),
                    forall|p: int| 0 <= p < owners@.len() ==> #[trigger] owners@[p] <= c,
                    forall|d: int, o: int|
                        0 <= d < c && 0 <= o < line_count(scans@, d) ==> {
                            &&& pins@[#[trigger] pin_of(scans@, d, o) as u16] == pin_record(
                                scans@,
                                d,
                                o,
                            )
                            &&& owners@[pin_of(scans@, d, o)] == d
                        },
                    forall|o: int|
                        0 <= o < offset ==> {
                            &&& pins@[#[trigger] pin_of(scans@, c as int, o) as u16] == pin_record(
                                scans@,
                                c as int,
                                o,
                            )
                            &&& owners@[pin_of(scans@, c as int, o)] == c
                        },
                decreases scan.line_names@.len() - offset,
            {
                proof {
                    lemma_first_pin_monotonic(scans@, c as int, c as int);
                    lemma_first_pin_monotonic(scans@, c as int + 1, scans@.len() as int);
                    assert forall|d: int, o: int|
                        0 <= d < c && 0 <= o < line_count(scans@, d) implies 0 <= #[trigger] pin_of(
                            scans@,
                            d,
                            o,
                        ) < first_pin(scans@, c as int) by {
                        lemma_first_pin_monotonic(scans@, d + 1, c as int);
                        lemma_first_pin_monotonic(scans@, d, d);
                    }
                }
                if owners.len() >= MAX_PINS {
                    return Err(GpioError::DiscoveryFailed);
                }
                let pin: u16 = owners.len() as u16;
                let name = &scan.line_names[offset];
                let line_name = if name.as_str().is_empty() {
                    None
                } else {
                    Some(name.clone())
                };
                pins.insert(
                    pin,
                    PinInfo {
                        chip_path: scan.path.clone(),
                        line_offset: offset as u32,
                        chip_name: scan.name.clone(),
                        line_name,
                    },
                );
                owners.push(c);
                offset += 1;
            }
            paths.push(scan.path.clone());
            c += 1;
        }
        self.chips = paths;
        self.pin_map = pins;
        self.chip_of = owners;
        proof {
            assert forall|d: int, offset: int|
                0 <= d < scans@.len() && 0 <= offset < line_count(scans@, d) implies {
                &&& self.pins()[#[trigger] pin_of(scans@, d, offset)] == pin_record(
                    scans@,
                    d,
                    offset,
                )
                &&& self.chip_indices()[pin_of(scans@, d, offset)] == d
            } by {
                lemma_first_pin_monotonic(scans@, d + 1, scans@.len() as int);
                lemma_first_pin_monotonic(scans@, d, d);
            }
        }
        Ok(())
    }

    /// Number of pins in the registry.
    pub fn pin_count(&self) -> (n: usize)
        ensures
            n == self.pins().len(),
    {
        self.chip_of.len()
    }

    /// The record of `pin`.
    pub fn get_pin_info(&self, pin: u16) -> (r: GpioResult<&PinInfo>)
        requires
            self.wf(),
        ensures
            pin < self.pins().len() ==> r.is_ok() && *r->Ok_0 == self.pins()[pin as int],
            pin >= self.pins().len() ==> r.is_err() && r->Err_0 == GpioError::PinNotFound(pin),
    {
        match self.pin_map.get(&pin) {
            Some(info) => Ok(info),
            None => Err(GpioError::PinNotFound(pin)),
        }
    }

    /// The controller of `pin`, as its position in enumeration order: the
    /// position at which the caller keeps the controller's open handle.
    pub fn get_chip_for_pin(&self, pin: u16) -> (r: GpioResult<usize>)
        requires
            self.wf(),
        ensures
            pin < self.pins().len() ==> {
                &&& r.is_ok()
                &&& r->Ok_0 == self.chip_indices()[pin as int]
                &&& r->Ok_0 < self.chip_paths().len()
            },
            pin >= self.pins().len() ==> r.is_err() && r->Err_0 == GpioError::PinNotFound(pin),
    {
        let p: usize = pin as usize;
        if p < self.chip_of.len() {
            Ok(self.chip_of[p])
        } else {
            Err(GpioError::PinNotFound(pin))
        }
    }

    /// The device path of the controller at position `chip` of enumeration
    /// order.
    pub fn chip_path_at(&self, chip: usize) -> (path: Option<&String>)
        ensures
            chip < self.chip_paths().len() ==> path == Some(&self.chip_paths()[chip as int]),
            chip >= self.chip_paths().len() ==> path.is_none(),
    {
        if chip < self.chips.len() {
            Some(&self.chips[chip])
        } else {
            None
        }
    }

    /// The physical line behind `pin`: its controller, by position in
    /// enumeration order, and its offset.
    pub fn pin_location(&self, pin: u16) -> (r: GpioResult<PinLocation>)
        requires
            self.wf(),
        ensures
            pin < self.pins().len() ==> r.is_ok() && r->Ok_0 == self.location(pin),
            pin >= self.pins().len() ==> r.is_err() && r->Err_0 == GpioError::PinNotFound(pin),
    {
        match self.pin_map.get(&pin) {
            Some(info) => Ok(
                PinLocation { chip: self.chip_of[pin as usize] as u32, offset: info.line_offset },
            ),
            None => Err(GpioError::PinNotFound(pin)),
        }
    }

    /// Every pin with its record, in rising order of pin number.
    pub fn list_pins(&self) -> (list: Vec<(u16, PinInfo)>)
        requires
            self.wf(),
        ensures
            list@.len() == self.pins().len(),
            forall|k: int|
                0 <= k < list@.len() ==> (#[trigger] list@[k]).0 == k && list@[k].1
                    == self.pins()[k],
    {
        let mut list: Vec<(u16, PinInfo)> = Vec::new();
        let mut k: usize = 0;
        while k < self.chip_of.len()
            invariant
                self.wf(),
                k <= self.chip_of@.len(),
                list@.len() == k,
                forall|j: int|
                    0 <= j < k ==> (#[trigger] list@[j]).0 == j && list@[j].1 == self.pins()[j],
            decreases self.chip_of@.len() - k,
        {
            let pin: u16 = k as u16;
            match self.pin_map.get(&pin) {
                Some(info) => {
                    list.push((pin, info.duplicate()));
                },
                None => {},
            }
            k += 1;
        }
        list
    }
}

/// The place of the one registry of a program: empty until discovery has
/// succeeded once, and never filled a second time.
pub struct ChipManagerCell {
    manager: Option<GpioChipManager>,
}

impl ChipManagerCell {
    /// The registry, once discovery has succeeded.
    pub closed spec fn manager(&self) -> Option<GpioChipManager> {
        self.manager
    }

    /// A registry that is there is well-formed.
    pub closed spec fn wf(&self) -> bool {
        self.manager matches Some(m) ==> m.wf()
    }

    /// An empty cell.
    pub fn new() -> (cell: ChipManagerCell)
        ensures
            cell.manager() is None,
            cell.wf(),
    {
        ChipManagerCell { manager: None }
    }

    /// Whether discovery has succeeded.
    pub fn is_initialized(&self) -> (b: bool)
        ensures
            b == self.manager() is Some,
    {
        self.manager.is_some()
    }

    /// Fills the cell from what enumeration reported, unless it is filled
    /// already: the first registry stays, and `found` is then not looked at.
    /// Where discovery fails the cell stays empty.
    pub fn initialize(&mut self, found: Result<Vec<ChipScan>, i32>) -> (r: GpioResult<()>)
        requires
            old(self).wf(),
        ensures
            final(self).wf(),
            old(self).manager() is Some ==> r.is_ok() && *final(self) == *old(self),
            old(self).manager() is None ==> match found {
                Err(_) => {
                    &&& r == Err::<(), GpioError>(GpioError::DiscoveryFailed)
                    &&& final(self).manager() is None
                },
                Ok(scans) => if discovery_fails(scans@) {
                    &&& r == Err::<(), GpioError>(GpioError::DiscoveryFailed)
                    &&& final(self).manager() is None
                } else {
                    &&& r.is_ok()
                    &&& final(self).manager() is Some
                    &&& registry_of(
                        final(self).manager()->Some_0.pins(),
                        final(self).manager()->Some_0.chip_indices(),
                        scans@,
                    )
                    &&& paths_of(final(self).manager()->Some_0.chip_paths(), scans@)
                },
            },
    {
        if self.manager.is_some() {
            return Ok(());
        }
        match GpioChipManager::new(found) {
            Err(e) => Err(e),
            Ok(manager) => {
                self.manager = Some(manager);
                Ok(())
            },
        }
    }
}

/// The registry of `cell`, for a cell that has been filled.
pub fn get_chip_manager(cell: &ChipManagerCell) -> (r: GpioResult<&GpioChipManager>)
    requires
        cell.wf(),
    ensures
        match cell.manager() {
            Some(m) => r.is_ok() && *r->Ok_0 == m && r->Ok_0.wf(),
            None => r.is_err() && r->Err_0 == GpioError::NotExported,
        },
{
    match &cell.manager {
        Some(m) => Ok(m),
        None => Err(GpioError::NotExported),
    }
}

} // verus!
