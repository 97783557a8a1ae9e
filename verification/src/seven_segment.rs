//! A single seven-segment digit on eight leased lines.

use vstd::prelude::*;
use crate::gpio::{ActiveLevel, Direction, Edge, Gpio, GpioError, GpioResult, Level};
use crate::lines::{Action, LineBank};
use crate::pins::{band_location, resolve, PinLocation};
use crate::segment::{
    all_segments, blanking_order, glyph, lemma_blanking_order_complete, lemma_segment_at_index,
    lit, segments_for, segments_in_blanking_order, segments_in_order, Segment,
};

verus! {

/// The physical line that drives `seg`.
pub open spec fn segment_line(seg: Segment) -> PinLocation {
    band_location(seg.spec_gpio())
}

/// The step that drives `seg` to `level`.
pub open spec fn segment_write(seg: Segment, level: Level) -> Action {
    Action::Write { line: segment_line(seg), level }
}

/// The steps that drive each of `segs`, in turn, to `level`.
pub open spec fn write_steps(segs: Seq<Segment>, level: Level) -> Seq<Action> {
    Seq::new(segs.len(), |i: int| segment_write(segs[i], level))
}

/// The steps that switch every segment off.
pub open spec fn blank_steps() -> Seq<Action> {
    write_steps(blanking_order(), Level::Low)
}

/// The steps that show `digit`: every segment off, then the glyph's
/// segments on.
pub open spec fn digit_steps(digit: u8) -> Seq<Action> {
    blank_steps() + write_steps(glyph(digit), Level::High)
}

/// The levels of the eight segments, by index, once each of `segs` has been
/// driven to `level`.
pub open spec fn after_writes(levels: Seq<Level>, segs: Seq<Segment>, level: Level) -> Seq<Level>
    decreases segs.len(),
{
    if segs.len() == 0 {
        levels
    } else {
        after_writes(levels, segs.drop_last(), level).update(segs.last().spec_index(), level)
    }
}

/// Every segment off.
pub open spec fn all_dark() -> Seq<Level> {
    Seq::new(8, |i: int| Level::Low)
}

/// The levels, by segment index, that show `digit`.
pub open spec fn glyph_levels(digit: u8) -> Seq<Level> {
    Seq::new(
        8,
        |i: int|
            if lit(digit, all_segments()[i]) {
                Level::High
            } else {
                Level::Low
            },
    )
}

/// What `after_writes` leaves at each segment: `level` where the segment is
/// among `segs`, and the former level elsewhere.
pub proof fn lemma_after_writes(levels: Seq<Level>, segs: Seq<Segment>, level: Level)
    requires
        levels.len() == 8,
    ensures
        after_writes(levels, segs, level).len() == 8,
        forall|s: Segment| #[trigger]
            after_writes(levels, segs, level)[s.spec_index()] == if segs.contains(s) {
                level
            } else {
                levels[s.spec_index()]
            },
    decreases segs.len(),
{
    if segs.len() > 0 {
        let init = segs.drop_last();
        lemma_after_writes(levels, init, level);
        assert forall|s: Segment| #[trigger]
            after_writes(levels, segs, level)[s.spec_index()] == if segs.contains(s) {
                level
            } else {
                levels[s.spec_index()]
            } by {
            lemma_segment_at_index(s);
            lemma_segment_at_index(segs.last());
            if init.contains(s) {
                let k = choose|k: int| 0 <= k < init.len() && init[k] == s;
                assert(segs[k] == s);
            }
            if segs.contains(s) && s != segs.last() {
                let k = choose|k: int| 0 <= k < segs.len() && segs[k] == s;
                assert(init[k] == s);
            }
            assert(segs[segs.len() - 1] == segs.last());
        }
    }
}

/// Writing `Low` to the segments in blanking order leaves every segment off.
pub proof fn lemma_blanking_darkens(levels: Seq<Level>)
    requires
        levels.len() == 8,
    ensures
        after_writes(levels, blanking_order(), Level::Low) == all_dark(),
{
    let done = after_writes(levels, blanking_order(), Level::Low);
    lemma_after_writes(levels, blanking_order(), Level::Low);
    assert forall|i: int| 0 <= i < 8 implies done[i] == Level::Low by {
        let s = all_segments()[i];
        lemma_segment_at_index(s);
        lemma_blanking_order_complete(s);
        assert(s.spec_index() == i);
        assert(done[s.spec_index()] == Level::Low);
    }
    assert(done =~= all_dark());
}

/// Writing `High` to a glyph's segments on a dark display leaves exactly
/// the glyph lit.
pub proof fn lemma_glyph_lights(digit: u8)
    ensures
        after_writes(all_dark(), glyph(digit), Level::High) == glyph_levels(digit),
{
    let done = after_writes(all_dark(), glyph(digit), Level::High);
    lemma_after_writes(all_dark(), glyph(digit), Level::High);
    assert forall|i: int| 0 <= i < 8 implies done[i] == glyph_levels(digit)[i] by {
        let s = all_segments()[i];
        lemma_segment_at_index(s);
        assert(s.spec_index() == i);
        assert(done[s.spec_index()] == if glyph(digit).contains(s) {
            Level::High
        } else {
            Level::Low
        });
    }
    assert(done =~= glyph_levels(digit));
}

/// A display that shows `digit` has exactly the glyph's segments on.
pub proof fn lemma_glyph_levels(digit: u8, seg: Segment)
    ensures
        glyph_levels(digit).len() == 8,
        glyph_levels(digit)[seg.spec_index()] == Level::High <==> lit(digit, seg),
        all_dark()[seg.spec_index()] == Level::Low,
{
    lemma_segment_at_index(seg);
}

/// The request that leases the line of `seg`: an active-high output that
/// starts off.
pub open spec fn segment_request(seg: Segment) -> Action {
    Action::Request {
        line: segment_line(seg),
        direction: Direction::Out,
        active: ActiveLevel::High,
        edge: Edge::Off,
        initial: Level::Low,
    }
}

/// The requests for the eight segment lines, in declaration order.
pub open spec fn request_steps() -> Seq<Action> {
    Seq::new(8, |i: int| segment_request(all_segments()[i]))
}

/// The releases of the eight segment lines, in declaration order.
pub open spec fn release_steps() -> Seq<Action> {
    Seq::new(8, |i: int| Action::Release { line: segment_line(all_segments()[i]) })
}

/// The eight lines that drive the segments.
pub open spec fn segment_lines() -> Set<PinLocation> {
    Set::new(|l: PinLocation| exists|s: Segment| l == segment_line(s))
}

/// Whether one of the eight segment lines is among `held`.
pub open spec fn segments_busy(held: Set<PinLocation>) -> bool {
    exists|s: Segment| held.contains(segment_line(s))
}

/// The lines of the first `n` segments in declaration order.
pub open spec fn lines_upto(n: int) -> Set<PinLocation> {
    Set::new(|l: PinLocation| exists|k: int| 0 <= k < n && l == segment_line(all_segments()[k]))
}

/// Each segment has a line of its own.
pub proof fn lemma_segment_lines_distinct(a: Segment, b: Segment)
    requires
        segment_line(a) == segment_line(b),
    ensures
        a == b,
{
}

/// The lines of the first `n + 1` segments are those of the first `n` and
/// the line of segment `n`, which is not among them.
pub proof fn lemma_lines_upto_step(n: int)
    requires
        0 <= n < 8,
    ensures
        lines_upto(n + 1) == lines_upto(n).insert(segment_line(all_segments()[n])),
        !lines_upto(n).contains(segment_line(all_segments()[n])),
        lines_upto(0) == Set::<PinLocation>::empty(),
{
    let line = segment_line(all_segments()[n]);
    assert forall|l: PinLocation| lines_upto(n + 1).contains(l) <==> lines_upto(n).insert(
        line,
    ).contains(l) by {
        if lines_upto(n + 1).contains(l) {
            let k = choose|k: int| 0 <= k < n + 1 && l == segment_line(all_segments()[k]);
            if k < n {
                assert(lines_upto(n).contains(l));
            }
        }
        if lines_upto(n).contains(l) {
            let k = choose|k: int| 0 <= k < n && l == segment_line(all_segments()[k]);
            assert(0 <= k < n + 1);
        }
    }
    assert(lines_upto(n + 1) =~= lines_upto(n).insert(line));
    if lines_upto(n).contains(line) {
        let k = choose|k: int| 0 <= k < n && line == segment_line(all_segments()[k]);
        lemma_segment_lines_distinct(all_segments()[k], all_segments()[n]);
        lemma_segment_at_index(all_segments()[k]);
        lemma_segment_at_index(all_segments()[n]);
    }
    assert(lines_upto(0) =~= Set::<PinLocation>::empty());
}

/// The lines of all eight segments are the segment lines.
pub proof fn lemma_lines_upto_all()
    ensures
        lines_upto(8) == segment_lines(),
{
    assert forall|l: PinLocation| lines_upto(8).contains(l) <==> segment_lines().contains(l) by {
        if lines_upto(8).contains(l) {
            let k = choose|k: int| 0 <= k < 8 && l == segment_line(all_segments()[k]);
            assert(l == segment_line(all_segments()[k]));
        }
        if segment_lines().contains(l) {
            let s = choose|s: Segment| l == segment_line(s);
            lemma_segment_at_index(s);
            assert(l == segment_line(all_segments()[s.spec_index()]));
        }
    }
    assert(lines_upto(8) =~= segment_lines());
}

/// One digit of seven segments and a decimal point, each on a leased output
/// line.
pub struct SevenSegmentDisplay {
    lines: Vec<Gpio>,
}

impl SevenSegmentDisplay {
    /// The display holds one output lease per segment, in declaration
    /// order, and the eight are held or released together.
    pub closed spec fn wf(&self) -> bool {
        &&& self.lines@.len() == 8
        &&& forall|i: int|
            0 <= i < 8 ==> {
                &&& (#[trigger] self.lines@[i])@.line == segment_line(all_segments()[i])
                &&& self.lines@[i]@.pin == all_segments()[i].spec_gpio()
                &&& self.lines@[i]@.direction == Direction::Out
                &&& self.lines@[i]@.released == self.lines@[0]@.released
            }
    }

    /// The commanded level of each segment, by segment index.
    pub closed spec fn levels(&self) -> Seq<Level> {
        Seq::new(8, |i: int| self.lines@[i]@.level)
    }

    /// The commanded level of `seg`.
    pub open spec fn level(&self, seg: Segment) -> Level {
        self.levels()[seg.spec_index()]
    }

    /// Whether the display still holds its lines.
    pub closed spec fn live(&self) -> bool {
        !self.lines@[0]@.released
    }

    /// A display has eight segment levels.
    pub proof fn lemma_eight_levels(&self)
        ensures
            self.levels().len() == 8,
    {
    }

    /// Drives one segment.
    pub fn set_segment(&mut self, bank: &mut LineBank, seg: Segment, value: Level) -> (r:
        GpioResult<()>)
        requires
            old(self).wf(),
        ensures
            final(self).wf(),
            final(self).live() == old(self).live(),
            final(bank).held() == old(bank).held(),
            !old(self).live() ==> {
                &&& r == Err::<(), GpioError>(GpioError::NotExported)
                &&& final(self).levels() == old(self).levels()
                &&& *final(bank) == *old(bank)
            },
            old(self).live() ==> {
                &&& r.is_ok()
                &&& final(self).levels() == old(self).levels().update(seg.spec_index(), value)
                &&& final(bank).pending() == old(bank).pending().push(segment_write(seg, value))
            },
    {
        let i: usize = seg.index();
        proof {
            lemma_segment_at_index(seg);
        }
        let r = self.lines[i].set_value(bank, value);
        proof {
            assert forall|k: int| 0 <= k < 8 implies {
                &&& (#[trigger] self.lines@[k])@.line == segment_line(all_segments()[k])
                &&& self.lines@[k]@.pin == all_segments()[k].spec_gpio()
                &&& self.lines@[k]@.direction == Direction::Out
                &&& self.lines@[k]@.released == self.lines@[0]@.released
            } by {
                assert(old(self).lines@[k]@.released == old(self).lines@[0]@.released);
                assert(old(self).lines@[i as int]@.released == old(self).lines@[0]@.released);
            }
            if r.is_ok() {
                assert(self.levels() =~= old(self).levels().update(seg.spec_index(), value));
            } else {
                assert(self.levels() =~= old(self).levels());
            }
        }
        r
    }
    /// Whether the display still holds its lines.
    pub fn is_live(&self) -> (b: bool)
        requires
            self.wf(),
        ensures
            b == self.live(),
    {
        !self.lines[0].is_released()
    }

    /// Whether `seg` is commanded on.
    pub fn is_lit(&self, seg: Segment) -> (b: bool)
        requires
            self.wf(),
        ensures
            b == (self.level(seg) == Level::High),
    {
        let i: usize = seg.index();
        proof {
            lemma_segment_at_index(seg);
        }
        self.lines[i].commanded() == Level::High
    }

    /// Drives each of `segs`, in turn, to `value`.
    fn write_all(&mut self, bank: &mut LineBank, segs: &Vec<Segment>, value: Level) -> (r:
        GpioResult<()>)
        requires
            old(self).wf(),
        ensures
            final(self).wf(),
            final(self).live() == old(self).live(),
            final(bank).held() == old(bank).held(),
            !old(self).live() ==> {
                &&& r == Err::<(), GpioError>(GpioError::NotExported)
                &&& final(self).levels() == old(self).levels()
                &&& *final(bank) == *old(bank)
            },
            old(self).live() ==> {
                &&& r.is_ok()
                &&& final(self).levels() == after_writes(old(self).levels(), segs@, value)
                &&& final(bank).pending() == old(bank).pending() + write_steps(segs@, value)
            },
    {
        if !self.is_live() {
            return Err(GpioError::NotExported);
        }
        let mut i: usize = 0;
        assert(segs@.take(0) =~= Seq::<Segment>::empty());
        assert(bank.pending() =~= old(bank).pending() + write_steps(segs@.take(0), value));
        while i < segs.len()
            invariant
                i <= segs.len(),
                self.wf(),
                self.live(),
                bank.held() == old(bank).held(),
                self.levels() == after_writes(old(self).levels(), segs@.take(i as int), value),
                bank.pending() == old(bank).pending() + write_steps(segs@.take(i as int), value),
            decreases segs.len() - i,
        {
            let ghost before = bank.pending();
            let r = self.set_segment(bank, segs[i], value);
            proof {
                let done = segs@.take(i as int);
                let next = segs@.take(i as int + 1);
                assert(next.drop_last() =~= done);
                assert(next.last() == segs@[i as int]);
                assert(before.push(segment_write(segs@[i as int], value)) =~= old(bank).pending()
                    + write_steps(next, value));
            }
            match r {
                Err(e) => {
                    return Err(e);
                },
                Ok(()) => {},
            }
            i += 1;
        }
        assert(segs@.take(i as int) =~= segs@);
        Ok(())
    }

    /// Switches every segment off, in blanking order.
    pub fn clear_all(&mut self, bank: &mut LineBank) -> (r: GpioResult<()>)
        requires
            old(self).wf(),
        ensures
            final(self).wf(),
            final(self).live() == old(self).live(),
            final(bank).held() == old(bank).held(),
            !old(self).live() ==> {
                &&& r == Err::<(), GpioError>(GpioError::NotExported)
                &&& final(self).levels() == old(self).levels()
                &&& *final(bank) == *old(bank)
            },
            old(self).live() ==> {
                &&& r.is_ok()
                &&& final(self).levels() == all_dark()
                &&& final(bank).pending() == old(bank).pending() + blank_steps()
            },
    {
        let segs = segments_in_blanking_order();
        proof {
            lemma_blanking_darkens(old(self).levels());
        }
        self.write_all(bank, &segs, Level::Low)
    }

    /// Shows `digit`: every segment is switched off first, then the glyph's
    /// segments are switched on, so that two glyphs never overlap. A value
    /// above 10 leaves the display blank.
    pub fn set_digit(&mut self, bank: &mut LineBank, digit: u8) -> (r: GpioResult<()>)
        requires
            old(self).wf(),
        ensures
            final(self).wf(),
            final(self).live() == old(self).live(),
            final(bank).held() == old(bank).held(),
            !old(self).live() ==> {
                &&& r == Err::<(), GpioError>(GpioError::NotExported)
                &&& final(self).levels() == old(self).levels()
                &&& *final(bank) == *old(bank)
            },
            old(self).live() ==> {
                &&& r.is_ok()
                &&& final(self).levels() == glyph_levels(digit)
                &&& final(bank).pending() == old(bank).pending() + digit_steps(digit)
            },
    {
        match self.clear_all(bank) {
            Err(e) => {
                return Err(e);
            },
            Ok(()) => {},
        }
        let segs = segments_for(digit);
        proof {
            lemma_glyph_lights(digit);
        }
        let r = self.write_all(bank, &segs, Level::High);
        assert(r.is_ok() ==> bank.pending() =~= old(bank).pending() + digit_steps(digit));
        r
    }

    /// Switches the decimal point on or off and leaves the other segments
    /// as they are.
    pub fn set_decimal_point(&mut self, bank: &mut LineBank, state: bool) -> (r: GpioResult<()>)
        requires
            old(self).wf(),
        ensures
            final(self).wf(),
            final(self).live() == old(self).live(),
            final(bank).held() == old(bank).held(),
            !old(self).live() ==> {
                &&& r == Err::<(), GpioError>(GpioError::NotExported)
                &&& final(self).levels() == old(self).levels()
                &&& *final(bank) == *old(bank)
            },
            old(self).live() ==> {
                &&& r.is_ok()
                &&& final(self).levels()
                    == old(self).levels().update(Segment::DP.spec_index(), point_level(state))
                &&& final(bank).pending()
                    == old(bank).pending().push(segment_write(Segment::DP, point_level(state)))
            },
    {
        self.set_segment(
            bank,
            Segment::DP,
            if state {
                Level::High
            } else {
                Level::Low
            },
        )
    }
    /// Leases the eight segment lines as outputs that start off. Where one
    /// of them is leased already, nothing is leased and nothing recorded.
    pub fn new(bank: &mut LineBank) -> (r: GpioResult<SevenSegmentDisplay>)
        ensures
            segments_busy(old(bank).held()) ==> {
                &&& r.is_err()
                &&& r->Err_0 == GpioError::LineInUse
                &&& *final(bank) == *old(bank)
            },
            !segments_busy(old(bank).held()) ==> {
                &&& r.is_ok()
                &&& r->Ok_0.wf()
                &&& r->Ok_0.live()
                &&& r->Ok_0.levels() == all_dark()
                &&& final(bank).held() == old(bank).held().union(segment_lines())
                &&& final(bank).pending() == old(bank).pending() + request_steps()
            },
    {
        let segs = segments_in_order();
        let mut i: usize = 0;
        while i < 8
            invariant
                i <= 8,
                segs@ == all_segments(),
                *bank == *old(bank),
                forall|k: int| 0 <= k < i ==> !old(bank).held().contains(segment_line(segs@[k])),
            decreases 8 - i,
        {
            match resolve(segs[i].gpio()) {
                Err(e) => {
                    return Err(e);
                },
                Ok(line) => {
                    if bank.is_held(line) {
                        assert(old(bank).held().contains(segment_line(segs@[i as int])));
                        return Err(GpioError::LineInUse);
                    }
                },
            }
            i += 1;
        }
        proof {
            assert forall|s: Segment| !old(bank).held().contains(segment_line(s)) by {
                lemma_segment_at_index(s);
            }
            lemma_lines_upto_step(0);
            assert(old(bank).held().union(lines_upto(0)) =~= old(bank).held());
            assert(old(bank).pending() + request_steps().take(0) =~= old(bank).pending());
        }
        let mut lines: Vec<Gpio> = Vec::new();
        let mut j: usize = 0;
        while j < 8
            invariant
                j <= 8,
                segs@ == all_segments(),
                lines@.len() == j,
                forall|s: Segment| !old(bank).held().contains(segment_line(s)),
                forall|k: int|
                    0 <= k < j ==> {
                        &&& (#[trigger] lines@[k])@.line == segment_line(all_segments()[k])
                        &&& lines@[k]@.pin == all_segments()[k].spec_gpio()
                        &&& lines@[k]@.direction == Direction::Out
                        &&& lines@[k]@.level == Level::Low
                        &&& !lines@[k]@.released
                    },
                bank.held() == old(bank).held().union(lines_upto(j as int)),
                bank.pending() == old(bank).pending() + request_steps().take(j as int),
            decreases 8 - j,
        {
            let seg = segs[j];
            let ghost before = bank.pending();
            proof {
                lemma_lines_upto_step(j as int);
            }
            match resolve(seg.gpio()) {
                Err(e) => {
                    return Err(e);
                },
                Ok(line) => {
                    match Gpio::acquire(
                        bank,
                        line,
                        seg.gpio() as u16,
                        Direction::Out,
                        Level::Low,
                        Edge::Off,
                        ActiveLevel::High,
                    ) {
                        Err(e) => {
                            return Err(e);
                        },
                        Ok(lease) => {
                            lines.push(lease);
                        },
                    }
                },
            }
            proof {
                assert(bank.held() =~= old(bank).held().union(lines_upto(j as int + 1)));
                assert(before.push(segment_request(seg)) =~= old(bank).pending()
                    + request_steps().take(j as int + 1));
            }
            j += 1;
        }
        let display = SevenSegmentDisplay { lines };
        proof {
            lemma_lines_upto_all();
            assert(request_steps().take(8) =~= request_steps());
            assert(display.levels() =~= all_dark());
        }
        Ok(display)
    }

    /// Ends the display's life: every segment is switched off and the eight
    /// lines are given back. On a display that was released before, nothing
    /// happens.
    pub fn release(&mut self, bank: &mut LineBank)
        requires
            old(self).wf(),
        ensures
            final(self).wf(),
            !final(self).live(),
            !old(self).live() ==> {
                &&& final(self).levels() == old(self).levels()
                &&& *final(bank) == *old(bank)
            },
            old(self).live() ==> {
                &&& final(self).levels() == all_dark()
                &&& final(bank).held() == old(bank).held().difference(segment_lines())
                &&& final(bank).pending() == old(bank).pending() + blank_steps() + release_steps()
            },
    {
        match self.clear_all(bank) {
            Err(_) => {
                return ;
            },
            Ok(()) => {},
        }
        let ghost dark = bank.pending();
        let ghost start = bank.held();
        proof {
            lemma_lines_upto_step(0);
            assert(start.difference(lines_upto(0)) =~= start);
            assert(dark + release_steps().take(0) =~= dark);
        }
        let mut j: usize = 0;
        while j < 8
            invariant
                j <= 8,
                self.lines@.len() == 8,
                self.levels() == all_dark(),
                forall|k: int|
                    0 <= k < 8 ==> {
                        &&& (#[trigger] self.lines@[k])@.line == segment_line(all_segments()[k])
                        &&& self.lines@[k]@.pin == all_segments()[k].spec_gpio()
                        &&& self.lines@[k]@.direction == Direction::Out
                        &&& self.lines@[k]@.released == (k < j)
                    },
                bank.held() == start.difference(lines_upto(j as int)),
                bank.pending() == dark + release_steps().take(j as int),
            decreases 8 - j,
        {
            let ghost before = bank.pending();
            let ghost levels = self.levels();
            proof {
                lemma_lines_upto_step(j as int);
            }
            self.lines[j].release(bank);
            proof {
                assert(self.levels() =~= levels);
                assert(bank.held() =~= start.difference(lines_upto(j as int + 1)));
                assert(before.push(
                    Action::Release { line: segment_line(all_segments()[j as int]) },
                ) =~= dark + release_steps().take(j as int + 1));
            }
            j += 1;
        }
        proof {
            lemma_lines_upto_all();
            assert(release_steps().take(8) =~= release_steps());
        }
    }
}

/// The level that switches the decimal point on (`true`) or off.
pub open spec fn point_level(state: bool) -> Level {
    if state {
        Level::High
    } else {
        Level::Low
    }
}

} // verus!
