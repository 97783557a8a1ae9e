//! Four seven-segment digits that share their segment lines and are shown
//! one at a time.

use vstd::prelude::*;
use crate::gpio::{ActiveLevel, Direction, Edge, Gpio, GpioError, GpioResult, Level};
use crate::lines::{Action, LineBank};
use crate::pins::{band_location, resolve, PinLocation};
use crate::segment::Segment;
use crate::seven_segment::{
    all_dark, blank_steps, digit_steps, glyph_levels, point_level, release_steps, request_steps,
    segment_line, segment_lines, segment_write, segments_busy,
};

verus! {

/// One of the four digit positions, leftmost first.
#[allow(non_camel_case_types)]
#[derive(Debug, Clone, Copy, PartialEq, Eq, Hash, Structural)]
pub enum Digits {
    D_1,
    D_2,
    D_3,
    D_4,
}

impl Digits {
    /// The board-wide pin number of the position's select line.
    pub open spec fn spec_gpio(self) -> u32 {
        match self {
            Digits::D_1 => 540,
            Digits::D_2 => 528,
            Digits::D_3 => 529,
            Digits::D_4 => 595,
        }
    }

    /// The position counted from the left, starting at 0.
    pub open spec fn spec_index(self) -> int {
        match self {
            Digits::D_1 => 0,
            Digits::D_2 => 1,
            Digits::D_3 => 2,
            Digits::D_4 => 3,
        }
    }

    pub fn gpio(&self) -> (pin: u32)
        ensures
            pin == self.spec_gpio(),
    {
        match self {
            Digits::D_1 => 540,
            Digits::D_2 => 528,
            Digits::D_3 => 529,
            Digits::D_4 => 595,
        }
    }

    pub fn index(&self) -> (i: usize)
        ensures
            i == self.spec_index(),
            i < 4,
    {
        match self {
            Digits::D_1 => 0,
            Digits::D_2 => 1,
            Digits::D_3 => 2,
            Digits::D_4 => 3,
        }
    }
}

/// The four positions in sweep order.
pub open spec fn all_digits() -> Seq<Digits> {
    seq![Digits::D_1, Digits::D_2, Digits::D_3, Digits::D_4]
}

/// The four positions in sweep order.
pub fn digits_in_order() -> (digits: Vec<Digits>)
    ensures
        digits@ == all_digits(),
{
    let digits = vec![Digits::D_1, Digits::D_2, Digits::D_3, Digits::D_4];
    assert(digits@ =~= all_digits());
    digits
}

/// A position stands at its own index in sweep order.
pub proof fn lemma_digit_at_index(digit: Digits)
    ensures
        0 <= digit.spec_index() < 4,
        all_digits().len() == 4,
        all_digits()[digit.spec_index()] == digit,
{
}

/// The select line of `digit`.
pub open spec fn digit_line(digit: Digits) -> PinLocation {
    band_location(digit.spec_gpio())
}

/// The level of a select line that shows (`true`) or hides its digit: the
/// select lines sink the digit's current, so a digit is shown while its
/// line is `Low`.
pub open spec fn select_level(shown: bool) -> Level {
    if shown {
        Level::Low
    } else {
        Level::High
    }
}

/// The step that drives the select line of `digit` to `level`.
pub open spec fn digit_write(digit: Digits, level: Level) -> Action {
    Action::Write { line: digit_line(digit), level }
}

/// The steps that drive the four select lines, in sweep order, so that
/// `target` is shown and every other digit is hidden.
pub open spec fn select_steps(target: Option<Digits>) -> Seq<Action> {
    Seq::new(
        4,
        |i: int| digit_write(all_digits()[i], select_level(target == Some(all_digits()[i]))),
    )
}

/// The steps that hide all four digits, in sweep order.
pub open spec fn disable_steps() -> Seq<Action> {
    select_steps(None)
}

/// The steps that show `target` and hide the other three, in sweep order.
pub open spec fn enable_steps(target: Digits) -> Seq<Action> {
    select_steps(Some(target))
}

/// Select levels with `target` shown and every other digit hidden.
pub open spec fn selected(target: Option<Digits>) -> Seq<Level> {
    Seq::new(4, |i: int| select_level(target == Some(all_digits()[i])))
}

/// Select levels with every digit hidden.
pub open spec fn all_hidden() -> Seq<Level> {
    selected(None)
}

/// Select levels with `target` shown and the others hidden.
pub open spec fn only_shown(target: Digits) -> Seq<Level> {
    selected(Some(target))
}

/// The request that leases the select line of `digit`: an active-high
/// output that starts with the digit hidden.
pub open spec fn digit_request(digit: Digits) -> Action {
    Action::Request {
        line: digit_line(digit),
        direction: Direction::Out,
        active: ActiveLevel::High,
        edge: Edge::Off,
        initial: select_level(false),
    }
}

/// The requests for the four select lines, in sweep order.
pub open spec fn digit_request_steps() -> Seq<Action> {
    Seq::new(4, |i: int| digit_request(all_digits()[i]))
}

/// The releases of the four select lines, in sweep order.
pub open spec fn digit_release_steps() -> Seq<Action> {
    Seq::new(4, |i: int| Action::Release { line: digit_line(all_digits()[i]) })
}

/// The four select lines.
pub open spec fn digit_lines() -> Set<PinLocation> {
    Set::new(|l: PinLocation| exists|d: Digits| l == digit_line(d))
}

/// The select lines of the first `n` positions.
pub open spec fn digit_lines_upto(n: int) -> Set<PinLocation> {
    Set::new(|l: PinLocation| exists|k: int| 0 <= k < n && l == digit_line(all_digits()[k]))
}

/// Each position has a select line of its own, and none of them drives a
/// segment.
pub proof fn lemma_digit_lines_distinct(a: Digits, b: Digits, s: Segment)
    ensures
        digit_line(a) == digit_line(b) ==> a == b,
        digit_line(a) != segment_line(s),
{
}

/// The select lines of the first `n + 1` positions are those of the first
/// `n` and the line of position `n`, which is not among them.
pub proof fn lemma_digit_lines_upto_step(n: int)
    requires
        0 <= n < 4,
    ensures
        digit_lines_upto(n + 1) == digit_lines_upto(n).insert(digit_line(all_digits()[n])),
        !digit_lines_upto(n).contains(digit_line(all_digits()[n])),
        digit_lines_upto(0) == Set::<PinLocation>::empty(),
{
    let line = digit_line(all_digits()[n]);
    assert forall|l: PinLocation| digit_lines_upto(n + 1).contains(l) <==> digit_lines_upto(
        n,
    ).insert(line).contains(l) by {
        if digit_lines_upto(n + 1).contains(l) {
            let k = choose|k: int| 0 <= k < n + 1 && l == digit_line(all_digits()[k]);
            if k < n {
                assert(digit_lines_upto(n).contains(l));
            }
        }
        if digit_lines_upto(n).contains(l) {
            let k = choose|k: int| 0 <= k < n && l == digit_line(all_digits()[k]);
            assert(0 <= k < n + 1);
        }
    }
    assert(digit_lines_upto(n + 1) =~= digit_lines_upto(n).insert(line));
    if digit_lines_upto(n).contains(line) {
        let k = choose|k: int| 0 <= k < n && line == digit_line(all_digits()[k]);
        lemma_digit_lines_distinct(all_digits()[k], all_digits()[n], Segment::A);
        lemma_digit_at_index(all_digits()[k]);
        lemma_digit_at_index(all_digits()[n]);
    }
    assert(digit_lines_upto(0) =~= Set::<PinLocation>::empty());
}

/// The select lines of all four positions are the select lines.
pub proof fn lemma_digit_lines_upto_all()
    ensures
        digit_lines_upto(4) == digit_lines(),
{
    assert forall|l: PinLocation| digit_lines_upto(4).contains(l) <==> digit_lines().contains(
        l,
    ) by {
        if digit_lines_upto(4).contains(l) {
            let k = choose|k: int| 0 <= k < 4 && l == digit_line(all_digits()[k]);
            assert(l == digit_line(all_digits()[k]));
        }
        if digit_lines().contains(l) {
            let d = choose|d: Digits| l == digit_line(d);
            lemma_digit_at_index(d);
            assert(l == digit_line(all_digits()[d.spec_index()]));
        }
    }
    assert(digit_lines_upto(4) =~= digit_lines());
}

/// The step, if any, that switches the decimal point on after a glyph has
/// been put on the segment lines.
pub open spec fn point_steps(point: bool) -> Seq<Action> {
    if point {
        seq![segment_write(Segment::DP, Level::High)]
    } else {
        Seq::<Action>::empty()
    }
}

/// The steps that show `digit` at `position` for `dwell` milliseconds:
/// every digit is hidden, the glyph is put on the segment lines, the
/// position is shown, and the lines are left alone for the dwell time.
pub open spec fn position_steps(position: Digits, digit: u8, point: bool, dwell: u64) -> Seq<
    Action,
> {
    disable_steps() + digit_steps(digit) + point_steps(point) + enable_steps(position)
        + seq![Action::Hold { millis: dwell }]
}

/// The steps of one sweep: the four positions, left to right, each showing
/// its digit of `digits`, the decimal point lit at `point` only.
pub open spec fn sweep_steps(digits: Seq<u8>, point: Option<Digits>, dwell: u64) -> Seq<Action>
    recommends
        digits.len() == 4,
{
    position_steps(Digits::D_1, digits[0], point == Some(Digits::D_1), dwell) + position_steps(
        Digits::D_2,
        digits[1],
        point == Some(Digits::D_2),
        dwell,
    ) + position_steps(Digits::D_3, digits[2], point == Some(Digits::D_3), dwell)
        + position_steps(Digits::D_4, digits[3], point == Some(Digits::D_4), dwell)
}

/// The segment levels that show `digit` with the decimal point on or off.
pub open spec fn pointed_levels(digit: u8, point: bool) -> Seq<Level> {
    glyph_levels(digit).update(Segment::DP.spec_index(), point_level(point))
}

/// Whether one of the display's twelve lines is among `held`.
pub open spec fn lines_busy(held: Set<PinLocation>) -> bool {
    ||| segments_busy(held)
    ||| exists|d: Digits| held.contains(digit_line(d))
}

/// Four digits on shared segment lines, with one select line each.
pub struct SevenSegmentDisplay {
    segments: crate::seven_segment::SevenSegmentDisplay,
    digits: Vec<Gpio>,
}

impl SevenSegmentDisplay {
    /// The display holds the eight segment leases and one output lease per
    /// select line, in sweep order, and all of them are held or released
    /// together.
    pub closed spec fn wf(&self) -> bool {
        &&& self.segments.wf()
        &&& self.digits@.len() == 4
        &&& forall|i: int|
            0 <= i < 4 ==> {
                &&& (#[trigger] self.digits@[i])@.line == digit_line(all_digits()[i])
                &&& self.digits@[i]@.pin == all_digits()[i].spec_gpio()
                &&& self.digits@[i]@.direction == Direction::Out
                &&& self.digits@[i]@.released == !self.segments.live()
            }
    }

    /// The commanded level of each segment, by segment index.
    pub closed spec fn levels(&self) -> Seq<Level> {
        self.segments.levels()
    }

    /// The commanded level of `seg`.
    pub open spec fn level(&self, seg: Segment) -> Level {
        self.levels()[seg.spec_index()]
    }

    /// The commanded level of each select line, in sweep order.
    pub closed spec fn selects(&self) -> Seq<Level> {
        Seq::new(4, |i: int| self.digits@[i]@.level)
    }

    /// Whether `digit` is shown.
    pub open spec fn shown(&self, digit: Digits) -> bool {
        self.selects()[digit.spec_index()] == select_level(true)
    }

    /// Whether the display still holds its lines.
    pub closed spec fn live(&self) -> bool {
        self.segments.live()
    }

    /// A display has eight segment levels and four select levels.
    pub proof fn lemma_level_counts(&self)
        ensures
            self.levels().len() == 8,
            self.selects().len() == 4,
    {
        self.segments.lemma_eight_levels();
    }

    /// Whether the display still holds its lines.
    pub fn is_live(&self) -> (b: bool)
        requires
            self.wf(),
        ensures
            b == self.live(),
    {
        self.segments.is_live()
    }

    /// Whether `seg` is commanded on.
    pub fn is_lit(&self, seg: Segment) -> (b: bool)
        requires
            self.wf(),
        ensures
            b == (self.level(seg) == Level::High),
    {
        self.segments.is_lit(seg)
    }

    /// Whether `digit` is shown.
    pub fn is_shown(&self, digit: Digits) -> (b: bool)
        requires
            self.wf(),
        ensures
            b == self.shown(digit),
    {
        let i: usize = digit.index();
        self.digits[i].commanded() == Level::Low
    }

    /// Drives one segment.
    pub fn set_segment(&mut self, bank: &mut LineBank, seg: Segment, value: Level) -> (r:
        GpioResult<()>)
        requires
            old(self).wf(),
        ensures
            final(self).wf(),
            final(self).live() == old(self).live(),
            final(self).selects() == old(self).selects(),
            final(bank).held() == old(bank).held(),
            !old(self).live() ==> {
                &&& r == Err::<(), GpioError>(GpioError::NotExported)
                &&& final(self).levels() == old(self).levels()
                &&& *final(bank) == *old(bank)
            },
            old(self).live() ==> {
                &&& r.is_ok()
                &&& final(self).levels() == old(self).levels().update(seg.spec_index(), value)
                &&& final(bank).pending() == old(bank).pending().push(segment_write(seg, value))
            },
    {
        self.segments.set_segment(bank, seg, value)
    }

    /// Switches every segment off, in blanking order.
    pub fn clear_all(&mut self, bank: &mut LineBank) -> (r: GpioResult<()>)
        requires
            old(self).wf(),
        ensures
            final(self).wf(),
            final(self).live() == old(self).live(),
            final(self).selects() == old(self).selects(),
            final(bank).held() == old(bank).held(),
            !old(self).live() ==> {
                &&& r == Err::<(), GpioError>(GpioError::NotExported)
                &&& final(self).levels() == old(self).levels()
                &&& *final(bank) == *old(bank)
            },
            old(self).live() ==> {
                &&& r.is_ok()
                &&& final(self).levels() == all_dark()
                &&& final(bank).pending() == old(bank).pending() + blank_steps()
            },
    {
        self.segments.clear_all(bank)
    }

    /// Puts the glyph of `digit` on the segment lines: every segment is
    /// switched off first, then the glyph's segments are switched on. The
    /// select lines are left as they are.
    pub fn set_digit(&mut self, bank: &mut LineBank, digit: u8) -> (r: GpioResult<()>)
        requires
            old(self).wf(),
        ensures
            final(self).wf(),
            final(self).live() == old(self).live(),
            final(self).selects() == old(self).selects(),
            final(bank).held() == old(bank).held(),
            !old(self).live() ==> {
                &&& r == Err::<(), GpioError>(GpioError::NotExported)
                &&& final(self).levels() == old(self).levels()
                &&& *final(bank) == *old(bank)
            },
            old(self).live() ==> {
                &&& r.is_ok()
                &&& final(self).levels() == glyph_levels(digit)
                &&& final(bank).pending() == old(bank).pending() + digit_steps(digit)
            },
    {
        self.segments.set_digit(bank, digit)
    }

    /// Switches the decimal point on or off and leaves the other segments
    /// as they are.
    pub fn set_decimal_point(&mut self, bank: &mut LineBank, state: bool) -> (r: GpioResult<()>)
        requires
            old(self).wf(),
        ensures
            final(self).wf(),
            final(self).live() == old(self).live(),
            final(self).selects() == old(self).selects(),
            final(bank).held() == old(bank).held(),
            !old(self).live() ==> {
                &&& r == Err::<(), GpioError>(GpioError::NotExported)
                &&& final(self).levels() == old(self).levels()
                &&& *final(bank) == *old(bank)
            },
            old(self).live() ==> {
                &&& r.is_ok()
                &&& final(self).levels()
                    == old(self).levels().update(Segment::DP.spec_index(), point_level(state))
                &&& final(bank).pending()
                    == old(bank).pending().push(segment_write(Segment::DP, point_level(state)))
            },
    {
        self.segments.set_decimal_point(bank, state)
    }
    /// Drives the four select lines, in sweep order, so that `target` is
    /// shown and every other digit is hidden.
    fn write_selects(&mut self, bank: &mut LineBank, target: Option<Digits>) -> (r: GpioResult<()>)
        requires
            old(self).wf(),
        ensures
            final(self).wf(),
            final(self).live() == old(self).live(),
            final(self).levels() == old(self).levels(),
            final(bank).held() == old(bank).held(),
            !old(self).live() ==> {
                &&& r == Err::<(), GpioError>(GpioError::NotExported)
                &&& final(self).selects() == old(self).selects()
                &&& *final(bank) == *old(bank)
            },
            old(self).live() ==> {
                &&& r.is_ok()
                &&& final(self).selects() == selected(target)
                &&& final(bank).pending() == old(bank).pending() + select_steps(target)
            },
    {
        if !self.is_live() {
            return Err(GpioError::NotExported);
        }
        let order = digits_in_order();
        assert(old(bank).pending() + select_steps(target).take(0) =~= old(bank).pending());
        let mut i: usize = 0;
        while i < 4
            invariant
                i <= 4,
                order@ == all_digits(),
                self.segments == old(self).segments,
                self.segments.wf(),
                self.segments.live(),
                self.digits@.len() == 4,
                forall|k: int|
                    0 <= k < 4 ==> {
                        &&& (#[trigger] self.digits@[k])@.line == digit_line(all_digits()[k])
                        &&& self.digits@[k]@.pin == all_digits()[k].spec_gpio()
                        &&& self.digits@[k]@.direction == Direction::Out
                        &&& !self.digits@[k]@.released
                        &&& k < i ==> self.digits@[k]@.level == select_level(
                            target == Some(all_digits()[k]),
                        )
                    },
                bank.held() == old(bank).held(),
                bank.pending() == old(bank).pending() + select_steps(target).take(i as int),
            decreases 4 - i,
        {
            let digit = order[i];
            let level = match target {
                Some(t) => if t == digit {
                    Level::Low
                } else {
                    Level::High
                },
                None => Level::High,
            };
            let ghost before = bank.pending();
            let r = self.digits[i].set_value(bank, level);
            proof {
                assert(before.push(digit_write(digit, level)) =~= old(bank).pending()
                    + select_steps(target).take(i as int + 1));
            }
            match r {
                Err(e) => {
                    return Err(e);
                },
                Ok(()) => {},
            }
            i += 1;
        }
        proof {
            assert(select_steps(target).take(4) =~= select_steps(target));
            assert(self.selects() =~= selected(target));
        }
        Ok(())
    }

    /// Shows `target` and hides the other three digits: the four select
    /// lines are written in sweep order.
    pub fn enable_digit(&mut self, bank: &mut LineBank, target: Digits) -> (r: GpioResult<()>)
        requires
            old(self).wf(),
        ensures
            final(self).wf(),
            final(self).live() == old(self).live(),
            final(self).levels() == old(self).levels(),
            final(bank).held() == old(bank).held(),
            !old(self).live() ==> {
                &&& r == Err::<(), GpioError>(GpioError::NotExported)
                &&& final(self).selects() == old(self).selects()
                &&& *final(bank) == *old(bank)
            },
            old(self).live() ==> {
                &&& r.is_ok()
                &&& final(self).selects() == only_shown(target)
                &&& final(bank).pending() == old(bank).pending() + enable_steps(target)
            },
    {
        self.write_selects(bank, Some(target))
    }

    /// Hides all four digits: the four select lines are written in sweep
    /// order.
    pub fn disable_digits(&mut self, bank: &mut LineBank) -> (r: GpioResult<()>)
        requires
            old(self).wf(),
        ensures
            final(self).wf(),
            final(self).live() == old(self).live(),
            final(self).levels() == old(self).levels(),
            final(bank).held() == old(bank).held(),
            !old(self).live() ==> {
                &&& r == Err::<(), GpioError>(GpioError::NotExported)
                &&& final(self).selects() == old(self).selects()
                &&& *final(bank) == *old(bank)
            },
            old(self).live() ==> {
                &&& r.is_ok()
                &&& final(self).selects() == all_hidden()
                &&& final(bank).pending() == old(bank).pending() + disable_steps()
            },
    {
        self.write_selects(bank, None)
    }
    /// Shows `digit` at `position` for `dwell` milliseconds, with the
    /// decimal point lit if `point` is set. All four digits are hidden
    /// before the segment lines change, and `position` is shown only once
    /// they carry the new glyph.
    pub fn show_at(
        &mut self,
        bank: &mut LineBank,
        position: Digits,
        digit: u8,
        point: bool,
        dwell: u64,
    ) -> (r: GpioResult<()>)
        requires
            old(self).wf(),
        ensures
            final(self).wf(),
            final(self).live() == old(self).live(),
            final(bank).held() == old(bank).held(),
            !old(self).live() ==> {
                &&& r == Err::<(), GpioError>(GpioError::NotExported)
                &&& final(self).levels() == old(self).levels()
                &&& final(self).selects() == old(self).selects()
                &&& *final(bank) == *old(bank)
            },
            old(self).live() ==> {
                &&& r.is_ok()
                &&& final(self).levels() == pointed_levels(digit, point)
                &&& final(self).selects() == only_shown(position)
                &&& final(bank).pending()
                    == old(bank).pending() + position_steps(position, digit, point, dwell)
            },
    {
        match self.disable_digits(bank) {
            Err(e) => {
                return Err(e);
            },
            Ok(()) => {},
        }
        match self.set_digit(bank, digit) {
            Err(e) => {
                return Err(e);
            },
            Ok(()) => {},
        }
        if point {
            match self.set_decimal_point(bank, true) {
                Err(e) => {
                    return Err(e);
                },
                Ok(()) => {},
            }
        }
        proof {
            crate::segment::lemma_glyph_blank(digit);
            crate::segment::lemma_segment_at_index(Segment::DP);
            assert(self.levels() =~= pointed_levels(digit, point));
            assert(bank.pending() =~= old(bank).pending() + disable_steps() + digit_steps(digit)
                + point_steps(point));
        }
        match self.enable_digit(bank, position) {
            Err(e) => {
                return Err(e);
            },
            Ok(()) => {},
        }
        bank.hold(dwell);
        proof {
            assert(bank.pending() =~= old(bank).pending() + position_steps(
                position,
                digit,
                point,
                dwell,
            ));
        }
        Ok(())
    }

    /// One sweep over the four positions, left to right: each shows its
    /// digit of `digits` for `dwell` milliseconds, and the decimal point is
    /// lit at `point` only.
    pub fn sweep(
        &mut self,
        bank: &mut LineBank,
        digits: [u8; 4],
        point: Option<Digits>,
        dwell: u64,
    ) -> (r: GpioResult<()>)
        requires
            old(self).wf(),
        ensures
            final(self).wf(),
            final(self).live() == old(self).live(),
            final(bank).held() == old(bank).held(),
            !old(self).live() ==> {
                &&& r == Err::<(), GpioError>(GpioError::NotExported)
                &&& final(self).levels() == old(self).levels()
                &&& final(self).selects() == old(self).selects()
                &&& *final(bank) == *old(bank)
            },
            old(self).live() ==> {
                &&& r.is_ok()
                &&& final(self).levels() == pointed_levels(digits@[3], point == Some(Digits::D_4))
                &&& final(self).selects() == only_shown(Digits::D_4)
                &&& final(bank).pending()
                    == old(bank).pending() + sweep_steps(digits@, point, dwell)
            },
    {
        let ghost start = bank.pending();
        let ghost first = position_steps(
            Digits::D_1,
            digits@[0],
            point == Some(Digits::D_1),
            dwell,
        );
        let ghost second = position_steps(
            Digits::D_2,
            digits@[1],
            point == Some(Digits::D_2),
            dwell,
        );
        let ghost third = position_steps(
            Digits::D_3,
            digits@[2],
            point == Some(Digits::D_3),
            dwell,
        );
        let ghost fourth = position_steps(
            Digits::D_4,
            digits@[3],
            point == Some(Digits::D_4),
            dwell,
        );
        match self.show_at(bank, Digits::D_1, digits[0], is_point(point, Digits::D_1), dwell) {
            Err(e) => {
                return Err(e);
            },
            Ok(()) => {},
        }
        match self.show_at(bank, Digits::D_2, digits[1], is_point(point, Digits::D_2), dwell) {
            Err(e) => {
                return Err(e);
            },
            Ok(()) => {},
        }
        match self.show_at(bank, Digits::D_3, digits[2], is_point(point, Digits::D_3), dwell) {
            Err(e) => {
                return Err(e);
            },
            Ok(()) => {},
        }
        match self.show_at(bank, Digits::D_4, digits[3], is_point(point, Digits::D_4), dwell) {
            Err(e) => {
                return Err(e);
            },
            Ok(()) => {},
        }
        proof {
            assert(bank.pending() =~= start + (first + second + third + fourth));
        }
        Ok(())
    }
    /// Leases the eight segment lines and the four select lines as outputs.
    /// The segments start off and every digit starts hidden. Where one of
    /// the twelve lines is leased already, nothing is leased and nothing
    /// recorded.
    pub fn new(bank: &mut LineBank) -> (r: GpioResult<SevenSegmentDisplay>)
        ensures
            lines_busy(old(bank).held()) ==> {
                &&& r.is_err()
                &&& r->Err_0 == GpioError::LineInUse
                &&& *final(bank) == *old(bank)
            },
            !lines_busy(old(bank).held()) ==> {
                &&& r.is_ok()
                &&& r->Ok_0.wf()
                &&& r->Ok_0.live()
                &&& r->Ok_0.levels() == all_dark()
                &&& r->Ok_0.selects() == all_hidden()
                &&& final(bank).held()
                    == old(bank).held().union(segment_lines()).union(digit_lines())
                &&& final(bank).pending()
                    == old(bank).pending() + request_steps() + digit_request_steps()
            },
    {
        let order = digits_in_order();
        let mut i: usize = 0;
        while i < 4
            invariant
                i <= 4,
                order@ == all_digits(),
                *bank == *old(bank),
                forall|k: int| 0 <= k < i ==> !old(bank).held().contains(digit_line(order@[k])),
            decreases 4 - i,
        {
            match resolve(order[i].gpio()) {
                Err(e) => {
                    return Err(e);
                },
                Ok(line) => {
                    if bank.is_held(line) {
                        assert(old(bank).held().contains(digit_line(order@[i as int])));
                        return Err(GpioError::LineInUse);
                    }
                },
            }
            i += 1;
        }
        proof {
            assert forall|d: Digits| !old(bank).held().contains(digit_line(d)) by {
                lemma_digit_at_index(d);
            }
        }
        let segments = match crate::seven_segment::SevenSegmentDisplay::new(bank) {
            Err(e) => {
                return Err(e);
            },
            Ok(segments) => segments,
        };
        let ghost base = bank.held();
        let ghost asked = bank.pending();
        proof {
            lemma_digit_lines_upto_step(0);
            assert(base.union(digit_lines_upto(0)) =~= base);
            assert(asked + digit_request_steps().take(0) =~= asked);
            assert forall|d: Digits| !base.contains(digit_line(d)) by {
                if segment_lines().contains(digit_line(d)) {
                    let s = choose|s: Segment| digit_line(d) == segment_line(s);
                    lemma_digit_lines_distinct(d, d, s);
                }
            }
        }
        let mut digits: Vec<Gpio> = Vec::new();
        let mut j: usize = 0;
        while j < 4
            invariant
                j <= 4,
                order@ == all_digits(),
                digits@.len() == j,
                forall|d: Digits| !base.contains(digit_line(d)),
                forall|k: int|
                    0 <= k < j ==> {
                        &&& (#[trigger] digits@[k])@.line == digit_line(all_digits()[k])
                        &&& digits@[k]@.pin == all_digits()[k].spec_gpio()
                        &&& digits@[k]@.direction == Direction::Out
                        &&& digits@[k]@.level == select_level(false)
                        &&& !digits@[k]@.released
                    },
                bank.held() == base.union(digit_lines_upto(j as int)),
                bank.pending() == asked + digit_request_steps().take(j as int),
            decreases 4 - j,
        {
            let digit = order[j];
            let ghost before = bank.pending();
            proof {
                lemma_digit_lines_upto_step(j as int);
            }
            match resolve(digit.gpio()) {
                Err(e) => {
                    return Err(e);
                },
                Ok(line) => {
                    match Gpio::acquire(
                        bank,
                        line,
                        digit.gpio() as u16,
                        Direction::Out,
                        Level::High,
                        Edge::Off,
                        ActiveLevel::High,
                    ) {
                        Err(e) => {
                            return Err(e);
                        },
                        Ok(lease) => {
                            digits.push(lease);
                        },
                    }
                },
            }
            proof {
                assert(bank.held() =~= base.union(digit_lines_upto(j as int + 1)));
                assert(before.push(digit_request(digit)) =~= asked + digit_request_steps().take(
                    j as int + 1,
                ));
            }
            j += 1;
        }
        let display = SevenSegmentDisplay { segments, digits };
        proof {
            lemma_digit_lines_upto_all();
            assert(digit_request_steps().take(4) =~= digit_request_steps());
            assert(display.selects() =~= all_hidden());
        }
        Ok(display)
    }

    /// Ends the display's life: every segment is switched off and the
    /// twelve lines are given back, the segment lines first. On a display
    /// that was released before, nothing happens.
    pub fn release(&mut self, bank: &mut LineBank)
        requires
            old(self).wf(),
        ensures
            final(self).wf(),
            !final(self).live(),
            final(self).selects() == old(self).selects(),
            !old(self).live() ==> {
                &&& final(self).levels() == old(self).levels()
                &&& *final(bank) == *old(bank)
            },
            old(self).live() ==> {
                &&& final(self).levels() == all_dark()
                &&& final(bank).held()
                    == old(bank).held().difference(segment_lines()).difference(digit_lines())
                &&& final(bank).pending()
                    == old(bank).pending() + blank_steps() + release_steps() + digit_release_steps()
            },
    {
        if !self.is_live() {
            return ;
        }
        self.segments.release(bank);
        let ghost base = bank.held();
        let ghost done = bank.pending();
        let ghost selects = self.selects();
        proof {
            lemma_digit_lines_upto_step(0);
            assert(base.difference(digit_lines_upto(0)) =~= base);
            assert(done + digit_release_steps().take(0) =~= done);
        }
        let mut j: usize = 0;
        while j < 4
            invariant
                j <= 4,
                self.segments.wf(),
                !self.segments.live(),
                self.segments.levels() == all_dark(),
                self.digits@.len() == 4,
                self.selects() == selects,
                forall|k: int|
                    0 <= k < 4 ==> {
                        &&& (#[trigger] self.digits@[k])@.line == digit_line(all_digits()[k])
                        &&& self.digits@[k]@.pin == all_digits()[k].spec_gpio()
                        &&& self.digits@[k]@.direction == Direction::Out
                        &&& self.digits@[k]@.released == (k < j)
                    },
                bank.held() == base.difference(digit_lines_upto(j as int)),
                bank.pending() == done + digit_release_steps().take(j as int),
            decreases 4 - j,
        {
            let ghost before = bank.pending();
            proof {
                lemma_digit_lines_upto_step(j as int);
            }
            self.digits[j].release(bank);
            proof {
                assert(self.selects() =~= selects);
                assert(bank.held() =~= base.difference(digit_lines_upto(j as int + 1)));
                assert(before.push(Action::Release { line: digit_line(all_digits()[j as int]) })
                    =~= done + digit_release_steps().take(j as int + 1));
            }
            j += 1;
        }
        proof {
            lemma_digit_lines_upto_all();
            assert(digit_release_steps().take(4) =~= digit_release_steps());
        }
    }
}

/// Whether the decimal point belongs to `position`.
pub fn is_point(point: Option<Digits>, position: Digits) -> (b: bool)
    ensures
        b == (point == Some(position)),
{
    match point {
        Some(p) => p == position,
        None => false,
    }
}

} // verus!
