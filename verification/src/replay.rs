//! What carrying out recorded steps does to the select lines and how long
//! it takes, with the proof that a sweep never shows two digits at once nor
//! changes a segment while a digit is shown.

use vstd::prelude::*;
use crate::gpio::{Direction, Level};
use crate::lines::Action;
use crate::multiplex::{
    all_digits, digit_line, digit_write, disable_steps, enable_steps, lemma_digit_lines_distinct,
    point_steps, position_steps, select_level, select_steps, selected, sweep_steps, Digits,
};
use crate::pins::PinLocation;
use crate::segment::{blanking_order, glyph, Segment};
use crate::seven_segment::{blank_steps, digit_steps, segment_line, segment_write, write_steps};

verus! {

/// The digit whose select line is `line`, if it is one.
pub open spec fn digit_of_line(line: PinLocation) -> Option<Digits> {
    if line == digit_line(Digits::D_1) {
        Some(Digits::D_1)
    } else if line == digit_line(Digits::D_2) {
        Some(Digits::D_2)
    } else if line == digit_line(Digits::D_3) {
        Some(Digits::D_3)
    } else if line == digit_line(Digits::D_4) {
        Some(Digits::D_4)
    } else {
        None
    }
}

/// Whether `step` changes the level of a segment line.
pub open spec fn is_segment_write(step: Action) -> bool {
    step matches Action::Write { line, .. } && exists|s: Segment| line == segment_line(s)
}

/// Which digits are shown, in sweep order, once `step` has been carried
/// out on a display of which `shown` were shown before. A digit is shown
/// while its select line is driven `Low`; a released line shows nothing.
pub open spec fn shown_after_step(shown: Seq<bool>, step: Action) -> Seq<bool> {
    match step {
        Action::Write { line, level } => match digit_of_line(line) {
            Some(d) => shown.update(d.spec_index(), level == select_level(true)),
            None => shown,
        },
        Action::Request { line, direction, initial, .. } => match digit_of_line(line) {
            Some(d) => shown.update(
                d.spec_index(),
                direction == Direction::Out && initial == select_level(true),
            ),
            None => shown,
        },
        Action::Release { line } => match digit_of_line(line) {
            Some(d) => shown.update(d.spec_index(), false),
            None => shown,
        },
        Action::Hold { .. } => shown,
    }
}

/// Which digits are shown once all of `steps` have been carried out, in
/// order.
pub open spec fn shown_after(shown: Seq<bool>, steps: Seq<Action>) -> Seq<bool>
    decreases steps.len(),
{
    if steps.len() == 0 {
        shown
    } else {
        shown_after_step(shown_after(shown, steps.drop_last()), steps.last())
    }
}

/// How many of the four digits are shown.
pub open spec fn shown_count(shown: Seq<bool>) -> int {
    (if shown[0] {
        1int
    } else {
        0int
    }) + (if shown[1] {
        1int
    } else {
        0int
    }) + (if shown[2] {
        1int
    } else {
        0int
    }) + (if shown[3] {
        1int
    } else {
        0int
    })
}

/// No digit shown.
pub open spec fn none_shown() -> Seq<bool> {
    Seq::new(4, |i: int| false)
}

/// `target` shown and no other digit.
pub open spec fn one_shown(target: Digits) -> Seq<bool> {
    Seq::new(4, |i: int| all_digits()[i] == target)
}

/// Which digits are shown, in sweep order, while the select lines are at
/// `selects`.
pub open spec fn shown_at(selects: Seq<Level>) -> Seq<bool> {
    Seq::new(4, |i: int| selects[i] == select_level(true))
}

/// Carrying out `steps` never ghosts: before the first step, between any
/// two steps and after the last, at most one digit is shown; and whenever a
/// step changes a segment line, no digit is shown at all.
pub open spec fn ghost_free(shown: Seq<bool>, steps: Seq<Action>) -> bool {
    forall|k: int|
        0 <= k <= steps.len() ==> {
            &&& shown_count(#[trigger] shown_after(shown, steps.take(k))) <= 1
            &&& k < steps.len() && is_segment_write(steps[k]) ==> shown_count(
                shown_after(shown, steps.take(k)),
            ) == 0
        }
}

/// Carrying out one more step applies it to what the earlier ones left.
pub proof fn lemma_shown_after_push(shown: Seq<bool>, steps: Seq<Action>, step: Action)
    ensures
        shown_after(shown, steps.push(step)) == shown_after_step(shown_after(shown, steps), step),
        shown_after(shown, Seq::<Action>::empty()) == shown,
{
    assert(steps.push(step).drop_last() =~= steps);
}

/// Steps carried out one run after another act as the two runs in turn.
pub proof fn lemma_shown_after_concat(shown: Seq<bool>, a: Seq<Action>, b: Seq<Action>)
    ensures
        shown_after(shown, a + b) == shown_after(shown_after(shown, a), b),
    decreases b.len(),
{
    if b.len() == 0 {
        assert(a + b =~= a);
    } else {
        lemma_shown_after_concat(shown, a, b.drop_last());
        assert((a + b).drop_last() =~= a + b.drop_last());
        assert((a + b).last() == b.last());
    }
}

/// A run extended by one step is ghost-free exactly when the run is, the
/// step changes no segment while a digit is shown, and at most one digit
/// is shown after it.
pub proof fn lemma_ghost_free_push(shown: Seq<bool>, steps: Seq<Action>, step: Action)
    ensures
        ghost_free(shown, steps.push(step)) <==> {
            &&& ghost_free(shown, steps)
            &&& is_segment_write(step) ==> shown_count(shown_after(shown, steps)) == 0
            &&& shown_count(shown_after(shown, steps.push(step))) <= 1
        },
{
    let more = steps.push(step);
    assert(more.take(more.len() as int) =~= more);
    assert(more.take(steps.len() as int) =~= steps);
    assert(steps.take(steps.len() as int) =~= steps);
    assert forall|k: int| 0 <= k <= steps.len() implies #[trigger] more.take(k) == steps.take(
        k,
    ) by {
        assert(more.take(k) =~= steps.take(k));
    }
    if ghost_free(shown, more) {
        assert forall|k: int| 0 <= k <= steps.len() implies {
            &&& shown_count(#[trigger] shown_after(shown, steps.take(k))) <= 1
            &&& k < steps.len() && is_segment_write(steps[k]) ==> shown_count(
                shown_after(shown, steps.take(k)),
            ) == 0
        } by {
            assert(more.take(k) == steps.take(k));
            assert(shown_count(shown_after(shown, more.take(k))) <= 1);
            if k < steps.len() {
                assert(more[k] == steps[k]);
            }
        }
        assert(shown_count(shown_after(shown, more.take(steps.len() as int))) <= 1);
        assert(more[steps.len() as int] == step);
        assert(shown_count(shown_after(shown, more.take(more.len() as int))) <= 1);
    }
    if ghost_free(shown, steps) && (is_segment_write(step) ==> shown_count(
        shown_after(shown, steps),
    ) == 0) && shown_count(shown_after(shown, more)) <= 1 {
        assert forall|k: int| 0 <= k <= more.len() implies {
            &&& shown_count(#[trigger] shown_after(shown, more.take(k))) <= 1
            &&& k < more.len() && is_segment_write(more[k]) ==> shown_count(
                shown_after(shown, more.take(k)),
            ) == 0
        } by {
            if k <= steps.len() {
                assert(more.take(k) == steps.take(k));
                assert(shown_count(shown_after(shown, steps.take(k))) <= 1);
                if k < steps.len() {
                    assert(more[k] == steps[k]);
                } else {
                    assert(more[k] == step);
                }
            }
        }
    }
}

/// Two runs, one after the other, are ghost-free exactly when the first is
/// and the second is from where the first ends.
pub proof fn lemma_ghost_free_concat(shown: Seq<bool>, a: Seq<Action>, b: Seq<Action>)
    ensures
        ghost_free(shown, a + b) <==> ghost_free(shown, a) && ghost_free(
            shown_after(shown, a),
            b,
        ),
    decreases b.len(),
{
    if b.len() == 0 {
        assert(a + b =~= a);
        assert(a.take(a.len() as int) =~= a);
        assert(b.take(0) =~= b);
        if ghost_free(shown, a) {
            assert(shown_count(shown_after(shown, a.take(a.len() as int))) <= 1);
            assert forall|k: int| 0 <= k <= b.len() implies {
                &&& shown_count(#[trigger] shown_after(shown_after(shown, a), b.take(k))) <= 1
                &&& k < b.len() && is_segment_write(b[k]) ==> shown_count(
                    shown_after(shown_after(shown, a), b.take(k)),
                ) == 0
            } by {
                assert(b.take(k) =~= b);
            }
        }
    } else {
        let init = b.drop_last();
        lemma_ghost_free_concat(shown, a, init);
        assert(a + b =~= (a + init).push(b.last()));
        assert(b =~= init.push(b.last()));
        lemma_ghost_free_push(shown, a + init, b.last());
        lemma_ghost_free_push(shown_after(shown, a), init, b.last());
        lemma_shown_after_concat(shown, a, init);
        lemma_shown_after_concat(shown, a, b);
    }
}

/// A display whose select lines hide every digit, or show one only, shows
/// at most one digit: the states in which a display is made and in which
/// `enable_digit`, `disable_digits`, `show_at` and `sweep` leave it.
pub proof fn lemma_selected_shows_at_most_one(target: Option<Digits>)
    ensures
        shown_at(selected(target)).len() == 4,
        shown_count(shown_at(selected(target))) <= 1,
        shown_at(selected(None)) == none_shown(),
        target matches Some(t) ==> shown_at(selected(target)) == one_shown(t),
{
    assert(shown_at(selected(None)) =~= none_shown());
    if let Some(t) = target {
        assert(shown_at(selected(target)) =~= one_shown(t));
    }
}

/// A select line belongs to its digit and to no segment.
pub proof fn lemma_digit_of_select_line(digit: Digits)
    ensures
        digit_of_line(digit_line(digit)) == Some(digit),
        forall|level: Level| !is_segment_write(#[trigger] digit_write(digit, level)),
{
    assert forall|s: Segment| digit_line(digit) != segment_line(s) by {
        lemma_digit_lines_distinct(digit, digit, s);
    }
}

/// A segment line is no digit's select line.
pub proof fn lemma_segment_line_selects_nothing(seg: Segment)
    ensures
        digit_of_line(segment_line(seg)) is None,
{
    lemma_digit_lines_distinct(Digits::D_1, Digits::D_1, seg);
    lemma_digit_lines_distinct(Digits::D_2, Digits::D_2, seg);
    lemma_digit_lines_distinct(Digits::D_3, Digits::D_3, seg);
    lemma_digit_lines_distinct(Digits::D_4, Digits::D_4, seg);
}

/// Writing the four select lines for `target` leaves exactly `target`
/// shown, whatever was shown before. The run is ghost-free where it hides
/// every digit and at most one was shown before, and where it starts with
/// no digit shown.
pub proof fn lemma_select_steps(shown: Seq<bool>, target: Option<Digits>)
    requires
        shown.len() == 4,
        shown_count(shown) <= 1,
        target is Some ==> shown == none_shown(),
    ensures
        shown_after(shown, select_steps(target)) == Seq::new(
            4,
            |i: int| target == Some(all_digits()[i]),
        ),
        ghost_free(shown, select_steps(target)),
{
    let w0 = digit_write(Digits::D_1, select_level(target == Some(Digits::D_1)));
    let w1 = digit_write(Digits::D_2, select_level(target == Some(Digits::D_2)));
    let w2 = digit_write(Digits::D_3, select_level(target == Some(Digits::D_3)));
    let w3 = digit_write(Digits::D_4, select_level(target == Some(Digits::D_4)));
    let e = Seq::<Action>::empty();
    let s1 = e.push(w0);
    let s2 = s1.push(w1);
    let s3 = s2.push(w2);
    let s4 = s3.push(w3);
    assert(select_steps(target) =~= s4);
    lemma_digit_of_select_line(Digits::D_1);
    lemma_digit_of_select_line(Digits::D_2);
    lemma_digit_of_select_line(Digits::D_3);
    lemma_digit_of_select_line(Digits::D_4);
    lemma_shown_after_push(shown, e, w0);
    lemma_shown_after_push(shown, s1, w1);
    lemma_shown_after_push(shown, s2, w2);
    lemma_shown_after_push(shown, s3, w3);
    assert(e.take(0) =~= e);
    assert(ghost_free(shown, e));
    lemma_ghost_free_push(shown, e, w0);
    lemma_ghost_free_push(shown, s1, w1);
    lemma_ghost_free_push(shown, s2, w2);
    lemma_ghost_free_push(shown, s3, w3);
    assert(shown_after(shown, s4) =~= Seq::new(4, |i: int| target == Some(all_digits()[i])));
}

/// Writes to segment lines show and hide no digit, and they are ghost-free
/// where no digit is shown.
pub proof fn lemma_segment_steps(shown: Seq<bool>, segs: Seq<Segment>, level: Level)
    requires
        shown.len() == 4,
        shown_count(shown) == 0,
    ensures
        shown_after(shown, write_steps(segs, level)) == shown,
        ghost_free(shown, write_steps(segs, level)),
    decreases segs.len(),
{
    if segs.len() == 0 {
        assert(write_steps(segs, level) =~= Seq::<Action>::empty());
        assert(write_steps(segs, level).take(0) =~= write_steps(segs, level));
    } else {
        let init = segs.drop_last();
        let step = segment_write(segs.last(), level);
        lemma_segment_steps(shown, init, level);
        assert(write_steps(segs, level) =~= write_steps(init, level).push(step));
        lemma_segment_line_selects_nothing(segs.last());
        lemma_shown_after_push(shown, write_steps(init, level), step);
        lemma_ghost_free_push(shown, write_steps(init, level), step);
    }
}

/// Showing one digit at one position never ghosts, from any state in which
/// at most one digit is shown, and leaves exactly that position shown.
pub proof fn lemma_position_never_ghosts(
    shown: Seq<bool>,
    position: Digits,
    digit: u8,
    point: bool,
    dwell: u64,
)
    requires
        shown.len() == 4,
        shown_count(shown) <= 1,
    ensures
        ghost_free(shown, position_steps(position, digit, point, dwell)),
        shown_after(shown, position_steps(position, digit, point, dwell)) == one_shown(position),
{
    let hide = disable_steps();
    let blank = blank_steps();
    let light = write_steps(glyph(digit), Level::High);
    let dot = point_steps(point);
    let show = enable_steps(position);
    let hold = seq![Action::Hold { millis: dwell }];
    let dark = none_shown();
    lemma_select_steps(shown, None);
    assert(shown_after(shown, hide) =~= dark);
    lemma_segment_steps(dark, blanking_order(), Level::Low);
    lemma_segment_steps(dark, glyph(digit), Level::High);
    if point {
        assert(dot =~= write_steps(seq![Segment::DP], Level::High));
        lemma_segment_steps(dark, seq![Segment::DP], Level::High);
    } else {
        assert(dot.take(0) =~= dot);
        assert(ghost_free(dark, dot));
    }
    lemma_shown_after_push(dark, Seq::<Action>::empty(), Action::Hold { millis: dwell });
    lemma_select_steps(dark, Some(position));
    assert(shown_after(dark, show) =~= one_shown(position));
    let lit = one_shown(position);
    assert(hold =~= Seq::<Action>::empty().push(Action::Hold { millis: dwell }));
    assert(Seq::<Action>::empty().take(0) =~= Seq::<Action>::empty());
    lemma_shown_after_push(lit, Seq::<Action>::empty(), Action::Hold { millis: dwell });
    lemma_ghost_free_push(lit, Seq::<Action>::empty(), Action::Hold { millis: dwell });
    let a1 = hide + blank;
    let a2 = a1 + light;
    let a3 = a2 + dot;
    let a4 = a3 + show;
    lemma_shown_after_concat(shown, hide, blank);
    lemma_ghost_free_concat(shown, hide, blank);
    lemma_shown_after_concat(shown, a1, light);
    lemma_ghost_free_concat(shown, a1, light);
    lemma_shown_after_concat(shown, a2, dot);
    lemma_ghost_free_concat(shown, a2, dot);
    lemma_shown_after_concat(shown, a3, show);
    lemma_ghost_free_concat(shown, a3, show);
    lemma_shown_after_concat(shown, a4, hold);
    lemma_ghost_free_concat(shown, a4, hold);
    assert(position_steps(position, digit, point, dwell) =~= a4 + hold);
    assert(a2 =~= hide + digit_steps(digit));
}

/// A sweep never ghosts. From any state in which at most one digit is
/// shown, at every moment of the sweep at most one digit is shown, every
/// change of a segment line happens while no digit is shown, and the sweep
/// ends with the rightmost digit shown.
pub proof fn lemma_sweep_never_ghosts(
    shown: Seq<bool>,
    digits: Seq<u8>,
    point: Option<Digits>,
    dwell: u64,
)
    requires
        shown.len() == 4,
        shown_count(shown) <= 1,
        digits.len() == 4,
    ensures
        ghost_free(shown, sweep_steps(digits, point, dwell)),
        shown_after(shown, sweep_steps(digits, point, dwell)) == one_shown(Digits::D_4),
{
    let first = position_steps(Digits::D_1, digits[0], point == Some(Digits::D_1), dwell);
    let second = position_steps(Digits::D_2, digits[1], point == Some(Digits::D_2), dwell);
    let third = position_steps(Digits::D_3, digits[2], point == Some(Digits::D_3), dwell);
    let fourth = position_steps(Digits::D_4, digits[3], point == Some(Digits::D_4), dwell);
    lemma_position_never_ghosts(shown, Digits::D_1, digits[0], point == Some(Digits::D_1), dwell);
    lemma_position_never_ghosts(
        one_shown(Digits::D_1),
        Digits::D_2,
        digits[1],
        point == Some(Digits::D_2),
        dwell,
    );
    lemma_position_never_ghosts(
        one_shown(Digits::D_2),
        Digits::D_3,
        digits[2],
        point == Some(Digits::D_3),
        dwell,
    );
    lemma_position_never_ghosts(
        one_shown(Digits::D_3),
        Digits::D_4,
        digits[3],
        point == Some(Digits::D_4),
        dwell,
    );
    lemma_shown_after_concat(shown, first, second);
    lemma_ghost_free_concat(shown, first, second);
    lemma_shown_after_concat(shown, first + second, third);
    lemma_ghost_free_concat(shown, first + second, third);
    lemma_shown_after_concat(shown, first + second + third, fourth);
    lemma_ghost_free_concat(shown, first + second + third, fourth);
}

/// The time, in milliseconds, that `steps` leave the lines alone.
pub open spec fn held_millis(steps: Seq<Action>) -> int
    decreases steps.len(),
{
    if steps.len() == 0 {
        0
    } else {
        held_millis(steps.drop_last()) + match steps.last() {
            Action::Hold { millis } => millis as int,
            _ => 0,
        }
    }
}

/// The hold time of two runs is the sum of their hold times.
pub proof fn lemma_held_millis_concat(a: Seq<Action>, b: Seq<Action>)
    ensures
        held_millis(a + b) == held_millis(a) + held_millis(b),
    decreases b.len(),
{
    if b.len() == 0 {
        assert(a + b =~= a);
    } else {
        lemma_held_millis_concat(a, b.drop_last());
        assert((a + b).drop_last() =~= a + b.drop_last());
        assert((a + b).last() == b.last());
    }
}

/// Writes hold nothing.
pub proof fn lemma_writes_hold_nothing(steps: Seq<Action>)
    requires
        forall|k: int| 0 <= k < steps.len() ==> #[trigger] steps[k] is Write,
    ensures
        held_millis(steps) == 0,
    decreases steps.len(),
{
    if steps.len() > 0 {
        lemma_writes_hold_nothing(steps.drop_last());
    }
}

/// Showing one digit holds the lines for the dwell time and no longer.
pub proof fn lemma_position_duration(position: Digits, digit: u8, point: bool, dwell: u64)
    ensures
        held_millis(position_steps(position, digit, point, dwell)) == dwell,
{
    let hide = disable_steps();
    let blank = blank_steps();
    let light = write_steps(glyph(digit), Level::High);
    let dot = point_steps(point);
    let show = enable_steps(position);
    let hold = seq![Action::Hold { millis: dwell }];
    lemma_writes_hold_nothing(hide);
    lemma_writes_hold_nothing(blank);
    lemma_writes_hold_nothing(light);
    lemma_writes_hold_nothing(dot);
    lemma_writes_hold_nothing(show);
    assert(hold.drop_last() =~= Seq::<Action>::empty());
    assert(held_millis(Seq::<Action>::empty()) == 0);
    assert(held_millis(hold) == dwell);
    lemma_held_millis_concat(hide, blank);
    lemma_held_millis_concat(hide + blank, light);
    lemma_held_millis_concat(hide + blank + light, dot);
    lemma_held_millis_concat(hide + blank + light + dot, show);
    lemma_held_millis_concat(hide + blank + light + dot + show, hold);
    assert(position_steps(position, digit, point, dwell) =~= hide + blank + light + dot + show
        + hold);
}

/// A sweep holds the lines for four dwell times: with a dwell of at most
/// 3 ms it is over within 12 ms, well inside the 16 ms after which the eye
/// sees flicker.
pub proof fn lemma_sweep_duration(digits: Seq<u8>, point: Option<Digits>, dwell: u64)
    requires
        digits.len() == 4,
    ensures
        held_millis(sweep_steps(digits, point, dwell)) == 4 * dwell,
        dwell <= 3 ==> held_millis(sweep_steps(digits, point, dwell)) < 16,
{
    let first = position_steps(Digits::D_1, digits[0], point == Some(Digits::D_1), dwell);
    let second = position_steps(Digits::D_2, digits[1], point == Some(Digits::D_2), dwell);
    let third = position_steps(Digits::D_3, digits[2], point == Some(Digits::D_3), dwell);
    let fourth = position_steps(Digits::D_4, digits[3], point == Some(Digits::D_4), dwell);
    lemma_position_duration(Digits::D_1, digits[0], point == Some(Digits::D_1), dwell);
    lemma_position_duration(Digits::D_2, digits[1], point == Some(Digits::D_2), dwell);
    lemma_position_duration(Digits::D_3, digits[2], point == Some(Digits::D_3), dwell);
    lemma_position_duration(Digits::D_4, digits[3], point == Some(Digits::D_4), dwell);
    lemma_held_millis_concat(first, second);
    lemma_held_millis_concat(first + second, third);
    lemma_held_millis_concat(first + second + third, fourth);
}

} // verus!
