//! The bank of leased lines and the record of steps to carry out on them.

use vstd::prelude::*;
use crate::gpio::{ActiveLevel, Direction, Edge, GpioError, GpioResult, Level};
use crate::pins::PinLocation;

verus! {

/// One step for the device, in the order in which it was decided.
#[derive(Debug, Clone, Copy, PartialEq, Eq, Structural)]
pub enum Action {
    /// Request exclusive control of `line` with this configuration. For an
    /// output, `initial` is driven from the moment the request is granted.
    Request {
        line: PinLocation,
        direction: Direction,
        active: ActiveLevel,
        edge: Edge,
        initial: Level,
    },
    /// Drive the output `line` to `level`.
    Write { line: PinLocation, level: Level },
    /// Give up control of `line`.
    Release { line: PinLocation },
    /// Leave the lines as they are for `millis` milliseconds.
    Hold { millis: u64 },
}

/// The steps that are left to carry out once the device has answered for
/// the first of `pending`: the rest where it carried the step out, and
/// none where it failed, for a failed step ends the run.
pub open spec fn left_after(pending: Seq<Action>, carried_out: bool) -> Seq<Action> {
    if carried_out && pending.len() > 0 {
        pending.drop_first()
    } else {
        Seq::<Action>::empty()
    }
}

/// The lines that are leased at the moment, and the steps decided so far
/// that the device has still to carry out.
pub struct LineBank {
    held: Vec<PinLocation>,
    pending: Vec<Action>,
}

impl LineBank {
    #[verifier::type_invariant]
    spec fn no_line_twice(self) -> bool {
        self.held@.no_duplicates()
    }

    /// The lines under lease.
    pub closed spec fn held(self) -> Set<PinLocation> {
        self.held@.to_set()
    }

    /// The steps recorded and not yet taken, oldest first.
    pub closed spec fn pending(self) -> Seq<Action> {
        self.pending@
    }

    /// A bank with no line leased and nothing recorded.
    pub fn new() -> (bank: LineBank)
        ensures
            bank.held() == Set::<PinLocation>::empty(),
            bank.pending() == Seq::<Action>::empty(),
    {
        let bank = LineBank { held: Vec::new(), pending: Vec::new() };
        assert(bank.held@.to_set() =~= Set::<PinLocation>::empty());
        bank
    }

    /// Whether `line` is under lease.
    pub fn is_held(&self, line: PinLocation) -> (b: bool)
        ensures
            b == self.held().contains(line),
    {
        let mut i: usize = 0;
        while i < self.held.len()
            invariant
                i <= self.held.len(),
                forall|k: int| 0 <= k < i ==> self.held@[k] != line,
            decreases self.held.len() - i,
        {
            if self.held[i] == line {
                return true;
            }
            i += 1;
        }
        false
    }

    /// Number of recorded steps.
    pub fn pending_len(&self) -> (n: usize)
        ensures
            n == self.pending().len(),
    {
        self.pending.len()
    }

    /// The step to carry out next: the oldest one recorded, if there is
    /// one.
    pub fn next_step(&self) -> (step: Option<Action>)
        ensures
            step == if self.pending().len() > 0 {
                Some(self.pending()[0])
            } else {
                None::<Action>
            },
    {
        if self.pending.len() > 0 {
            Some(self.pending[0])
        } else {
            None
        }
    }

    /// Takes the device's answer for the step that `next_step` handed out:
    /// nothing where the step was carried out, the operating system's error
    /// number where it failed. A step that was carried out leaves the record.
    /// A failed step ends the run: the steps recorded behind it are dropped,
    /// so that none of them is carried out, and the error is returned.
    pub fn step_done(&mut self, outcome: Result<(), i32>) -> (r: GpioResult<()>)
        ensures
            final(self).held() == old(self).held(),
            final(self).pending() == left_after(old(self).pending(), outcome.is_ok()),
            match outcome {
                Ok(_) => r.is_ok(),
                Err(code) => r == Err::<(), GpioError>(GpioError::spec_from_os_error(code)),
            },
    {
        let (held, mut pending) = self.take_parts();
        match outcome {
            Ok(()) => {
                if pending.len() > 0 {
                    pending.remove(0);
                    assert(pending@ =~= old(self).pending().drop_first());
                }
                *self = LineBank { held, pending };
                Ok(())
            },
            Err(code) => {
                *self = LineBank { held, pending: Vec::new() };
                Err(GpioError::from_os_error(code))
            },
        }
    }

    /// Hands out the recorded steps, oldest first, and forgets them.
    pub fn take_pending(&mut self) -> (steps: Vec<Action>)
        ensures
            steps@ == old(self).pending(),
            final(self).pending() == Seq::<Action>::empty(),
            final(self).held() == old(self).held(),
    {
        let (held, steps) = self.take_parts();
        *self = LineBank { held, pending: Vec::new() };
        steps
    }

    /// Moves both lists out and leaves the bank empty.
    fn take_parts(&mut self) -> (parts: (Vec<PinLocation>, Vec<Action>))
        ensures
            parts.0 == old(self).held,
            parts.1 == old(self).pending,
            parts.0@.no_duplicates(),
    {
        proof {
            use_type_invariant(&*self);
        }
        let mut bank = LineBank { held: Vec::new(), pending: Vec::new() };
        std::mem::swap(self, &mut bank);
        (bank.held, bank.pending)
    }

    /// Records that the lines are to be left as they are for `millis`
    /// milliseconds.
    pub fn hold(&mut self, millis: u64)
        ensures
            final(self).pending() == old(self).pending().push(Action::Hold { millis }),
            final(self).held() == old(self).held(),
    {
        self.record(Action::Hold { millis });
    }

    /// Puts `line` under lease, unless it is leased already.
    pub(crate) fn claim(&mut self, line: PinLocation) -> (r: Result<(), GpioError>)
        ensures
            old(self).held().contains(line) ==> {
                &&& r == Err::<(), GpioError>(GpioError::LineInUse)
                &&& *final(self) == *old(self)
            },
            !old(self).held().contains(line) ==> {
                &&& r.is_ok()
                &&& final(self).held() == old(self).held().insert(line)
                &&& final(self).pending() == old(self).pending()
            },
    {
        if self.is_held(line) {
            return Err(GpioError::LineInUse);
        }
        let (mut held, pending) = self.take_parts();
        proof {
            held@.lemma_push_to_set_commute(line);
        }
        held.push(line);
        *self = LineBank { held, pending };
        Ok(())
    }

    /// Ends the lease on `line`, if there is one.
    pub(crate) fn free(&mut self, line: PinLocation)
        ensures
            final(self).held() == old(self).held().remove(line),
            final(self).pending() == old(self).pending(),
    {
        let mut i: usize = 0;
        while i < self.held.len()
            invariant
                i <= self.held.len(),
                forall|k: int| 0 <= k < i ==> self.held@[k] != line,
                *self == *old(self),
            decreases self.held.len() - i,
        {
            if self.held[i] == line {
                proof {
                    use_type_invariant(&*self);
                    let s = self.held@;
                    assert(s.remove(i as int).no_duplicates());
                    assert(s.remove(i as int).to_set() =~= s.to_set().remove(line)) by {
                        assert forall|x: PinLocation|
                            s.remove(i as int).to_set().contains(x) <==> s.to_set().remove(
                                line,
                            ).contains(x) by {
                            if s.remove(i as int).contains(x) {
                                let j = choose|j: int|
                                    0 <= j < s.remove(i as int).len() && s.remove(i as int)[j]
                                        == x;
                                if j < i {
                                    assert(s[j] == x);
                                } else {
                                    assert(s[j + 1] == x);
                                }
                            }
                            if s.contains(x) && x != line {
                                let j = choose|j: int| 0 <= j < s.len() && s[j] == x;
                                if j < i {
                                    assert(s.remove(i as int)[j] == x);
                                } else {
                                    assert(s.remove(i as int)[j - 1] == x);
                                }
                            }
                        }
                    }
                }
                let (mut held, pending) = self.take_parts();
                held.remove(i);
                *self = LineBank { held, pending };
                return ;
            }
            i += 1;
        }
        assert(self.held@.to_set() =~= self.held@.to_set().remove(line));
    }

    /// Appends `step` to the record.
    pub(crate) fn record(&mut self, step: Action)
        ensures
            final(self).pending() == old(self).pending().push(step),
            final(self).held() == old(self).held(),
    {
        let (held, mut pending) = self.take_parts();
        pending.push(step);
        *self = LineBank { held, pending };
    }
}

} // verus!
