//! Drivers for GPIO-attached seven-segment displays.
//!
//! Everything in this crate is computation. A call decides which lines to
//! request, write or release and records those steps, in order, in a
//! [`lines::LineBank`]; the crate keeps track of which lines are leased and
//! of the levels it has commanded. The program around the crate carries the
//! steps out on the device: it takes one with
//! [`lines::LineBank::next_step`], performs it, and reports how it went with
//! [`lines::LineBank::step_done`], which ends the run at the first failure.

pub mod chip_manager;
pub mod counter;
pub mod digital_clock;
pub mod gpio;
pub mod label;
pub mod lines;
pub mod multiplex;
pub mod pins;
pub mod replay;
pub mod segment;
pub mod seven_segment;
pub mod words;
