//! From board-wide pin numbers to controller and line offset.

use vstd::prelude::*;
use crate::gpio::GpioError;

verus! {

/// Number of the first pin of the first controller band.
pub const FIRST_PIN: u32 = 512;

/// Number of lines, and so of pin numbers, per controller.
pub const BAND_SIZE: u32 = 32;

/// Number of controller bands.
pub const BAND_COUNT: u32 = 4;

/// A physical line: a controller and the line's offset within it.
#[derive(Debug, Clone, Copy, PartialEq, Eq, Structural)]
pub struct PinLocation {
    pub chip: u32,
    pub offset: u32,
}

/// Whether `pin` lies in one of the controller bands.
pub open spec fn in_band(pin: u32) -> bool {
    512 <= pin < 640
}

/// The line behind `pin`, for a pin that lies in a band.
pub open spec fn band_location(pin: u32) -> PinLocation
    recommends
        in_band(pin),
{
    PinLocation { chip: ((pin - 512) / 32) as u32, offset: ((pin - 512) % 32) as u32 }
}

/// Resolves `pin` to its controller and offset. The bands are contiguous, of
/// 32 pins each, and start at pin 512: the controller is the band's index and
/// the offset is the pin's position within the band.
pub fn resolve(pin: u32) -> (r: Result<PinLocation, GpioError>)
    ensures
        in_band(pin) ==> r == Ok::<PinLocation, GpioError>(band_location(pin)),
        !in_band(pin) ==> r == Err::<PinLocation, GpioError>(GpioError::UnsupportedPin(pin)),
{
    if pin < FIRST_PIN || pin - FIRST_PIN >= BAND_SIZE * BAND_COUNT {
        return Err(GpioError::UnsupportedPin(pin));
    }
    let rel: u32 = pin - FIRST_PIN;
    Ok(PinLocation { chip: rel / BAND_SIZE, offset: rel % BAND_SIZE })
}

/// The device path of controller `chip`, for the controllers that have a band.
pub fn chip_path(chip: u32) -> (path: Option<&'static str>)
    ensures
        chip >= 4 <==> path.is_none(),
        chip == 0 ==> path == Some("/dev/gpiochip0"),
        chip == 1 ==> path == Some("/dev/gpiochip1"),
        chip == 2 ==> path == Some("/dev/gpiochip2"),
        chip == 3 ==> path == Some("/dev/gpiochip3"),
{
    match chip {
        0 => Some("/dev/gpiochip0"),
        1 => Some("/dev/gpiochip1"),
        2 => Some("/dev/gpiochip2"),
        3 => Some("/dev/gpiochip3"),
        _ => None,
    }
}

/// A resolved pin lies on one of the four controllers, at an offset below
/// the band size, and the pin number is recovered from the two.
pub proof fn lemma_resolve_in_range(pin: u32)
    requires
        in_band(pin),
    ensures
        band_location(pin).chip < 4,
        band_location(pin).offset < 32,
        pin == 512 + 32 * band_location(pin).chip + band_location(pin).offset,
{
}

/// Two different pins never resolve to the same line.
pub proof fn lemma_resolve_injective(p: u32, q: u32)
    requires
        in_band(p),
        in_band(q),
        band_location(p) == band_location(q),
    ensures
        p == q,
{
}

} // verus!
