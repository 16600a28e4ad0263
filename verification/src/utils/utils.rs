//! The clock and the test of a place against a rectangle.

use vstd::prelude::*;

verus! {

/// `SystemTime::now`, `duration_since` and `Duration::as_secs` of std: the
/// whole seconds from the start of 1970 to now, or nothing where the clock
/// is set before 1970. Nothing is known of the number.
#[verifier::external_body]
pub(crate) fn clock_secs() -> Option<u64> {
    match std::time::SystemTime::now().duration_since(std::time::UNIX_EPOCH) {
        Ok(since) => Some(since.as_secs()),
        Err(_) => None,
    }
}

/// `SystemTime::now`, `duration_since` and `Duration::as_micros` of std:
/// the microseconds from the start of 1970 to now, or nothing where the
/// clock is set before 1970. Nothing is known of the number.
#[verifier::external_body]
pub(crate) fn clock_micros() -> Option<u128> {
    match std::time::SystemTime::now().duration_since(std::time::UNIX_EPOCH) {
        Ok(since) => Some(since.as_micros()),
        Err(_) => None,
    }
}

/// The time in whole seconds since the start of 1970, by the system clock.
/// A clock that is set before 1970 counts as the start of 1970.
pub fn secs_now() -> u64 {
    match clock_secs() {
        Some(seconds) => seconds,
        None => 0,
    }
}

/// The time in microseconds since the start of 1970, by the system clock.
/// A clock that is set before 1970 counts as the start of 1970.
pub(crate) fn micro_secs_now() -> u128 {
    match clock_micros() {
        Some(micros) => micros,
        None => 0,
    }
}

/// Whether the place in column `px` of row `py` lies in the rectangle whose
/// upper left corner is in column `x` of row `y` and which is `width` wide
/// and `height` high.
pub open spec fn in_bounds(x: u16, y: u16, width: u16, height: u16, px: u16, py: u16) -> bool {
    x <= px && px < x + width && y <= py && py < y + height
}

pub fn bounds_loc(x: u16, y: u16, width: u16, height: u16, px: u16, py: u16) -> (r: bool)
    ensures
        r == in_bounds(x, y, width, height, px, py),
{
    x <= px && (px as u32) < (x as u32) + (width as u32) && y <= py && (py as u32) < (y as u32) + (
    height as u32)
}

} // verus!
