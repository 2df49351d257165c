//! Coordinates of the record format: 1-based, as wide as the machine's
//! addresses.

use vstd::prelude::*;

verus! {

/// `n` is a coordinate of the format: at least 1 and within `usize`.
pub open spec fn is_coordinate(n: u64) -> bool {
    1 <= n <= usize::MAX
}

/// `[start, end]` is a window that can be asked for: both ends are
/// coordinates and the window is not inverted.
pub open spec fn is_window(start: u64, end: u64) -> bool {
    is_coordinate(start) && is_coordinate(end) && start <= end
}

/// Calls `noodles::core::Position::try_from` and tells whether it gave a
/// position. The decoder's position is a non-zero `usize`: the conversion
/// succeeds for every number but 0.
#[verifier::external_body]
fn is_position(n: usize) -> (valid: bool)
    ensures
        valid == (n >= 1),
{
    noodles::core::Position::try_from(n).is_ok()
}

/// Tells whether `n` is a coordinate of the format.
pub fn check_coordinate(n: u64) -> (valid: bool)
    ensures
        valid == is_coordinate(n),
{
    if n > usize::MAX as u64 {
        false
    } else {
        is_position(n as usize)
    }
}

/// Tells whether `[start, end]` is a window that can be asked for.
pub fn check_window(start: u64, end: u64) -> (valid: bool)
    ensures
        valid == is_window(start, end),
{
    check_coordinate(start) && check_coordinate(end) && start <= end
}

/// The window `[start, end]` holds more than `max_span` coordinates.
pub open spec fn exceeds_span(start: u64, end: u64, max_span: u64) -> bool {
    start <= end && end - start + 1 > max_span
}

/// Tells whether a window is wider than the widest that a region query
/// accepts.
pub fn check_span(start: u64, end: u64, max_span: u64) -> (too_wide: bool)
    ensures
        too_wide == exceeds_span(start, end, max_span),
{
    start <= end && end - start >= max_span
}

} // verus!
