//! The redraw decision of the station's main loop.
//!
//! The loop samples a wall clock every second and hands the broken-down
//! time to this decision; the surrounding glue performs the draw it
//! calls for.
use vstd::prelude::*;

verus! {

/// Whether a scheduled redraw is due: at the top of each hour (minute
/// and second both zero) during the waking hours 07:00 to 23:00.
pub fn require_refresh(hour: u8, minute: u8, second: u8) -> (r: bool)
    ensures
        r == (minute == 0 && second == 0 && 7 <= hour <= 23),
{
    if minute != 0 || second != 0 {
        return false;
    }
    7 <= hour && hour <= 23
}

} // verus!
