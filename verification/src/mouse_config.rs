//! The system-wide mouse parameters as `SystemParametersInfoW` exchanges them.
//!
//! `SPI_GETMOUSE` and `SPI_SETMOUSE` carry three integers: two acceleration
//! thresholds and the acceleration switch, which is what "enhance pointer
//! precision" turns on and off.

use vstd::prelude::*;

verus! {

/// Whether the acceleration switch of these mouse parameters is on.
pub open spec fn precision_flag(params: Seq<i32>) -> bool {
    params[2] != 0
}

/// The mouse parameters with the acceleration switch set to `enabled`
/// (1 for on, 0 for off) and the thresholds kept.
pub open spec fn with_precision_flag(params: Seq<i32>, enabled: bool) -> Seq<i32> {
    params.update(2, if enabled { 1i32 } else { 0i32 })
}

/// Whether "enhance pointer precision" is on, by the mouse parameters.
pub fn enhance_pointer_precision_of(params: [i32; 3]) -> (enabled: bool)
    ensures
        enabled == precision_flag(params@),
{
    params[2] != 0
}

/// The mouse parameters to write back to turn "enhance pointer precision"
/// on or off, given those read.
pub fn with_enhance_pointer_precision(params: [i32; 3], enabled: bool) -> (updated: [i32; 3])
    ensures
        updated@ == with_precision_flag(params@, enabled),
{
    let mut updated = params;
    updated.set(2, if enabled { 1 } else { 0 });
    updated
}

/// What is read back after "enhance pointer precision" is set is what was set,
/// and the thresholds are untouched.
pub proof fn law_precision_read_after_write(params: Seq<i32>, enabled: bool)
    requires
        params.len() == 3,
    ensures
        precision_flag(with_precision_flag(params, enabled)) == enabled,
        with_precision_flag(params, enabled)[0] == params[0],
        with_precision_flag(params, enabled)[1] == params[1],
{
}

} // verus!
