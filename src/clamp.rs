use vstd::prelude::*;

verus! {

/// `init + val` pinned into the range `[min, max]`.
pub open spec fn clamp_spec(init: int, val: int, min: int, max: int) -> int {
    if init + val >= max {
        max
    } else if init + val <= min {
        min
    } else {
        init + val
    }
}

/// Adds a signed step to an offset and pins the result into `[min, max]`.
pub fn add_in_range(init: usize, val: i32, min: usize, max: usize) -> (r: usize)
    requires
        min <= max,
    ensures
        r as int == clamp_spec(init as int, val as int, min as int, max as int),
{
    let ret: i128 = init as i128 + val as i128;
    if ret >= max as i128 {
        return max;
    }
    if ret <= min as i128 {
        return min;
    }
    ret as usize
}

} // verus!
