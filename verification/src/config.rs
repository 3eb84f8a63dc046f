//! Fixed memory layout of the kernel and the slot address rule.

use vstd::prelude::*;

verus! {

/// Largest number of applications the image table may describe.
pub const MAX_APP_NUM: usize = 16;

/// Address of the first application slot.
pub const APP_BASE_ADDRESS: usize = 0x80400000;

/// Size in bytes of one application slot.
pub const APP_SIZE_LIMIT: usize = 0x20000;

/// Size in bytes of one kernel stack.
pub const KERNEL_STACK_SIZE: usize = 8192;

/// Size in bytes of one user stack.
pub const USER_STACK_SIZE: usize = 8192;

/// Address at which the slot of application `app_id` begins, as a number.
pub open spec fn slot_base(app_id: int) -> int {
    APP_BASE_ADDRESS + app_id * APP_SIZE_LIMIT
}

/// Address at which the slot of application `app_id` begins.
pub fn get_base_i(app_id: usize) -> (base: usize)
    requires
        slot_base(app_id as int) <= usize::MAX,
    ensures
        base == slot_base(app_id as int),
{
    APP_BASE_ADDRESS + app_id * APP_SIZE_LIMIT
}

} // verus!
