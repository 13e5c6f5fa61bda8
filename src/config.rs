//! Constants of the kernel: page geometry, address-space bounds, the syscall
//! numbering shared with user programs, and the per-slot kernel stacks.

use vstd::prelude::*;

verus! {

/// Bytes in one page.
pub const PAGE_SIZE: usize = 4096;


/// Number of entries in a per-process syscall-count table.
pub const MAX_SYSCALL_NUM: usize = 500;

/// The largest number of application slots.
pub const MAX_APP_NUM: usize = 16;

/// Bytes in one kernel stack.
pub const KERNEL_STACK_SIZE: usize = 8192;

/// Lowest address of the trampoline page, the last page of every address space.
pub const TRAMPOLINE: usize = usize::MAX - PAGE_SIZE + 1;

/// Virtual address of the trap-frame page, just below the trampoline.
pub const TRAP_CONTEXT: usize = TRAMPOLINE - PAGE_SIZE;

/// First virtual address above the part of an address space that `mmap` may
/// map: everything from the trap-frame page up is reserved.
pub const USER_SPACE_TOP: usize = TRAP_CONTEXT;

pub const SYSCALL_EXIT: usize = 93;
pub const SYSCALL_YIELD: usize = 124;
pub const SYSCALL_SET_PRIORITY: usize = 140;
pub const SYSCALL_GET_TIME: usize = 169;
pub const SYSCALL_MUNMAP: usize = 215;
pub const SYSCALL_MMAP: usize = 222;
pub const SYSCALL_TASK_INFO: usize = 410;

/// Top of the kernel stack of slot `app_id`: the stacks sit below the
/// trampoline, each followed by one unmapped guard page.
pub open spec fn kernel_stack_top_of(app_id: int) -> int {
    TRAMPOLINE - app_id * (KERNEL_STACK_SIZE + PAGE_SIZE)
}

/// The kernel-stack range `(bottom, top)` of application slot `app_id`.
pub fn kernel_stack_position(app_id: usize) -> (r: (usize, usize))
    requires
        app_id < MAX_APP_NUM,
    ensures
        r.1 == kernel_stack_top_of(app_id as int),
        r.0 == r.1 - KERNEL_STACK_SIZE,
{
    assert(app_id * (KERNEL_STACK_SIZE + PAGE_SIZE) <= MAX_APP_NUM * 12288) by (nonlinear_arith)
        requires
            app_id < MAX_APP_NUM,
    ;
    let top = TRAMPOLINE - app_id * (KERNEL_STACK_SIZE + PAGE_SIZE);
    let bottom = top - KERNEL_STACK_SIZE;
    (bottom, top)
}

} // verus!
