//! Process descriptors: status, saved kernel context, owned address space,
//! trap-frame page and per-process accounting.

use vstd::prelude::*;
use crate::config::{kernel_stack_position, kernel_stack_top_of, MAX_APP_NUM, MAX_SYSCALL_NUM};
use crate::mm::{MemorySet, PhysPageNum};

verus! {

/// The life-cycle state of a process.
#[derive(Clone, Copy, PartialEq, Eq, Structural, Debug)]
pub enum TaskStatus {
    UnInit,
    Ready,
    Running,
    Exited,
}

/// Saved kernel execution context of a process that is not running: the
/// kernel stack pointer it resumes on. A process that has never run resumes
/// in the trap-return path, which enters user mode.
#[derive(Clone, Copy, PartialEq, Eq, Structural, Debug)]
pub struct TaskContext {
    pub sp: usize,
}

impl TaskContext {
    /// The context of a process that has not run yet, on the kernel stack
    /// whose top is `kstack_top`.
    pub fn goto_trap_return(kstack_top: usize) -> (r: TaskContext)
        ensures
            r.sp == kstack_top,
    {
        TaskContext { sp: kstack_top }
    }
}

/// `counts` after one more call of syscall `id` is recorded: the entry of
/// `id` grows by one, and stays at the largest `u32` once there; an `id`
/// outside the table changes nothing.
pub open spec fn recorded(counts: Seq<u32>, id: int) -> Seq<u32> {
    if 0 <= id < counts.len() {
        counts.update(id, if counts[id] < u32::MAX { (counts[id] + 1) as u32 } else { u32::MAX })
    } else {
        counts
    }
}

/// One process descriptor.
pub struct TaskControlBlock {
    pub task_status: TaskStatus,
    pub task_cx: TaskContext,
    pub memory_set: MemorySet,
    pub trap_cx_ppn: PhysPageNum,
    pub base_size: usize,
    pub syscall_times: [u32; MAX_SYSCALL_NUM],
    pub start_time: usize,
}

impl TaskControlBlock {
    /// The descriptor's owned address space is well formed.
    pub open spec fn wf(&self) -> bool {
        self.memory_set.wf()
    }

    /// The physical page that holds this process's trap frame; it is
    /// dereferenced only while the process is the current one.
    pub fn get_trap_cx(&self) -> (r: PhysPageNum)
        ensures
            r == self.trap_cx_ppn,
    {
        self.trap_cx_ppn
    }

    /// The token of this process's address space, which resolves its user
    /// pointers.
    pub fn get_user_token(&self) -> (r: usize)
        ensures
            r == self.memory_set.token,
    {
        self.memory_set.token()
    }

    /// A ready descriptor for a program loaded into `memory_set`, with its
    /// user stack top at `user_sp`, its trap frame in page `trap_cx_ppn`, the
    /// kernel stack of slot `app_id`, and `now_us` (the clock in microseconds)
    /// as its start time. All its syscall counts are zero.
    pub fn new(
        memory_set: MemorySet,
        trap_cx_ppn: PhysPageNum,
        user_sp: usize,
        app_id: usize,
        now_us: usize,
    ) -> (r: TaskControlBlock)
        requires
            memory_set.wf(),
            app_id < MAX_APP_NUM,
        ensures
            r.wf(),
            r.task_status == TaskStatus::Ready,
            r.syscall_times@ == Seq::new(MAX_SYSCALL_NUM as nat, |i: int| 0u32),
            r.start_time == now_us,
            r.base_size == user_sp,
            r.memory_set == memory_set,
            r.trap_cx_ppn == trap_cx_ppn,
            r.task_cx.sp == kernel_stack_top_of(app_id as int),
    {
        let (_kernel_stack_bottom, kernel_stack_top) = kernel_stack_position(app_id);
        let r = TaskControlBlock {
            task_status: TaskStatus::Ready,
            task_cx: TaskContext::goto_trap_return(kernel_stack_top),
            memory_set,
            trap_cx_ppn,
            base_size: user_sp,
            syscall_times: [0u32; MAX_SYSCALL_NUM],
            start_time: now_us,
        };
        assert(r.syscall_times@ =~= Seq::new(MAX_SYSCALL_NUM as nat, |i: int| 0u32));
        r
    }

    /// Records one call of syscall `syscall_id`; an id outside the table is
    /// ignored.
    pub fn update_syscall_times(&mut self, syscall_id: usize)
        ensures
            final(self).syscall_times@ == recorded(old(self).syscall_times@, syscall_id as int),
            final(self).task_status == old(self).task_status,
            final(self).task_cx == old(self).task_cx,
            final(self).memory_set == old(self).memory_set,
            final(self).trap_cx_ppn == old(self).trap_cx_ppn,
            final(self).base_size == old(self).base_size,
            final(self).start_time == old(self).start_time,
    {
        if syscall_id < MAX_SYSCALL_NUM {
            let n = self.syscall_times[syscall_id];
            let next = if n < u32::MAX { n + 1 } else { u32::MAX };
            self.syscall_times[syscall_id] = next;
        }
    }

    /// The status, start time and syscall counts of this process.
    pub fn get_task_info(&self) -> (r: (TaskStatus, usize, [u32; MAX_SYSCALL_NUM]))
        ensures
            r.0 == self.task_status,
            r.1 == self.start_time,
            r.2@ == self.syscall_times@,
    {
        (self.task_status, self.start_time, self.syscall_times)
    }
}

} // verus!
