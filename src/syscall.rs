//! Process-management syscalls. Each acts on the descriptor of the calling
//! process, records the call in its counts before doing anything else, and
//! returns the syscall's result code. Values for user space come back as
//! bytes already split over the pieces that the user buffer translates to.

use vstd::prelude::*;
use crate::config::{
    MAX_SYSCALL_NUM, SYSCALL_EXIT, SYSCALL_GET_TIME, SYSCALL_MMAP, SYSCALL_MUNMAP,
    SYSCALL_SET_PRIORITY, SYSCALL_TASK_INFO, SYSCALL_YIELD,
};
use crate::layout::{le_bytes, offset, push_le, split_into, total, WORD_BYTES};
use crate::mm::{map_perm, page_in_range};
use crate::task::{recorded, TaskControlBlock, TaskStatus};

verus! {

/// Bytes of a `TimeVal` in user memory: two words.
pub const TIME_VAL_SIZE: usize = 16;

/// Bytes of a `TaskInfo` in user memory: a 4-byte status, one 4-byte count
/// per syscall number, 4 bytes of padding, and a word of elapsed time.
pub const TASK_INFO_SIZE: usize = 2016;

/// Microseconds in a second.
pub const MICROS_PER_SEC: usize = 1_000_000;

/// A point in time as whole seconds and the microseconds past them.
#[derive(Clone, Copy, PartialEq, Eq, Structural, Debug)]
pub struct TimeVal {
    pub sec: usize,
    pub usec: usize,
}

/// What a process learns of itself from `task_info`.
#[derive(Clone, Copy)]
pub struct TaskInfo {
    pub status: TaskStatus,
    pub syscall_times: [u32; MAX_SYSCALL_NUM],
    pub time: usize,
}

/// The number that stands for a status in user memory.
pub open spec fn status_code(s: TaskStatus) -> nat {
    match s {
        TaskStatus::UnInit => 0,
        TaskStatus::Ready => 1,
        TaskStatus::Running => 2,
        TaskStatus::Exited => 3,
    }
}

/// The counts of a table, four bytes each, in order.
pub open spec fn counts_bytes(counts: Seq<u32>) -> Seq<u8>
    decreases counts.len(),
{
    if counts.len() == 0 {
        Seq::empty()
    } else {
        counts_bytes(counts.drop_last()) + le_bytes(counts.last() as nat, 4)
    }
}

/// The bytes of a time value in user memory.
pub open spec fn time_val_bytes(t: TimeVal) -> Seq<u8> {
    le_bytes(t.sec as nat, 8) + le_bytes(t.usec as nat, 8)
}

/// The bytes of a task-info value in user memory.
pub open spec fn task_info_bytes(status: TaskStatus, counts: Seq<u32>, time: nat) -> Seq<u8> {
    le_bytes(status_code(status), 4) + counts_bytes(counts) + seq![0u8, 0u8, 0u8, 0u8]
        + le_bytes(time, 8)
}

/// The time value of a clock reading of `us` microseconds.
pub open spec fn time_val_of(us: nat) -> TimeVal {
    TimeVal { sec: (us / 1_000_000) as usize, usec: (us % 1_000_000) as usize }
}

/// Time value `a` is not after time value `b`.
pub open spec fn time_val_le(a: TimeVal, b: TimeVal) -> bool {
    a.sec < b.sec || (a.sec == b.sec && a.usec <= b.usec)
}

/// Milliseconds from `start_us` to `now_us`, rounded down.
pub open spec fn elapsed_ms(start_us: nat, now_us: nat) -> nat {
    ((now_us - start_us) / 1000) as nat
}

/// `bytes` cut into consecutive pieces of lengths `lens`, in order.
pub open spec fn pieces_of(pieces: Seq<Vec<u8>>, bytes: Seq<u8>, lens: Seq<usize>) -> bool {
    &&& pieces.len() == lens.len()
    &&& forall|i: int|
        0 <= i < lens.len() ==> #[trigger] pieces[i]@ == bytes.subrange(
            offset(lens, i) as int,
            offset(lens, i) + lens[i],
        )
}

/// The descriptor keeps what a syscall other than `exit`, `mmap` and
/// `munmap` never touches: everything but the counts.
pub open spec fn keeps_all_but_counts(a: TaskControlBlock, b: TaskControlBlock) -> bool {
    &&& b.task_status == a.task_status
    &&& b.task_cx == a.task_cx
    &&& b.memory_set == a.memory_set
    &&& b.trap_cx_ppn == a.trap_cx_ppn
    &&& b.base_size == a.base_size
    &&& b.start_time == a.start_time
}

proof fn lemma_le_bytes_len(v: nat, n: nat)
    ensures
        le_bytes(v, n).len() == n,
    decreases n,
{
    if n > 0 {
        lemma_le_bytes_len(v / 256, (n - 1) as nat);
    }
}

proof fn lemma_counts_bytes_len(counts: Seq<u32>)
    ensures
        counts_bytes(counts).len() == 4 * counts.len(),
    decreases counts.len(),
{
    if counts.len() > 0 {
        lemma_counts_bytes_len(counts.drop_last());
        lemma_le_bytes_len(counts.last() as nat, 4);
    }
}

impl TimeVal {
    /// The time value of a clock reading of `us` microseconds.
    pub fn from_micros(us: usize) -> (r: TimeVal)
        ensures
            r == time_val_of(us as nat),
    {
        TimeVal { sec: us / MICROS_PER_SEC, usec: us % MICROS_PER_SEC }
    }

    /// This value's bytes in user memory.
    pub fn to_bytes(&self) -> (r: Vec<u8>)
        ensures
            r@ == time_val_bytes(*self),
            r@.len() == TIME_VAL_SIZE,
    {
        let mut r: Vec<u8> = Vec::new();
        push_le(&mut r, self.sec as u64, WORD_BYTES);
        push_le(&mut r, self.usec as u64, WORD_BYTES);
        proof {
            lemma_le_bytes_len(self.sec as nat, 8);
            lemma_le_bytes_len(self.usec as nat, 8);
            assert(r@ =~= time_val_bytes(*self));
        }
        r
    }
}

impl TaskInfo {
    /// A task-info value from a descriptor's (status, start time, counts),
    /// with `time` taken from the second item.
    pub fn new(task: (TaskStatus, usize, [u32; MAX_SYSCALL_NUM])) -> (r: TaskInfo)
        ensures
            r.status == task.0,
            r.time == task.1,
            r.syscall_times@ == task.2@,
    {
        TaskInfo { status: task.0, time: task.1, syscall_times: task.2 }
    }

    /// This value's bytes in user memory.
    pub fn to_bytes(&self) -> (r: Vec<u8>)
        ensures
            r@ == task_info_bytes(self.status, self.syscall_times@, self.time as nat),
            r@.len() == TASK_INFO_SIZE,
    {
        let mut r: Vec<u8> = Vec::new();
        let code: u64 = match self.status {
            TaskStatus::UnInit => 0,
            TaskStatus::Ready => 1,
            TaskStatus::Running => 2,
            TaskStatus::Exited => 3,
        };
        push_le(&mut r, code, 4);
        let ghost head = r@;
        let mut i: usize = 0;
        while i < MAX_SYSCALL_NUM
            invariant
                i <= MAX_SYSCALL_NUM,
                self.syscall_times@.len() == MAX_SYSCALL_NUM,
                r@ == head + counts_bytes(self.syscall_times@.take(i as int)),
            decreases MAX_SYSCALL_NUM - i,
        {
            let ghost before = r@;
            push_le(&mut r, self.syscall_times[i] as u64, 4);
            proof {
                let s = self.syscall_times@;
                assert(s.take(i + 1).drop_last() =~= s.take(i as int));
                assert(r@ =~= head + counts_bytes(s.take(i + 1)));
            }
            i += 1;
        }
        assert(self.syscall_times@.take(MAX_SYSCALL_NUM as int) =~= self.syscall_times@);
        r.push(0);
        r.push(0);
        r.push(0);
        r.push(0);
        push_le(&mut r, self.time as u64, WORD_BYTES);
        proof {
            lemma_le_bytes_len(code as nat, 4);
            lemma_counts_bytes_len(self.syscall_times@);
            lemma_le_bytes_len(self.time as nat, 8);
            assert(r@ =~= task_info_bytes(self.status, self.syscall_times@, self.time as nat));
        }
        r
    }
}


/// The task-info value of `task` at clock reading `now_us`: its status and
/// counts, and the whole milliseconds since it was created.
pub fn task_info_at(task: &TaskControlBlock, now_us: usize) -> (r: TaskInfo)
    requires
        task.start_time <= now_us,
    ensures
        r.status == task.task_status,
        r.syscall_times@ == task.syscall_times@,
        r.time == elapsed_ms(task.start_time as nat, now_us as nat),
{
    let snapshot = task.get_task_info();
    let info = TaskInfo::new(snapshot);
    TaskInfo { time: (now_us - info.time) / 1000, ..info }
}

/// Ends the calling process with the given exit code: records the call and
/// marks the descriptor exited. The caller then hands control to the
/// scheduler and never resumes this process.
pub fn sys_exit(task: &mut TaskControlBlock, _exit_code: i32)
    ensures
        final(task).syscall_times@ == recorded(old(task).syscall_times@, SYSCALL_EXIT as int),
        final(task).task_status == TaskStatus::Exited,
        final(task).task_cx == old(task).task_cx,
        final(task).memory_set == old(task).memory_set,
        final(task).trap_cx_ppn == old(task).trap_cx_ppn,
        final(task).base_size == old(task).base_size,
        final(task).start_time == old(task).start_time,
{
    task.update_syscall_times(SYSCALL_EXIT);
    task.task_status = TaskStatus::Exited;
}

/// The calling process gives up the processor: records the call and returns
/// 0. The caller hands control to the scheduler, which suspends the process
/// and later runs it again; the status changes on the way are the
/// scheduler's, so the process finds its descriptor as it left it, but for
/// the count of this call.
pub fn sys_yield(task: &mut TaskControlBlock) -> (r: isize)
    ensures
        r == 0,
        final(task).syscall_times@ == recorded(old(task).syscall_times@, SYSCALL_YIELD as int),
        keeps_all_but_counts(*old(task), *final(task)),
{
    task.update_syscall_times(SYSCALL_YIELD);
    0
}

/// Reads the clock (`now_us`, in microseconds) for the calling process.
/// Returns 0 and the bytes of the time value, split over the pieces of
/// lengths `lens` that the user buffer translates to.
pub fn sys_get_time(task: &mut TaskControlBlock, now_us: usize, lens: &Vec<usize>) -> (r: (
    isize,
    Vec<Vec<u8>>,
))
    requires
        total(lens@) == TIME_VAL_SIZE,
    ensures
        r.0 == 0,
        pieces_of(r.1@, time_val_bytes(time_val_of(now_us as nat)), lens@),
        final(task).syscall_times@ == recorded(old(task).syscall_times@, SYSCALL_GET_TIME as int),
        keeps_all_but_counts(*old(task), *final(task)),
{
    task.update_syscall_times(SYSCALL_GET_TIME);
    let tv = TimeVal::from_micros(now_us);
    let bytes = tv.to_bytes();
    let pieces = split_into(&bytes, lens);
    (0, pieces)
}

/// Setting a priority is not supported: always returns -1.
pub fn sys_set_priority(task: &mut TaskControlBlock, _prio: isize) -> (r: isize)
    ensures
        r == -1,
        final(task).syscall_times@ == recorded(
            old(task).syscall_times@,
            SYSCALL_SET_PRIORITY as int,
        ),
        keeps_all_but_counts(*old(task), *final(task)),
{
    task.update_syscall_times(SYSCALL_SET_PRIORITY);
    -1
}

/// Maps `[start, start + len)` into the calling process's address space with
/// the permissions in `port`. Returns 0, or -1 with nothing mapped when the
/// arguments are refused.
pub fn sys_mmap(task: &mut TaskControlBlock, start: usize, len: usize, port: usize) -> (r: isize)
    requires
        old(task).wf(),
    ensures
        final(task).wf(),
        final(task).syscall_times@ == recorded(old(task).syscall_times@, SYSCALL_MMAP as int),
        r == 0 || r == -1,
        r == 0 <==> old(task).memory_set.can_map(start as int, len as int, port as int),
        r == 0 ==> final(task).memory_set.mapped() == old(task).memory_set.mapped().union(
            Set::new(|v: int| page_in_range(v, start as int, len as int)),
        ),
        r == 0 ==> forall|v: int, p: int| #[trigger]
            final(task).memory_set.maps(v, p) <==> old(task).memory_set.maps(v, p) || (page_in_range(
                v,
                start as int,
                len as int,
            ) && p == map_perm(port as int)),
        r == -1 ==> final(task).memory_set.pages@ == old(task).memory_set.pages@,
        final(task).memory_set.token == old(task).memory_set.token,
        final(task).task_status == old(task).task_status,
        final(task).task_cx == old(task).task_cx,
        final(task).trap_cx_ppn == old(task).trap_cx_ppn,
        final(task).base_size == old(task).base_size,
        final(task).start_time == old(task).start_time,
{
    task.update_syscall_times(SYSCALL_MMAP);
    if task.memory_set.mmap(start, len, port) {
        0
    } else {
        -1
    }
}

/// Unmaps `[start, start + len)` from the calling process's address space.
/// Returns 0, or -1 with nothing unmapped when `start` is not page-aligned
/// or a page of the range is not mapped.
pub fn sys_munmap(task: &mut TaskControlBlock, start: usize, len: usize) -> (r: isize)
    requires
        old(task).wf(),
    ensures
        final(task).wf(),
        final(task).syscall_times@ == recorded(old(task).syscall_times@, SYSCALL_MUNMAP as int),
        r == 0 || r == -1,
        r == 0 <==> old(task).memory_set.can_unmap(start as int, len as int),
        r == 0 ==> final(task).memory_set.mapped() == old(task).memory_set.mapped().difference(
            Set::new(|v: int| page_in_range(v, start as int, len as int)),
        ),
        r == 0 ==> forall|v: int, p: int| #[trigger]
            final(task).memory_set.maps(v, p) <==> old(task).memory_set.maps(v, p)
                && !page_in_range(v, start as int, len as int),
        r == -1 ==> final(task).memory_set.pages@ == old(task).memory_set.pages@,
        final(task).memory_set.token == old(task).memory_set.token,
        final(task).task_status == old(task).task_status,
        final(task).task_cx == old(task).task_cx,
        final(task).trap_cx_ppn == old(task).trap_cx_ppn,
        final(task).base_size == old(task).base_size,
        final(task).start_time == old(task).start_time,
{
    task.update_syscall_times(SYSCALL_MUNMAP);
    if task.memory_set.munmap(start, len) {
        0
    } else {
        -1
    }
}

/// Reports the calling process to itself at clock reading `now_us`: returns
/// 0 and the bytes of its task-info value, taken after this call was counted,
/// split over the pieces of lengths `lens` that the user buffer translates to.
pub fn sys_task_info(task: &mut TaskControlBlock, now_us: usize, lens: &Vec<usize>) -> (r: (
    isize,
    Vec<Vec<u8>>,
))
    requires
        old(task).start_time <= now_us,
        total(lens@) == TASK_INFO_SIZE,
    ensures
        r.0 == 0,
        final(task).syscall_times@ == recorded(old(task).syscall_times@, SYSCALL_TASK_INFO as int),
        keeps_all_but_counts(*old(task), *final(task)),
        pieces_of(
            r.1@,
            task_info_bytes(
                final(task).task_status,
                final(task).syscall_times@,
                elapsed_ms(final(task).start_time as nat, now_us as nat),
            ),
            lens@,
        ),
{
    task.update_syscall_times(SYSCALL_TASK_INFO);
    let info = task_info_at(task, now_us);
    let bytes = info.to_bytes();
    let pieces = split_into(&bytes, lens);
    (0, pieces)
}


/// Two readings of a clock that does not run backwards give time values in
/// the same order: a later `get_time` never reports an earlier time.
pub proof fn lemma_get_time_monotonic(first_us: usize, second_us: usize)
    requires
        first_us <= second_us,
    ensures
        time_val_le(time_val_of(first_us as nat), time_val_of(second_us as nat)),
{
    let a = first_us as int;
    let b = second_us as int;
    assert(a / 1_000_000 <= b / 1_000_000) by (nonlinear_arith)
        requires
            a <= b,
            0 <= a,
    ;
    if a / 1_000_000 == b / 1_000_000 {
        assert(a % 1_000_000 <= b % 1_000_000) by (nonlinear_arith)
            requires
                a <= b,
                0 <= a,
                a / 1_000_000 == b / 1_000_000,
        ;
    }
}

/// A process whose yield count starts at zero and that then calls `yield`
/// exactly `n` times has a yield count of `n`, and the `task_info` call
/// that follows reports `n`. `tables[i]` is its count table after `i` calls.
pub proof fn lemma_yield_count(tables: Seq<Seq<u32>>, n: nat)
    requires
        tables.len() == n + 1,
        tables[0].len() == MAX_SYSCALL_NUM,
        tables[0][SYSCALL_YIELD as int] == 0,
        forall|i: int| 0 <= i < n ==> tables[i + 1] == recorded(tables[i], SYSCALL_YIELD as int),
        n <= u32::MAX,
    ensures
        tables[n as int][SYSCALL_YIELD as int] == n,
        recorded(tables[n as int], SYSCALL_TASK_INFO as int)[SYSCALL_YIELD as int] == n,
    decreases n,
{
    if n > 0 {
        let m = (n - 1) as nat;
        lemma_yield_count(tables.take(n as int), m);
        assert(tables[n as int] == recorded(tables[m as int], SYSCALL_YIELD as int));
    }
    lemma_counts_len_kept(tables, n);
}

proof fn lemma_counts_len_kept(tables: Seq<Seq<u32>>, n: nat)
    requires
        tables.len() == n + 1,
        tables[0].len() == MAX_SYSCALL_NUM,
        forall|i: int| 0 <= i < n ==> tables[i + 1] == recorded(tables[i], SYSCALL_YIELD as int),
    ensures
        tables[n as int].len() == MAX_SYSCALL_NUM,
    decreases n,
{
    if n > 0 {
        let m = (n - 1) as nat;
        lemma_counts_len_kept(tables.take(n as int), m);
        assert(tables[n as int] == recorded(tables[m as int], SYSCALL_YIELD as int));
    }
}


/// The elapsed time that `task_info` reports is the whole number of
/// milliseconds between the start time and the clock reading, rounded down:
/// never negative, and within one millisecond below the exact span.
pub proof fn lemma_elapsed_bounds(start_us: usize, now_us: usize)
    requires
        start_us <= now_us,
    ensures
        elapsed_ms(start_us as nat, now_us as nat) >= 0,
        elapsed_ms(start_us as nat, now_us as nat) * 1000 <= now_us - start_us,
        now_us - start_us < (elapsed_ms(start_us as nat, now_us as nat) + 1) * 1000,
{
    let d = now_us - start_us;
    assert(d / 1000 * 1000 <= d < (d / 1000 + 1) * 1000) by (nonlinear_arith)
        requires
            d >= 0,
    ;
}

} // verus!
