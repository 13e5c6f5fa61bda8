use os_task::config::{
    kernel_stack_position, MAX_SYSCALL_NUM, SYSCALL_EXIT, SYSCALL_GET_TIME, SYSCALL_MMAP,
    SYSCALL_MUNMAP, SYSCALL_SET_PRIORITY, SYSCALL_TASK_INFO, SYSCALL_YIELD, TRAMPOLINE,
};
use os_task::mm::{MemorySet, PhysPageNum};
use os_task::syscall::{
    sys_exit, sys_get_time, sys_set_priority, sys_task_info, sys_yield, task_info_at, TaskInfo,
    TimeVal, TASK_INFO_SIZE, TIME_VAL_SIZE,
};
use os_task::task::{TaskControlBlock, TaskStatus};

fn fresh(now_us: usize) -> TaskControlBlock {
    TaskControlBlock::new(MemorySet::new(0x8000_0000_0008_0123), PhysPageNum(0x8_7654), 0x1_0000, 2, now_us)
}

fn joined(pieces: &[Vec<u8>]) -> Vec<u8> {
    pieces.iter().flat_map(|p| p.iter().copied()).collect()
}

fn word(bytes: &[u8], at: usize) -> u64 {
    let mut b = [0u8; 8];
    b.copy_from_slice(&bytes[at..at + 8]);
    u64::from_le_bytes(b)
}

fn count_at(bytes: &[u8], id: usize) -> u32 {
    let at = 4 + 4 * id;
    u32::from_le_bytes([bytes[at], bytes[at + 1], bytes[at + 2], bytes[at + 3]])
}

#[test]
fn new_descriptor_is_ready_with_zero_counts() {
    let t = fresh(123_456);
    assert_eq!(t.task_status, TaskStatus::Ready);
    assert!(t.syscall_times.iter().all(|&c| c == 0));
    assert_eq!(t.start_time, 123_456);
    assert_eq!(t.base_size, 0x1_0000);
    assert_eq!(t.get_trap_cx(), PhysPageNum(0x8_7654));
    assert_eq!(t.get_user_token(), 0x8000_0000_0008_0123);
    let (_, top) = kernel_stack_position(2);
    assert_eq!(t.task_cx.sp, top);
}

#[test]
fn start_time_survives_syscalls() {
    let mut t = fresh(500);
    sys_yield(&mut t);
    sys_set_priority(&mut t, 3);
    sys_get_time(&mut t, 900, &vec![TIME_VAL_SIZE]);
    sys_task_info(&mut t, 2_000, &vec![TASK_INFO_SIZE]);
    assert_eq!(t.start_time, 500);
}

#[test]
fn kernel_stacks_sit_below_trampoline_with_guard_pages() {
    assert_eq!(kernel_stack_position(0), (TRAMPOLINE - 8192, TRAMPOLINE));
    let (b1, t1) = kernel_stack_position(1);
    assert_eq!(t1, TRAMPOLINE - 12288);
    assert_eq!(b1, t1 - 8192);
}

#[test]
fn get_time_at_one_second() {
    let mut t = fresh(0);
    let (r, pieces) = sys_get_time(&mut t, 1_000_000, &vec![TIME_VAL_SIZE]);
    assert_eq!(r, 0);
    let bytes = joined(&pieces);
    assert_eq!(bytes.len(), 16);
    assert_eq!(word(&bytes, 0), 1);
    assert_eq!(word(&bytes, 8), 0);
    assert_eq!(TimeVal::from_micros(1_000_000), TimeVal { sec: 1, usec: 0 });
    assert_eq!(t.syscall_times[SYSCALL_GET_TIME], 1);
}

#[test]
fn get_time_split_across_pages() {
    let mut t = fresh(0);
    let (r, pieces) = sys_get_time(&mut t, 3_250_017, &vec![5, 11]);
    assert_eq!(r, 0);
    assert_eq!(pieces.len(), 2);
    assert_eq!(pieces[0].len(), 5);
    assert_eq!(pieces[1].len(), 11);
    let bytes = joined(&pieces);
    assert_eq!(word(&bytes, 0), 3);
    assert_eq!(word(&bytes, 8), 250_017);
    assert_eq!(bytes, TimeVal { sec: 3, usec: 250_017 }.to_bytes());
}

#[test]
fn get_time_never_goes_back() {
    let mut t = fresh(0);
    let mut last = TimeVal { sec: 0, usec: 0 };
    for now in [0usize, 999_999, 1_000_000, 1_000_001, 7_654_321, 7_654_321] {
        let (_, pieces) = sys_get_time(&mut t, now, &vec![TIME_VAL_SIZE]);
        let bytes = joined(&pieces);
        let tv = TimeVal { sec: word(&bytes, 0) as usize, usec: word(&bytes, 8) as usize };
        assert!((last.sec, last.usec) <= (tv.sec, tv.usec));
        last = tv;
    }
}

#[test]
fn yield_three_times_then_task_info() {
    let mut t = fresh(0);
    for _ in 0..3 {
        assert_eq!(sys_yield(&mut t), 0);
    }
    let (r, pieces) = sys_task_info(&mut t, 5_000, &vec![TASK_INFO_SIZE]);
    assert_eq!(r, 0);
    let bytes = joined(&pieces);
    assert_eq!(count_at(&bytes, SYSCALL_YIELD), 3);
    assert_eq!(count_at(&bytes, SYSCALL_TASK_INFO), 1);
    assert_eq!(t.syscall_times[SYSCALL_YIELD], 3);
}

#[test]
fn yield_leaves_status_to_scheduler() {
    let mut t = fresh(0);
    t.task_status = TaskStatus::Running;
    assert_eq!(sys_yield(&mut t), 0);
    assert_eq!(t.task_status, TaskStatus::Running);
}

#[test]
fn exit_marks_exited_and_counts() {
    let mut t = fresh(0);
    t.task_status = TaskStatus::Running;
    sys_exit(&mut t, 7);
    assert_eq!(t.task_status, TaskStatus::Exited);
    assert_eq!(t.syscall_times[SYSCALL_EXIT], 1);
}

#[test]
fn set_priority_always_fails() {
    let mut t = fresh(0);
    assert_eq!(sys_set_priority(&mut t, 10), -1);
    assert_eq!(sys_set_priority(&mut t, -5), -1);
    assert_eq!(sys_set_priority(&mut t, 0), -1);
    assert_eq!(sys_set_priority(&mut t, isize::MAX), -1);
    assert_eq!(sys_set_priority(&mut t, isize::MIN), -1);
    assert_eq!(t.syscall_times[SYSCALL_SET_PRIORITY], 5);
}

#[test]
fn task_info_elapsed_is_truncated_milliseconds() {
    let mut t = fresh(1_000);
    let (_, pieces) = sys_task_info(&mut t, 3_999, &vec![TASK_INFO_SIZE]);
    let bytes = joined(&pieces);
    assert_eq!(bytes.len(), 2016);
    assert_eq!(word(&bytes, 2008), 2);
    assert_eq!(task_info_at(&t, 1_000).time, 0);
    assert_eq!(task_info_at(&t, 1_999).time, 0);
    assert_eq!(task_info_at(&t, 2_000).time, 1);
}

#[test]
fn task_info_layout() {
    let mut t = fresh(0);
    t.task_status = TaskStatus::Running;
    map_one_page_twice(&mut t);
    let (_, pieces) = sys_task_info(&mut t, 123_456_789, &vec![1000, 1016]);
    assert_eq!(pieces[0].len(), 1000);
    assert_eq!(pieces[1].len(), 1016);
    let bytes = joined(&pieces);
    assert_eq!(&bytes[0..4], &[2, 0, 0, 0]);
    assert_eq!(count_at(&bytes, SYSCALL_MMAP), 2);
    assert_eq!(count_at(&bytes, SYSCALL_MUNMAP), 0);
    assert_eq!(count_at(&bytes, SYSCALL_TASK_INFO), 1);
    assert_eq!(&bytes[2004..2008], &[0, 0, 0, 0]);
    assert_eq!(word(&bytes, 2008), 123_456);
}

fn map_one_page_twice(t: &mut TaskControlBlock) {
    os_task::syscall::sys_mmap(t, 0x1000, 0x1000, 1);
    os_task::syscall::sys_mmap(t, 0x1000, 0x1000, 1);
}

#[test]
fn task_info_from_snapshot() {
    let mut t = fresh(42);
    t.syscall_times[7] = 9;
    let info = TaskInfo::new(t.get_task_info());
    assert_eq!(info.status, TaskStatus::Ready);
    assert_eq!(info.time, 42);
    assert_eq!(info.syscall_times[7], 9);
    let bytes = info.to_bytes();
    assert_eq!(bytes.len(), TASK_INFO_SIZE);
    assert_eq!(&bytes[0..4], &[1, 0, 0, 0]);
    assert_eq!(count_at(&bytes, 7), 9);
    assert_eq!(word(&bytes, 2008), 42);
}

#[test]
fn syscall_count_out_of_range_is_ignored() {
    let mut t = fresh(0);
    t.update_syscall_times(MAX_SYSCALL_NUM);
    t.update_syscall_times(usize::MAX);
    assert!(t.syscall_times.iter().all(|&c| c == 0));
    t.update_syscall_times(MAX_SYSCALL_NUM - 1);
    assert_eq!(t.syscall_times[MAX_SYSCALL_NUM - 1], 1);
}

#[test]
fn syscall_count_saturates() {
    let mut t = fresh(0);
    t.syscall_times[SYSCALL_YIELD] = u32::MAX;
    sys_yield(&mut t);
    assert_eq!(t.syscall_times[SYSCALL_YIELD], u32::MAX);
}
