//! Process descriptors and the process-management syscalls of a small
//! teaching kernel, with the address-space bookkeeping behind `mmap` and
//! `munmap` and the byte layouts that syscalls hand back to user space.

pub mod config;
pub mod mm;
pub mod task;
pub mod layout;
pub mod syscall;
