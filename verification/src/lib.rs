//! Process tracing for a kernel: which processes are traced, which breakpoints
//! and events their tracers asked for, where the saved registers of a process
//! lie, and how a stretch of its memory is brought into view.
//!
//! The library decides and computes. It never puts a process to sleep, wakes one or
//! touches a page table: it says what has to be done, and the kernel around it does
//! it.

pub mod breakpoint;
pub mod error;
pub mod event;
pub mod flags;
pub mod laws;
pub mod memory;
pub mod regs;
pub mod session;
pub mod table;
