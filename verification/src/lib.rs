//! Program loading and asynchronous I/O of a Unix-like kernel, as decisions
//! over plain values.
//!
//! The modules hold what the kernel decides: how an ELF image is laid out in
//! a user address space, which relocations are applied, what the initial
//! stack and the auxiliary vector contain, how completions of asynchronous
//! I/O travel from the worker back to user code, and what a user task does
//! each time it comes back from user mode. Where such a decision depends on
//! the outside world, it is a state machine: the machine names the next
//! action, its driver performs it and hands the answer back.

pub mod arch;
pub mod async_calls;
pub mod async_io;
pub mod auxv;
pub mod boot;
pub mod bytes;
pub mod cache;
pub mod context;
pub mod elf;
pub mod error;
pub mod image;
pub mod loader;
pub mod paging;
pub mod relocate;
pub mod segments;
pub mod stack;
pub mod task;
pub mod text;
pub mod user;
pub mod user_app;
pub mod worker;
