//! I/O-free, resumable stream state machines.
//!
//! The machines under [`coroutines`] say which read or write they need
//! next through the [`io::StreamIo`] protocol; a runtime performs it and
//! hands the response back. The decisions a runtime makes around the
//! actual system call stand in [`runtimes`].

pub mod coroutines;
pub mod io;
pub mod runtimes;
