//! I/O-free, resumable and composable stream state machines.
//!
//! Each machine is advanced by `resume`: it is given `None` the first
//! time, then the runtime's response to the request it last emitted.

pub mod read;
pub mod read_exact;
pub mod read_to_end;
pub mod write;
