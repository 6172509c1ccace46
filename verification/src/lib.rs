//! Named advisory locks that serialize opted-in commands across processes:
//! argument parsing, lock naming and directory rules, the waiting protocol,
//! and the forwarding of signals to the guarded command.

pub mod acquire;
pub mod cli;
pub mod lock;
pub mod process;
pub mod signals;
pub mod text;
