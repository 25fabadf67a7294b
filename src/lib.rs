//! Waiting for the exit of processes that are not children of the caller.
//!
//! The library holds the logic of the two Linux mechanisms that can observe
//! such an exit: a pidfd, and the proc connector over netlink with a classic
//! BPF filter. The system calls themselves are made by the caller, who hands
//! their outcomes to the functions here.
pub mod bpf;
pub mod connector;
pub mod error;
pub mod facade;
pub mod incomplete_array;
pub mod netlink;
pub mod pid;
pub mod pidfd;
pub mod registry;
pub mod wire;

pub use error::{Error, ErrorKind};
pub use pid::Pid;
