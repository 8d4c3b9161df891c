//! A minimal OS-personality runtime layer in which every external resource is
//! reached by opening a textual `scheme:selector` path, and operations beyond
//! plain byte I/O are driven by duplicating an open resource with a command
//! byte string.
//!
//! The library holds the verified logic of the two subsystems built on that
//! convention: the virtual-socket network layer (path-encoded TCP/UDP plus a
//! DNS client) and the process spawner (descriptor redirection plans,
//! privilege and environment setup, and early-failure detection through the
//! child's exit status). The blocking calls into the kernel themselves are
//! left to a thin unverified adapter around this crate; the library computes
//! every path, plan and decision and interprets every result.

pub mod addr;
pub mod dns;
pub mod error;
pub mod fs;
pub mod net;
pub mod process;
pub mod resolve;
