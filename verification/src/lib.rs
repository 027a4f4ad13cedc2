//! Finds out which package manager a host offers, whether a command can be
//! found on it, and what the running system calls itself.
//!
//! The library starts no process and opens no file. Each operation is a
//! function from what has been observed of the host so far to the next thing
//! to observe, or to the final answer. The embedding program runs the
//! invocations it is handed, reports how each ended, and asks again.

pub mod command;
pub mod distro;
pub mod manager;
pub mod process;
pub mod text;

pub use command::check_command;
pub use distro::{get_distro, get_os, DistroLookupError, OsStep, Release, LINUX, OS_RELEASE};
pub use manager::{
    check_linux, check_mac, check_windows, package_manager, ManagerStep, NOT_FOUND, VERSION_FLAG,
};
pub use process::{Check, Invocation, Outcome};
