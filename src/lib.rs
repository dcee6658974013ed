//! Discovery and control of long-running editor daemons.
//!
//! The library identifies editor daemons in a snapshot of the process table,
//! extracts each daemon's socket name from its argument vector, resolves the
//! socket file path, and decides the outcome of launch and kill requests.
pub mod text;
pub mod path;
pub mod extract;
pub mod daemon;
pub mod system;
