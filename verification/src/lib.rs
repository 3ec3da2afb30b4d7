//! A verified core for a small interactive shell: a command launcher that
//! turns raw argument tokens into a launch plan (background flag, PID-token
//! substitution, input/output redirection), and a process pool that tracks
//! background children, the last foreground exit code, and the
//! foreground-only mode.
//!
//! Process creation, file handles and the reaper thread are the caller's
//! business: the library decides, the caller performs the outside work and
//! reports each outcome back.

pub mod digits;
pub mod launcher;
pub mod laws;
pub mod pool;
