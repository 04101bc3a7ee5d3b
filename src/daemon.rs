//! Where the running daemon records itself.
use crate::config::Config;
use crate::text::{join_path, joined, parse_u64, trim, trimmed, u64_of};
use vstd::prelude::*;

verus! {

/// The name of the file that holds the daemon's process id.
pub const PID_FILE: &'static str = "daemon.pid";

/// The pid file: in the user's runtime directory when there is one
/// (`runtime_dir`), else in the exchange directory.
pub fn pid_file(config: &Config, runtime_dir: Option<String>) -> (r: String)
    ensures
        r@ == joined(
            match runtime_dir {
                Some(d) => d@,
                None => config.communication.directory@,
            },
            "daemon.pid"@,
        ),
{
    match runtime_dir {
        Some(dir) => join_path(dir.as_str(), PID_FILE),
        None => join_path(config.communication.directory.as_str(), PID_FILE),
    }
}

/// The process id that the pid file `text` holds, around white space.
pub open spec fn pid_of(text: Seq<char>) -> Option<u32> {
    match u64_of(trimmed(text)) {
        Some(n) => if n <= u32::MAX {
            Some(n as u32)
        } else {
            None
        },
        None => None,
    }
}

/// Reads the pid file.
pub fn parse_pid(text: &str) -> (r: Option<u32>)
    ensures
        r == pid_of(text@),
{
    match parse_u64(trim(text)) {
        Some(n) => if n <= u32::MAX as u64 {
            Some(n as u32)
        } else {
            None
        },
        None => None,
    }
}

} // verus!
