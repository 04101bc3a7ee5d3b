//! What the command line asks for.
use crate::config::CONFIG_FILE;
use crate::text::{join_path, joined};
use vstd::prelude::*;

verus! {

/// The command line: the folder of the configuration and what to do.
#[derive(Clone, Debug)]
pub struct Cli {
    pub config_path: String,
    pub command: Commands,
}

impl Cli {
    /// The configuration file inside the configuration folder.
    pub fn config_file(&self) -> (r: String)
        ensures
            r@ == joined(self.config_path@, "config.ron"@),
    {
        join_path(self.config_path.as_str(), CONFIG_FILE)
    }
}

/// The configuration folder when none is given: the project's configuration
/// directory (`config_dir`), else one under the home directory, else empty.
pub fn default_config_path(config_dir: Option<String>, home_dir: Option<String>) -> (r: String)
    ensures
        r@ == match config_dir {
            Some(d) => d@,
            None => match home_dir {
                Some(h) => joined(h@, ".config/musicbeemediakeys"@),
                None => Seq::<char>::empty(),
            },
        },
{
    match config_dir {
        Some(dir) => dir,
        None => match home_dir {
            Some(home) => join_path(home.as_str(), ".config/musicbeemediakeys"),
            None => String::new(),
        },
    }
}

/// What the command line asks for.
#[derive(Clone, Debug)]
pub enum Commands {
    /// Run the daemon.
    Run { run_config: RunConfig },
    /// End the daemon.
    End,
    /// Print the path of the configuration file, or open it.
    ConfigFile { open: bool },
}

/// How to run the daemon.
#[derive(Clone, Copy, Debug, PartialEq, Eq, Structural)]
pub struct RunConfig {
    /// Refuse to start when a daemon is already running.
    pub force: bool,
    /// Detach the daemon from the terminal.
    pub detach: bool,
    /// Show a tray item.
    pub tray: bool,
    /// End a daemon that is already running.
    pub replace: bool,
}

} // verus!
