//! How the tracker is run.

use vstd::prelude::*;
use crate::text::{lowercase_of, same, to_lowercase};

verus! {

/// The way the tracker is run.
#[derive(Debug, Clone, Copy, PartialEq, Eq, Structural)]
pub enum Mode {
    Shell,
    Server,
}

impl Mode {
    /// The name under which a mode is written.
    pub open spec fn name(&self) -> Seq<char> {
        match self {
            Mode::Shell => "shell"@,
            Mode::Server => "server"@,
        }
    }

    /// The mode that a name in lower case asks for: `server` asks for the
    /// server, every other name for the shell.
    pub open spec fn named(lowered: Seq<char>) -> Mode {
        if lowered == "server"@ {
            Mode::Server
        } else {
            Mode::Shell
        }
    }

    /// The mode's name.
    pub fn to_string(&self) -> (r: String)
        ensures
            r@ == self.name(),
    {
        match self {
            Mode::Shell => "shell".to_owned(),
            Mode::Server => "server".to_owned(),
        }
    }

    /// The mode that a name in lower case asks for.
    pub fn from_name(lowered: &str) -> (r: Mode)
        ensures
            r == Mode::named(lowered@),
    {
        if same(lowered, "server") {
            Mode::Server
        } else {
            Mode::Shell
        }
    }
}

/// The tracker's settings.
#[derive(Debug, Clone, Copy, PartialEq, Eq, Structural)]
pub struct Settings {
    pub mode: Mode,
}

impl Settings {
    /// The settings for the mode that `tc_mode` names in any mix of upper
    /// and lower case; without a name the tracker is run as a shell.
    pub fn new(tc_mode: Option<&str>) -> (r: Settings)
        ensures
            r.mode == Mode::named(
                lowercase_of(
                    match tc_mode {
                        Some(name) => name@,
                        None => "shell"@,
                    },
                ),
            ),
    {
        let lowered = match tc_mode {
            Some(name) => to_lowercase(name),
            None => to_lowercase("shell"),
        };
        Settings { mode: Mode::from_name(lowered.as_str()) }
    }
}

} // verus!
