//! Settings of the pseudo-terminal and of the shell spawned in it.
//!
//! Reading the process environment is left to the application, which hands
//! the values it read to [`PtyConfig::from_environment`].

use vstd::prelude::*;

verus! {

broadcast use vstd::string::group_string_axioms;

/// Settings for creating the PTY and spawning the shell.
#[derive(Debug, Clone)]
pub struct PtyConfig {
    /// The shell command (such as `bash`, `zsh`, `cmd.exe`).
    pub shell: String,
    /// Arguments of the shell (such as `-l` for a login shell).
    pub args: Vec<String>,
    /// Initial working directory.
    pub cwd: Option<String>,
    /// Environment variables set for the shell, besides those it inherits.
    pub env: Vec<(String, String)>,
    /// Initial width in columns.
    pub cols: u16,
    /// Initial height in rows.
    pub rows: u16,
}

/// The shell used when the environment names none: `cmd.exe` on Windows,
/// `/bin/sh` elsewhere.
pub open spec fn fallback_shell(windows: bool) -> Seq<char> {
    if windows {
        "cmd.exe"@
    } else {
        "/bin/sh"@
    }
}

/// The shell to start: the one the environment names (`COMSPEC` on Windows,
/// `SHELL` elsewhere), or else the platform's fallback.
pub open spec fn chosen_shell(windows: bool, named: Option<Seq<char>>) -> Seq<char> {
    match named {
        Some(s) => s,
        None => fallback_shell(windows),
    }
}

/// The view of an optional string.
pub open spec fn opt_view(s: Option<String>) -> Option<Seq<char>> {
    match s {
        Some(v) => Some(v@),
        None => None,
    }
}

impl PtyConfig {
    /// The default settings, from what the environment holds: `named_shell`
    /// is the value of `COMSPEC` (on Windows) or `SHELL` (elsewhere) if it
    /// is set, and `env` the whole inherited environment. The terminal starts
    /// at 80 columns by 24 rows, with no arguments and no working directory.
    pub fn from_environment(windows: bool, named_shell: Option<String>, env: Vec<(String, String)>) -> (c: PtyConfig)
        ensures
            c.shell@ == chosen_shell(windows, opt_view(named_shell)),
            c.args@.len() == 0,
            c.cwd is None,
            c.env@ == env@,
            c.cols == 80,
            c.rows == 24,
    {
        let shell = match named_shell {
            Some(s) => s,
            None => if windows {
                "cmd.exe".to_string()
            } else {
                "/bin/sh".to_string()
            },
        };
        PtyConfig { shell, args: Vec::new(), cwd: None, env, cols: 80, rows: 24 }
    }
}

} // verus!
