//! The command line: its options, and which part of the program they ask
//! for.

use vstd::prelude::*;
use crate::text::text_eq;

verus! {

/// The parsed command line.
#[derive(Clone, Debug)]
pub struct Cli {
    /// An initial query, or the start directory of the explorer.
    pub query: Option<String>,
    /// Root of the wide search (the home directory by default).
    pub root: Option<String>,
    /// Search depth below the current directory.
    pub local_depth: usize,
    /// Search depth below the root.
    pub depth: usize,
    /// Skip the search near the current directory.
    pub all: bool,
    /// Skip directories that `.gitignore` files name.
    pub respect_gitignore: bool,
    /// Write the chosen directory to this file instead of printing it.
    pub output: Option<String>,
    /// Show the history and pins.
    pub list: bool,
    /// Open the file explorer.
    pub explore: bool,
    /// Pin a name (to a path, or to the current directory).
    pub pin: Option<Vec<String>>,
    /// Remove a pin.
    pub unpin: Option<String>,
}

/// What the command line asks for, in the order the options are looked
/// at.
#[derive(Debug)]
pub enum Mode {
    /// Open the explorer on this directory (the current one by default).
    Explore(Option<String>),
    /// Show the history and pins.
    List,
    /// Pin `name` to `path` (the current directory by default).
    Pin { name: String, path: Option<String> },
    /// Remove the pin `name`.
    Unpin(String),
    /// Go back to the directory jumped from last (`jump -`).
    Back,
    /// Jump to a pin named like the query if it exists, else search.
    Search(Option<String>),
}

/// The mode a command line asks for: `--explore`, then `--list`, then
/// `--pin NAME [PATH]`, then `--unpin NAME`, then the query `-`, and
/// otherwise a search.
pub open spec fn mode_spec(cli: Cli, m: Mode) -> bool {
    if cli.explore {
        m matches Mode::Explore(q) && q == cli.query
    } else if cli.list {
        m is List
    } else if cli.pin is Some {
        let args = cli.pin->0@;
        m matches Mode::Pin { name, path } && name == args[0] && path == if args.len() == 2 {
            Some(args[1])
        } else {
            None
        }
    } else if cli.unpin is Some {
        m matches Mode::Unpin(n) && n == cli.unpin->0
    } else if cli.query matches Some(q) && q@ == "-"@ {
        m is Back
    } else {
        m matches Mode::Search(q) && q == cli.query
    }
}

/// What the command line asks for (see `mode_spec`).
pub fn mode_of(cli: &Cli) -> (m: Mode)
    requires
        cli.pin matches Some(a) ==> a@.len() >= 1,
    ensures
        mode_spec(*cli, m),
{
    if cli.explore {
        return Mode::Explore(cli.query.clone());
    }
    if cli.list {
        return Mode::List;
    }
    if let Some(args) = &cli.pin {
        let path = if args.len() == 2 { Some(args[1].clone()) } else { None };
        return Mode::Pin { name: args[0].clone(), path };
    }
    if let Some(n) = &cli.unpin {
        return Mode::Unpin(n.clone());
    }
    if let Some(q) = &cli.query {
        if text_eq(q.as_str(), "-") {
            return Mode::Back;
        }
    }
    Mode::Search(cli.query.clone())
}

} // verus!
