//! The commands of the command line.

use vstd::prelude::*;
use vstd::string::*;
use crate::provider::Command;

verus! {

/// What the command line asks for.
#[derive(Clone, Debug, PartialEq, Eq)]
pub enum Cli {
    /// Mark a video file as watched.
    Watched {
        /// File to mark. Must be a video file.
        file: String,
    },
    /// Mark a video file as unwatched.
    Unwatched {
        /// File to mark. Must be a video file.
        file: String,
    },
}

impl Cli {
    /// The request that the command stands for.
    pub open spec fn spec_command(&self) -> Command {
        match self {
            Cli::Watched { .. } => Command::MarkWatched,
            Cli::Unwatched { .. } => Command::MarkUnwatched,
        }
    }

    /// The path that the command was given.
    pub open spec fn spec_file(&self) -> Seq<char> {
        match self {
            Cli::Watched { file } => file@,
            Cli::Unwatched { file } => file@,
        }
    }

    /// The request that the command stands for.
    pub fn command(&self) -> (r: Command)
        ensures
            r == self.spec_command(),
    {
        match self {
            Cli::Watched { .. } => Command::MarkWatched,
            Cli::Unwatched { .. } => Command::MarkUnwatched,
        }
    }

    /// The path that the command was given.
    pub fn file(&self) -> (r: &str)
        ensures
            r@ == self.spec_file(),
    {
        match self {
            Cli::Watched { file } => file.as_str(),
            Cli::Unwatched { file } => file.as_str(),
        }
    }
}

} // verus!
