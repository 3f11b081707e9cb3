//! The context menu: the two commands that mark a video file.

use vstd::prelude::*;
use vstd::string::*;
use crate::path::FilePath;
use crate::provider::{begin, plan_of, Command, Loading, Step};

verus! {

/// The number of the command that marks a file as watched.
pub const ID_MARK_WATCHED: u32 = 0x0;

/// The number of the command that marks a file as not watched.
pub const ID_MARK_UNWATCHED: u32 = 0x1;

/// The flag with which the shell asks for the default command alone.
pub const CMF_DEFAULTONLY: u32 = 0x1;

/// One entry of the context menu.
#[derive(Clone, Copy, Debug, PartialEq, Eq)]
pub struct MenuItem {
    /// The number of the command.
    pub id: u32,
    /// The name of the command, the same in every language.
    pub name: &'static str,
    /// What the menu shows.
    pub help_text: &'static str,
}

/// The provider of the context menu for video files.
#[derive(Clone, Copy, Debug)]
pub struct WatchedContextMenu;

/// The request that the command of the given name makes, if there is a
/// command of that name.
pub open spec fn command_named(verb: Seq<char>) -> Option<Command> {
    if verb == "mark-watched"@ {
        Some(Command::MarkWatched)
    } else if verb == "mark-unwatched"@ {
        Some(Command::MarkUnwatched)
    } else {
        None
    }
}

impl WatchedContextMenu {
    /// The entry of the command with the number `id`.
    pub fn menu_item(id: u32) -> (r: Option<MenuItem>)
        ensures
            id == ID_MARK_WATCHED ==> (r matches Some(item) && item.id == id && item.name@
                == "mark-watched"@ && item.help_text@ == "Mark video as watched"@),
            id == ID_MARK_UNWATCHED ==> (r matches Some(item) && item.id == id && item.name@
                == "mark-unwatched"@ && item.help_text@ == "Mark video as not watched"@),
            id != ID_MARK_WATCHED && id != ID_MARK_UNWATCHED ==> r is None,
    {
        if id == ID_MARK_WATCHED {
            Some(MenuItem { id, name: "mark-watched", help_text: "Mark video as watched" })
        } else if id == ID_MARK_UNWATCHED {
            Some(MenuItem { id, name: "mark-unwatched", help_text: "Mark video as not watched" })
        } else {
            None
        }
    }

    /// How many entries the menu gets for a query with the flags `flags`:
    /// both, unless the shell asks for the default command alone, which
    /// neither of them is.
    pub fn query_context_menu(&self, flags: u32) -> (r: u32)
        ensures
            r == if flags & CMF_DEFAULTONLY != 0 {
                0u32
            } else {
                2u32
            },
    {
        if flags & CMF_DEFAULTONLY != 0 {
            0
        } else {
            2
        }
    }

    /// Starts the command of the name `verb` on the file at `path`. There
    /// is nothing to start where no command has that name.
    pub fn invoke_command(&self, verb: &str, path: &FilePath) -> (r: Option<Step<Loading>>)
        ensures
            command_named(verb@) matches Some(command) ==> (r matches Some(step) && step@
                == plan_of(command, path@)),
            command_named(verb@) is None ==> r is None,
    {
        let verb = verb.to_owned();
        if verb == "mark-watched".to_owned() {
            Some(begin(Command::MarkWatched, path))
        } else if verb == "mark-unwatched".to_owned() {
            Some(begin(Command::MarkUnwatched, path))
        } else {
            None
        }
    }
}

} // verus!
