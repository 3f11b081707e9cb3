//! The icon overlay: which files get the mark of a watched file drawn over
//! their icon.

use vstd::prelude::*;
use vstd::string::*;
use crate::error::Error;
use crate::path::FilePath;
use crate::provider::{begin, plan_of, Answer, Command, Loading, Step};
use crate::winapi::{encode_utf16, to_pcwstr};

verus! {

/// The flag that says that an overlay is given as the path of an icon file.
pub const ISIOI_ICONFILE: u32 = 0x1;

/// The overlay icon, as the shell wants it.
#[derive(Debug, PartialEq, Eq)]
pub struct OverlayInfo {
    /// The path of the icon file in UTF-16, with its terminating zero.
    pub icon_file: Vec<u16>,
    /// The index of the icon in that file.
    pub index: i32,
    /// What of the above is filled in.
    pub flags: u32,
}

/// The provider of the overlay for watched files.
#[derive(Clone, Copy, Debug)]
pub struct WatchedOverlay;

impl WatchedOverlay {
    /// Starts the lookup that decides whether the file at `path` gets the
    /// overlay.
    pub fn is_member_of(&self, path: &FilePath) -> (r: Step<Loading>)
        ensures
            r@ == plan_of(Command::IsWatched, path@),
    {
        begin(Command::IsWatched, path)
    }

    /// Whether a lookup that ended with `result` puts the overlay on the
    /// icon. The shell has no place for an error while it draws a listing,
    /// so a lookup that failed counts as one that found nothing.
    pub fn shows_overlay(&self, result: Result<Answer, Error>) -> (r: bool)
        ensures
            r == (result == Ok::<Answer, Error>(Answer::Member)),
    {
        match result {
            Ok(Answer::Member) => true,
            _ => false,
        }
    }

    /// The overlay for the icon file at `icon`, for a buffer of `capacity`
    /// UTF-16 units: none where the path with its terminating zero does not
    /// fit the buffer.
    pub fn get_overlay_info(&self, icon: &str, capacity: i32) -> (r: Option<OverlayInfo>)
        ensures
            encode_utf16(icon@).len() + 1 <= capacity ==> (r matches Some(info) && info.icon_file@
                == encode_utf16(icon@).push(0u16) && info.index == 0 && info.flags
                == ISIOI_ICONFILE),
            encode_utf16(icon@).len() + 1 > capacity ==> r is None,
    {
        let icon_file = to_pcwstr(icon);
        if capacity < 0 || (capacity as usize) < icon_file.len() {
            None
        } else {
            Some(OverlayInfo { icon_file, index: 0, flags: ISIOI_ICONFILE })
        }
    }

    /// The rank of this overlay among the overlays of one icon: the highest.
    pub fn get_priority(&self) -> (r: i32)
        ensures
            r == 0,
    {
        0
    }
}

} // verus!
