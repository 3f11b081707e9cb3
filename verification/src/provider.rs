//! Lookups and mark commands, from a file path to an answer.
//!
//! A request runs in up to three steps, and the host does the work on the
//! file system between them.
//!
//! 1. `begin` checks the path. It answers at once where the path settles
//!    the matter, and otherwise names the directory whose ledger is needed.
//! 2. The host opens the file `SIDECAR_NAME` in that directory in the mode
//!    that `Loading::mode` gives, for writing too if `Loading::writes` says
//!    so. It keeps other requests away from the file from now on until the
//!    request is over, and gives up with `IoFailure::TimedOut` rather than
//!    wait without end. It hides the file, for which a failure does not
//!    count, and reads all of it. `Loading::loaded` takes what was found and
//!    answers the request, or says what to write.
//! 3. The host appends the bytes, or puts them in place of all that the
//!    file holds, and flushes. `Writing::finish` takes the fate of that
//!    write and gives the answer.
//!
//! Nothing is kept from one request to the next but the ledger itself.

use vstd::prelude::*;
use vstd::string::*;
use crate::distinct::without;
use crate::error::{Error, IoFailure, PathDefect};
use crate::ledger::{line_of, names_of, render, well_encoded};
use crate::path::{extension_of, FilePath, FilePathView};
use crate::sidecar::{
    open_or_create_sidecar, open_sidecar, Change, LedgerWrite, OpenMode, Sidecar,
    SidecarRequest, WriteView,
};
use crate::video::{is_video, is_video_extension};

verus! {

/// What is asked of the record of a directory.
#[derive(Clone, Copy, Debug, PartialEq, Eq, Structural)]
pub enum Command {
    /// Is the file marked as watched?
    IsWatched,
    /// Mark the file as watched.
    MarkWatched,
    /// Mark the file as not watched.
    MarkUnwatched,
}

/// What a request that succeeded answers.
#[derive(Clone, Copy, Debug, PartialEq, Eq, Structural)]
pub enum Answer {
    /// The file is marked as watched.
    Member,
    /// The file is not marked as watched.
    NotMember,
    /// The mark command is carried out, or there was nothing to do for it.
    Done,
}

/// Where a request stands after one of its steps: at its end, with the
/// answer, or before the next piece of work for the host.
#[derive(Debug)]
pub enum Step<T> {
    /// The request is over.
    Finished(Result<Answer, Error>),
    /// The host has work to do before the request can go on.
    Next(T),
}

impl<T: View> View for Step<T> {
    type V = Step<T::V>;

    open spec fn view(&self) -> Step<T::V> {
        match self {
            Step::Finished(result) => Step::Finished(*result),
            Step::Next(next) => Step::Next(next@),
        }
    }
}

/// What the host found when it opened the ledger.
#[derive(Debug)]
pub enum Found {
    /// No ledger is there, and none was to be created.
    Absent,
    /// The ledger is open, and these are all its bytes.
    Content(Vec<u8>),
    /// The ledger could not be opened or read.
    Failed(IoFailure),
}

/// The mathematical value of a `Found`.
pub enum FoundView {
    Absent,
    Content(Seq<u8>),
    Failed(IoFailure),
}

impl View for Found {
    type V = FoundView;

    open spec fn view(&self) -> FoundView {
        match self {
            Found::Absent => FoundView::Absent,
            Found::Content(data) => FoundView::Content(data@),
            Found::Failed(failure) => FoundView::Failed(*failure),
        }
    }
}

/// The mathematical value of a `Loading`: the request, checked, with the
/// ledger it needs.
pub struct Plan {
    /// What was asked.
    pub command: Command,
    /// The name of the file, as the ledger holds it.
    pub name: Seq<char>,
    /// The directory whose ledger is to be opened.
    pub directory: Seq<char>,
    /// How to open it.
    pub mode: OpenMode,
}

/// A request whose path is in order, waiting for the host to open and read
/// the ledger.
#[derive(Debug)]
pub struct Loading {
    command: Command,
    name: String,
    request: SidecarRequest,
}

impl View for Loading {
    type V = Plan;

    closed spec fn view(&self) -> Plan {
        Plan {
            command: self.command,
            name: self.name@,
            directory: self.request.directory@,
            mode: self.request.mode,
        }
    }
}

/// A mark command that has decided what to write, waiting for the host to
/// write it.
#[derive(Debug)]
pub struct Writing {
    change: Change,
}

impl View for Writing {
    type V = WriteView;

    closed spec fn view(&self) -> WriteView {
        self.change@.write
    }
}

/// The name under which the file at `path` is recorded: its file name, where
/// it has one with a recognized video extension.
pub open spec fn file_name_of(path: FilePathView) -> Result<Seq<char>, Error> {
    match path.file_name {
        None => Err(Error::InvalidPath(PathDefect::NoFileName)),
        Some(name) => match extension_of(name) {
            None => Err(Error::InvalidPath(PathDefect::NoExtension)),
            Some(extension) => if is_video(extension) {
                Ok(name)
            } else {
                Err(Error::UnsupportedExtension)
            },
        },
    }
}

/// How a request starts. A lookup of a file that cannot be in any ledger is
/// answered at once. A mark command on such a file fails at once, except
/// that unmarking a video file without parent directory has nothing to do.
/// Every other request needs the ledger of the file's directory.
pub open spec fn plan_of(command: Command, path: FilePathView) -> Step<Plan> {
    match file_name_of(path) {
        Err(error) => match command {
            Command::IsWatched => Step::Finished(Ok(Answer::NotMember)),
            _ => Step::Finished(Err(error)),
        },
        Ok(name) => match path.parent {
            None => match command {
                Command::IsWatched => Step::Finished(Ok(Answer::NotMember)),
                Command::MarkWatched => Step::Finished(Err(Error::InvalidPath(PathDefect::NoParent))),
                Command::MarkUnwatched => Step::Finished(Ok(Answer::Done)),
            },
            Some(directory) => Step::Next(
                Plan {
                    command,
                    name,
                    directory,
                    mode: match command {
                        Command::MarkWatched => OpenMode::ReadWriteCreate,
                        _ => OpenMode::ReadIfExists,
                    },
                },
            ),
        },
    }
}

/// How a request goes on once the host has opened the ledger. A missing
/// ledger holds no name. A ledger that could not be read, or whose bytes are
/// no text, fails the request. Otherwise a lookup is answered from the
/// names, marking appends the name unless it is there, and unmarking writes
/// the ledger anew without the name.
pub open spec fn decision_of(plan: Plan, found: FoundView) -> Step<WriteView> {
    match found {
        FoundView::Absent => match plan.command {
            Command::IsWatched => Step::Finished(Ok(Answer::NotMember)),
            Command::MarkWatched => Step::Finished(Err(Error::StoreNotFound)),
            Command::MarkUnwatched => Step::Finished(Ok(Answer::Done)),
        },
        FoundView::Failed(failure) => Step::Finished(Err(Error::Io(failure))),
        FoundView::Content(data) => if !well_encoded(data) {
            Step::Finished(Err(Error::Encoding))
        } else {
            let names = names_of(data);
            match plan.command {
                Command::IsWatched => Step::Finished(
                    Ok(
                        if names.contains(plan.name) {
                            Answer::Member
                        } else {
                            Answer::NotMember
                        },
                    ),
                ),
                Command::MarkWatched => if names.contains(plan.name) {
                    Step::Finished(Ok(Answer::Done))
                } else {
                    Step::Next(WriteView::Append(line_of(plan.name)))
                },
                Command::MarkUnwatched => Step::Next(
                    WriteView::Rewrite(render(without(names, plan.name))),
                ),
            }
        },
    }
}

/// How a mark command ends: well if its write reached the ledger, and with
/// the host's failure if it did not.
pub open spec fn conclusion_of(outcome: Result<(), IoFailure>) -> Result<Answer, Error> {
    match outcome {
        Ok(_) => Ok(Answer::Done),
        Err(failure) => Err(Error::Io(failure)),
    }
}

/// The name under which the file at `path` is recorded in the ledger of its
/// directory. A path without a file name, without an extension, or with an
/// extension that is not a recognized video extension is refused.
pub fn get_file_name(path: &FilePath) -> (r: Result<String, Error>)
    ensures
        file_name_of(path@) matches Ok(name) ==> r is Ok && r->Ok_0@ == name,
        file_name_of(path@) matches Err(error) ==> r is Err && r->Err_0 == error,
{
    let name = match &path.file_name {
        Some(name) => name,
        None => {
            return Err(Error::InvalidPath(PathDefect::NoFileName));
        },
    };
    let extension = match path.extension() {
        Some(extension) => extension,
        None => {
            return Err(Error::InvalidPath(PathDefect::NoExtension));
        },
    };
    if !is_video_extension(extension) {
        return Err(Error::UnsupportedExtension);
    }
    Ok(name.clone())
}

/// Starts a request: checks the path, and says which ledger the host is to
/// open, unless the path alone settles the answer.
pub fn begin(command: Command, path: &FilePath) -> (r: Step<Loading>)
    ensures
        r@ == plan_of(command, path@),
{
    let name = match get_file_name(path) {
        Ok(name) => name,
        Err(error) => {
            return match command {
                Command::IsWatched => Step::Finished(Ok(Answer::NotMember)),
                _ => Step::Finished(Err(error)),
            };
        },
    };
    match command {
        Command::MarkWatched => match open_or_create_sidecar(path) {
            Ok(request) => Step::Next(Loading { command, name, request }),
            Err(error) => Step::Finished(Err(error)),
        },
        _ => match open_sidecar(path) {
            Some(request) => Step::Next(Loading { command, name, request }),
            None => match command {
                Command::IsWatched => Step::Finished(Ok(Answer::NotMember)),
                _ => Step::Finished(Ok(Answer::Done)),
            },
        },
    }
}

impl Loading {
    /// The directory whose ledger the host is to open.
    pub fn directory(&self) -> (r: &str)
        ensures
            r@ == self@.directory,
    {
        self.request.directory.as_str()
    }

    /// How the host is to open the ledger.
    pub fn mode(&self) -> (r: OpenMode)
        ensures
            r == self@.mode,
    {
        self.request.mode
    }

    /// What was asked.
    pub fn command(&self) -> (r: Command)
        ensures
            r == self@.command,
    {
        self.command
    }

    /// Whether the host needs the ledger open for writing: for a mark
    /// command it does, for a lookup reading is enough.
    pub fn writes(&self) -> (r: bool)
        ensures
            r == (self@.command != Command::IsWatched),
    {
        match self.command {
            Command::IsWatched => false,
            _ => true,
        }
    }

    /// The name that is looked up, marked or unmarked.
    pub fn name(&self) -> (r: &str)
        ensures
            r@ == self@.name,
    {
        self.name.as_str()
    }

    /// Goes on with what the host found: answers the request, or says what
    /// the host is to write to the ledger.
    pub fn loaded(self, found: Found) -> (r: Step<Writing>)
        ensures
            r@ == decision_of(self@, found@),
    {
        let data = match found {
            Found::Absent => {
                return match self.command {
                    Command::IsWatched => Step::Finished(Ok(Answer::NotMember)),
                    Command::MarkWatched => Step::Finished(Err(Error::StoreNotFound)),
                    Command::MarkUnwatched => Step::Finished(Ok(Answer::Done)),
                };
            },
            Found::Failed(failure) => {
                return Step::Finished(Err(Error::Io(failure)));
            },
            Found::Content(data) => data,
        };
        let sidecar = match Sidecar::new(data.as_slice()) {
            Ok(sidecar) => sidecar,
            Err(error) => {
                return Step::Finished(Err(error));
            },
        };
        match self.command {
            Command::IsWatched => Step::Finished(
                Ok(
                    if sidecar.contains(self.name.as_str()) {
                        Answer::Member
                    } else {
                        Answer::NotMember
                    },
                ),
            ),
            Command::MarkWatched => {
                let change = sidecar.add(self.name.as_str());
                match change.write() {
                    LedgerWrite::Nothing => Step::Finished(Ok(Answer::Done)),
                    _ => Step::Next(Writing { change }),
                }
            },
            Command::MarkUnwatched => Step::Next(
                Writing { change: sidecar.remove(self.name.as_str()) },
            ),
        }
    }
}

impl Writing {
    /// What the host is to write to the ledger it has open.
    pub fn write(&self) -> (r: &LedgerWrite)
        ensures
            r@ == self@,
    {
        self.change.write()
    }

    /// Ends the command with the fate of the write: `Ok` once the bytes are
    /// written and flushed, the failure otherwise.
    pub fn finish(self, outcome: Result<(), IoFailure>) -> (r: Result<Answer, Error>)
        ensures
            r == conclusion_of(outcome),
    {
        match self.change.commit(outcome).1 {
            Ok(_) => Ok(Answer::Done),
            Err(error) => Err(error),
        }
    }
}

} // verus!
