//! The record of one directory: the names of its watched files.

use vstd::prelude::*;
use vstd::string::*;
use vstd::utf8::*;
use crate::distinct::{
    distinct, lemma_distinct, lemma_distinct_push, lemma_without, lemma_without_push, without,
};
use crate::error::{Error, IoFailure, PathDefect};
use crate::ledger::{
    encode_line, line_of, names_of, read_lines, render, texts_of, well_encoded, write_lines,
};
use crate::path::FilePath;
use crate::text::names;

verus! {

/// The name of the ledger file inside the directory it speaks of.
pub const SIDECAR_NAME: &'static str = ".watched";

/// How the host is to open a ledger.
#[derive(Clone, Copy, Debug, PartialEq, Eq, Structural)]
pub enum OpenMode {
    /// Open the ledger for reading if it is there, and report its absence
    /// if it is not.
    ReadIfExists,
    /// Open the ledger for reading and writing, and create it empty if it is
    /// not there.
    ReadWriteCreate,
}

/// The ledger to open: the file `SIDECAR_NAME` inside `directory`.
#[derive(Clone, Debug, PartialEq, Eq)]
pub struct SidecarRequest {
    /// The directory that holds the ledger.
    pub directory: String,
    /// How to open it.
    pub mode: OpenMode,
}

/// What the host is to write to the ledger it has open.
#[derive(Debug, PartialEq, Eq)]
pub enum LedgerWrite {
    /// Nothing: the ledger stays as it is.
    Nothing,
    /// These bytes, after what the ledger holds already.
    Append(Vec<u8>),
    /// These bytes, in place of all that the ledger holds.
    Rewrite(Vec<u8>),
}

/// The mathematical value of a `LedgerWrite`.
pub enum WriteView {
    Nothing,
    Append(Seq<u8>),
    Rewrite(Seq<u8>),
}

impl WriteView {
    /// What a ledger with the bytes `data` holds once this is written.
    pub open spec fn applied_to(self, data: Seq<u8>) -> Seq<u8> {
        match self {
            WriteView::Nothing => data,
            WriteView::Append(bytes) => data + bytes,
            WriteView::Rewrite(bytes) => bytes,
        }
    }
}

impl View for LedgerWrite {
    type V = WriteView;

    open spec fn view(&self) -> WriteView {
        match self {
            LedgerWrite::Nothing => WriteView::Nothing,
            LedgerWrite::Append(bytes) => WriteView::Append(bytes@),
            LedgerWrite::Rewrite(bytes) => WriteView::Rewrite(bytes@),
        }
    }
}

/// The names of the watched files of one directory, in the order in which
/// they were marked, none of them twice.
#[derive(Debug)]
pub struct Sidecar {
    lines: Vec<String>,
}

/// What a change does to the names of a record once it is written.
#[derive(Debug)]
enum Pending {
    /// Nothing.
    Nothing,
    /// One more name at the end.
    Push(String),
    /// Other names altogether.
    Replace(Vec<String>),
}

/// A record with a change that waits for the host to write it to the
/// ledger. The record cannot be used until `commit` has given it back: with
/// the change if the write reached the ledger, without it if not.
#[derive(Debug)]
pub struct Change {
    lines: Vec<String>,
    pending: Pending,
    write: LedgerWrite,
}

/// The mathematical value of a `Change`.
pub struct ChangeView {
    /// The names of the record as it is.
    pub before: Seq<Seq<char>>,
    /// The names of the record once the write has reached the ledger.
    pub after: Seq<Seq<char>>,
    /// What the host is to write.
    pub write: WriteView,
}

impl View for Change {
    type V = ChangeView;

    closed spec fn view(&self) -> ChangeView {
        ChangeView {
            before: names(self.lines@),
            after: match self.pending {
                Pending::Nothing => names(self.lines@),
                Pending::Push(name) => names(self.lines@).push(name@),
                Pending::Replace(lines) => names(lines@),
            },
            write: self.write@,
        }
    }
}

impl View for Sidecar {
    type V = Seq<Seq<char>>;

    closed spec fn view(&self) -> Seq<Seq<char>> {
        names(self.lines@)
    }
}

impl Sidecar {
    #[verifier::type_invariant]
    spec fn no_name_twice(&self) -> bool {
        names(self.lines@).no_duplicates()
    }

    /// Reads a ledger. The record holds the text of each line, each name
    /// where it first occurs. A ledger with a line that is not valid UTF-8
    /// is refused.
    pub fn new(data: &[u8]) -> (r: Result<Sidecar, Error>)
        ensures
            well_encoded(data@) ==> r is Ok && r->Ok_0@ == names_of(data@),
            !well_encoded(data@) ==> r is Err && r->Err_0 == Error::Encoding,
            r is Ok <==> valid_utf8(data@),
            r matches Ok(record) ==> record@.no_duplicates(),
    {
        let read = match read_lines(data) {
            Ok(read) => read,
            Err(e) => {
                return Err(e);
            },
        };
        let mut lines: Vec<String> = Vec::new();
        let mut i: usize = 0;
        while i < read.len()
            invariant
                i <= read.len(),
                names(lines@) == distinct(names(read@).take(i as int)),
            decreases read.len() - i,
        {
            proof {
                let upto = names(read@).take(i as int);
                lemma_distinct_push(upto, read@[i as int]@);
                assert(names(read@).take(i + 1) =~= upto.push(read@[i as int]@));
            }
            let ghost before = names(lines@);
            if !holds(&lines, &read[i]) {
                lines.push(read[i].clone());
                assert(names(lines@) =~= before.push(read@[i as int]@));
            }
            i += 1;
        }
        proof {
            assert(names(read@).take(i as int) =~= names(read@));
            lemma_distinct(texts_of(data@));
        }
        Ok(Sidecar { lines })
    }

    /// Whether `file` is among the names.
    pub fn contains(&self, file: &str) -> (r: bool)
        ensures
            r == self@.contains(file@),
    {
        let name = file.to_owned();
        holds(&self.lines, &name)
    }

    /// The names, in their order.
    pub fn entries(&self) -> (r: &Vec<String>)
        ensures
            names(r@) == self@,
            self@.no_duplicates(),
    {
        proof {
            use_type_invariant(self);
        }
        &self.lines
    }

    /// The whole ledger for this record: every name on a line of its own.
    pub fn rewrite(&self) -> (r: Vec<u8>)
        ensures
            r@ == render(self@),
    {
        write_lines(&self.lines)
    }

    /// Marks `file` as watched. Where the name is new it is to go to the
    /// end of the record, and one line is to be appended to the ledger.
    /// Where it is there already nothing changes and nothing is to be
    /// written.
    pub fn add(self, file: &str) -> (r: Change)
        ensures
            r@.before == self@,
            self@.contains(file@) ==> r@.after == self@ && r@.write == WriteView::Nothing,
            !self@.contains(file@) ==> r@.after == self@.push(file@) && r@.write
                == WriteView::Append(line_of(file@)),
    {
        proof {
            use_type_invariant(&self);
        }
        let name = file.to_owned();
        if holds(&self.lines, &name) {
            return Change {
                lines: self.lines,
                pending: Pending::Nothing,
                write: LedgerWrite::Nothing,
            };
        }
        proof {
            let before = names(self.lines@);
            let after = before.push(file@);
            assert forall|i: int, j: int|
                0 <= i < after.len() && 0 <= j < after.len() && i != j implies after[i]
                != after[j] by {
                if i < before.len() {
                    assert(before.contains(after[i]));
                }
                if j < before.len() {
                    assert(before.contains(after[j]));
                }
            }
        }
        Change {
            lines: self.lines,
            pending: Pending::Push(name),
            write: LedgerWrite::Append(encode_line(file)),
        }
    }

    /// Marks `file` as not watched. The name is to leave the record, and
    /// the whole ledger is to be written anew without it, also where the
    /// name was not there.
    pub fn remove(self, file: &str) -> (r: Change)
        ensures
            r@.before == self@,
            r@.after == without(self@, file@),
            r@.write == WriteView::Rewrite(render(without(self@, file@))),
    {
        proof {
            use_type_invariant(&self);
        }
        let name = file.to_owned();
        let mut kept: Vec<String> = Vec::new();
        let mut i: usize = 0;
        while i < self.lines.len()
            invariant
                i <= self.lines.len(),
                name@ == file@,
                names(kept@) == without(names(self.lines@).take(i as int), file@),
            decreases self.lines.len() - i,
        {
            proof {
                let upto = names(self.lines@).take(i as int);
                lemma_without_push(upto, self.lines@[i as int]@, file@);
                assert(names(self.lines@).take(i + 1) =~= upto.push(self.lines@[i as int]@));
            }
            let ghost before = names(kept@);
            if self.lines[i] != name {
                kept.push(self.lines[i].clone());
                assert(names(kept@) =~= before.push(self.lines@[i as int]@));
            }
            i += 1;
        }
        proof {
            assert(names(self.lines@).take(i as int) =~= names(self.lines@));
            lemma_without(names(self.lines@), file@);
        }
        let write = LedgerWrite::Rewrite(write_lines(&kept));
        Change { lines: self.lines, pending: Pending::Replace(kept), write }
    }
}

impl Change {
    #[verifier::type_invariant]
    spec fn no_name_twice(&self) -> bool {
        self@.before.no_duplicates() && self@.after.no_duplicates()
    }

    /// What the host is to write to the ledger.
    pub fn write(&self) -> (r: &LedgerWrite)
        ensures
            r@ == self@.write,
    {
        &self.write
    }

    /// Ends the change with the fate of its write, and gives the record
    /// back. Once the bytes are written and flushed the record holds the
    /// change. If the write failed the record is as it was, and the failure
    /// is returned with it: there is no change by halves.
    pub fn commit(self, outcome: Result<(), IoFailure>) -> (r: (Sidecar, Result<(), Error>))
        ensures
            outcome is Ok ==> r.0@ == self@.after && r.1 is Ok,
            outcome matches Err(failure) ==> r.0@ == self@.before && r.1 == Err::<(), Error>(
                Error::Io(failure),
            ),
    {
        proof {
            use_type_invariant(&self);
        }
        let mut lines = self.lines;
        match outcome {
            Ok(_) => {
                match self.pending {
                    Pending::Nothing => {},
                    Pending::Push(name) => {
                        let ghost before = names(lines@);
                        lines.push(name);
                        assert(names(lines@) =~= before.push(name@));
                    },
                    Pending::Replace(kept) => {
                        lines = kept;
                    },
                }
                (Sidecar { lines }, Ok(()))
            },
            Err(failure) => (Sidecar { lines }, Err(Error::Io(failure))),
        }
    }
}

/// Whether one of `lines` is `name`.
fn holds(lines: &Vec<String>, name: &String) -> (r: bool)
    ensures
        r == names(lines@).contains(name@),
{
    let mut i: usize = 0;
    while i < lines.len()
        invariant
            i <= lines.len(),
            forall|j: int| 0 <= j < i ==> names(lines@)[j] != name@,
        decreases lines.len() - i,
    {
        if lines[i] == *name {
            assert(names(lines@)[i as int] == name@);
            return true;
        }
        i += 1;
    }
    false
}

/// The ledger to open for a lookup or for unmarking the file at `path`:
/// none where the path has no parent directory, as no ledger can speak of
/// such a file.
pub fn open_sidecar(path: &FilePath) -> (r: Option<SidecarRequest>)
    ensures
        path@.parent is None ==> r is None,
        path@.parent matches Some(directory) ==> (r matches Some(request) && request.directory@
            == directory && request.mode == OpenMode::ReadIfExists),
{
    match &path.parent {
        Some(directory) => Some(
            SidecarRequest { directory: directory.clone(), mode: OpenMode::ReadIfExists },
        ),
        None => None,
    }
}

/// The ledger to open, and to create where it is missing, for marking the
/// file at `path`. A path without a parent directory is refused.
pub fn open_or_create_sidecar(path: &FilePath) -> (r: Result<SidecarRequest, Error>)
    ensures
        path@.parent is None ==> r is Err && r->Err_0 == Error::InvalidPath(PathDefect::NoParent),
        path@.parent matches Some(directory) ==> (r matches Ok(request) && request.directory@
            == directory && request.mode == OpenMode::ReadWriteCreate),
{
    match &path.parent {
        Some(directory) => Ok(
            SidecarRequest { directory: directory.clone(), mode: OpenMode::ReadWriteCreate },
        ),
        None => Err(Error::InvalidPath(PathDefect::NoParent)),
    }
}

} // verus!
