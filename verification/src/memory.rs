//! A host that keeps the ledger of one directory in memory.
//!
//! It does what a host on a file system does when nothing fails, so a
//! request run against it shows what the request means. The laws of this
//! crate are stated of such runs.

use vstd::prelude::*;
use crate::error::Error;
use crate::path::{FilePath, FilePathView};
use crate::provider::{
    begin, conclusion_of, decision_of, plan_of, Answer, Command, Found, FoundView, Step,
};
use crate::sidecar::{LedgerWrite, OpenMode, WriteView};

verus! {

/// The ledger of one directory: absent, or a file with some bytes.
#[derive(Clone, Debug, PartialEq, Eq)]
pub struct MemoryLedger {
    content: Option<Vec<u8>>,
}

impl View for MemoryLedger {
    type V = Option<Seq<u8>>;

    closed spec fn view(&self) -> Option<Seq<u8>> {
        match self.content {
            Some(data) => Some(data@),
            None => None,
        }
    }
}

/// The ledger after the host has opened it in `mode`: a missing ledger is
/// created empty where the mode says so.
pub open spec fn opened(ledger: Option<Seq<u8>>, mode: OpenMode) -> Option<Seq<u8>> {
    match (ledger, mode) {
        (None, OpenMode::ReadWriteCreate) => Some(Seq::empty()),
        _ => ledger,
    }
}

/// What the host finds in a ledger that it has opened.
pub open spec fn found_in(ledger: Option<Seq<u8>>) -> FoundView {
    match ledger {
        Some(data) => FoundView::Content(data),
        None => FoundView::Absent,
    }
}

/// The ledger after the host has written `write` to it.
pub open spec fn written(ledger: Option<Seq<u8>>, write: WriteView) -> Option<Seq<u8>> {
    match ledger {
        Some(data) => Some(write.applied_to(data)),
        None => match write {
            WriteView::Nothing => None,
            _ => Some(write.applied_to(Seq::empty())),
        },
    }
}

/// What a request does to the ledger of the file's directory and what it
/// answers, on a host where nothing fails.
pub open spec fn outcome(command: Command, path: FilePathView, ledger: Option<Seq<u8>>) -> (
    Option<Seq<u8>>,
    Result<Answer, Error>,
) {
    match plan_of(command, path) {
        Step::Finished(result) => (ledger, result),
        Step::Next(plan) => {
            let open = opened(ledger, plan.mode);
            match decision_of(plan, found_in(open)) {
                Step::Finished(result) => (open, result),
                Step::Next(write) => (written(open, write), conclusion_of(Ok(()))),
            }
        },
    }
}

impl MemoryLedger {
    /// The ledger of a directory that has none.
    pub fn new() -> (r: MemoryLedger)
        ensures
            r@ is None,
    {
        MemoryLedger { content: None }
    }

    /// A ledger with the bytes `data`.
    pub fn with_content(data: Vec<u8>) -> (r: MemoryLedger)
        ensures
            r@ == Some(data@),
    {
        MemoryLedger { content: Some(data) }
    }

    /// The bytes of the ledger, if there is one.
    pub fn content(&self) -> (r: Option<&Vec<u8>>)
        ensures
            r is Some == self@ is Some,
            r matches Some(data) ==> self@ == Some(data@),
    {
        self.content.as_ref()
    }

    /// Opens the ledger in `mode` and reads it.
    pub fn load(&mut self, mode: OpenMode) -> (r: Found)
        ensures
            final(self)@ == opened(old(self)@, mode),
            r@ == found_in(final(self)@),
    {
        match &self.content {
            Some(data) => Found::Content(data.clone()),
            None => match mode {
                OpenMode::ReadIfExists => Found::Absent,
                OpenMode::ReadWriteCreate => {
                    self.content = Some(Vec::new());
                    Found::Content(Vec::new())
                },
            },
        }
    }

    /// Writes `write` to the ledger.
    pub fn store(&mut self, write: &LedgerWrite)
        ensures
            final(self)@ == written(old(self)@, write@),
    {
        let mut data: Vec<u8> = match self.content.take() {
            Some(data) => data,
            None => match write {
                LedgerWrite::Nothing => {
                    return ;
                },
                _ => Vec::new(),
            },
        };
        match write {
            LedgerWrite::Nothing => {},
            LedgerWrite::Append(bytes) => {
                let mut i: usize = 0;
                let ghost before = data@;
                while i < bytes.len()
                    invariant
                        i <= bytes.len(),
                        data@ == before + bytes@.take(i as int),
                    decreases bytes.len() - i,
                {
                    data.push(bytes[i]);
                    assert(bytes@.take(i + 1) =~= bytes@.take(i as int).push(bytes@[i as int]));
                    i += 1;
                }
                assert(bytes@.take(i as int) =~= bytes@);
            },
            LedgerWrite::Rewrite(bytes) => {
                data = bytes.clone();
            },
        }
        self.content = Some(data);
    }

    /// Runs a request to its end against this ledger, as the ledger of the
    /// directory that holds the file.
    pub fn run(&mut self, command: Command, path: &FilePath) -> (r: Result<Answer, Error>)
        ensures
            (final(self)@, r) == outcome(command, path@, old(self)@),
    {
        let loading = match begin(command, path) {
            Step::Finished(result) => {
                return result;
            },
            Step::Next(loading) => loading,
        };
        let found = self.load(loading.mode());
        let writing = match loading.loaded(found) {
            Step::Finished(result) => {
                return result;
            },
            Step::Next(writing) => writing,
        };
        self.store(writing.write());
        writing.finish(Ok(()))
    }

    /// Whether the file at `path` is marked as watched.
    pub fn is_watched(&mut self, path: &FilePath) -> (r: Result<Answer, Error>)
        ensures
            (final(self)@, r) == outcome(Command::IsWatched, path@, old(self)@),
    {
        self.run(Command::IsWatched, path)
    }

    /// Marks the file at `path` as watched.
    pub fn mark_watched(&mut self, path: &FilePath) -> (r: Result<Answer, Error>)
        ensures
            (final(self)@, r) == outcome(Command::MarkWatched, path@, old(self)@),
    {
        self.run(Command::MarkWatched, path)
    }

    /// Marks the file at `path` as not watched.
    pub fn mark_unwatched(&mut self, path: &FilePath) -> (r: Result<Answer, Error>)
        ensures
            (final(self)@, r) == outcome(Command::MarkUnwatched, path@, old(self)@),
    {
        self.run(Command::MarkUnwatched, path)
    }
}

} // verus!
