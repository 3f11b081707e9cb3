//! A file path, split into the parts that the ledger logic reads.

use vstd::prelude::*;
use vstd::string::*;

verus! {

/// A path as the ledger logic sees it: the directory that holds the file and
/// the file's own name. Either may be missing: a root has neither, and a
/// path that ends in `..` names no file.
pub struct FilePath {
    /// The path without its last component.
    pub parent: Option<String>,
    /// The last component, where it names a file or a directory.
    pub file_name: Option<String>,
}

/// The mathematical value of a `FilePath`.
pub struct FilePathView {
    pub parent: Option<Seq<char>>,
    pub file_name: Option<Seq<char>>,
}

/// The characters of an optional string.
pub open spec fn text(s: Option<String>) -> Option<Seq<char>> {
    match s {
        Some(s) => Some(s@),
        None => None,
    }
}

/// The characters of an optional string slice.
pub open spec fn slice_text(s: Option<&str>) -> Option<Seq<char>> {
    match s {
        Some(s) => Some(s@),
        None => None,
    }
}

/// The greatest index at which `c` stands in `s`, or -1 where it stands
/// nowhere.
pub open spec fn last_index_of(s: Seq<char>, c: char) -> int
    decreases s.len(),
{
    if s.len() == 0 {
        -1
    } else if s.last() == c {
        s.len() - 1
    } else {
        last_index_of(s.drop_last(), c)
    }
}

/// The extension of a file name: what follows its last dot. A name without a
/// dot has none, and neither has a name whose only dot is its first
/// character.
pub open spec fn extension_of(name: Seq<char>) -> Option<Seq<char>> {
    let dot = last_index_of(name, '.');
    if dot <= 0 {
        None
    } else {
        Some(name.skip(dot + 1))
    }
}

impl FilePathView {
    /// The extension of the file name, where there is a file name with one.
    pub open spec fn extension(self) -> Option<Seq<char>> {
        match self.file_name {
            Some(name) => extension_of(name),
            None => None,
        }
    }
}

impl View for FilePath {
    type V = FilePathView;

    open spec fn view(&self) -> FilePathView {
        FilePathView { parent: text(self.parent), file_name: text(self.file_name) }
    }
}

/// Where `last_index_of` points, `c` stands, and nowhere after it.
pub proof fn lemma_last_index_of(s: Seq<char>, c: char)
    ensures
        -1 <= last_index_of(s, c) < s.len(),
        last_index_of(s, c) >= 0 ==> s[last_index_of(s, c)] == c,
        forall|k: int| last_index_of(s, c) < k < s.len() ==> s[k] != c,
    decreases s.len(),
{
    if s.len() > 0 && s.last() != c {
        let front = s.drop_last();
        lemma_last_index_of(front, c);
        assert forall|k: int| last_index_of(s, c) < k < s.len() implies s[k] != c by {
            if k < front.len() {
                assert(front[k] == s[k]);
            }
        }
    }
}

/// What `std::path::Path::parent` gives for the path with the text `path`:
/// the text of the path without its last component, or `None` where the
/// path ends in a root or a prefix or is empty. The rules by which a text
/// falls into components are those of `std::path`.
pub uninterp spec fn parent_text(path: Seq<char>) -> Option<Seq<char>>;

/// What `std::path::Path::file_name` gives for the path with the text
/// `path`: the text of its last component, or `None` where the path ends in
/// `..` or in a root.
pub uninterp spec fn file_name_text(path: Seq<char>) -> Option<Seq<char>>;

/// `std::path::Path::parent`, on a path given as text. The result is read
/// from the text alone, by rules that are not spelled out here: it is
/// `parent_text` of the path.
#[verifier::external_body]
fn path_parent(path: &str) -> (r: Option<String>)
    ensures
        text(r) == parent_text(path@),
{
    let parent = std::path::Path::new(path).parent()?;
    Some(parent.to_string_lossy().into_owned())
}

/// `std::path::Path::file_name`, on a path given as text. The result is
/// read from the text alone, by rules that are not spelled out here: it is
/// `file_name_text` of the path.
#[verifier::external_body]
fn path_file_name(path: &str) -> (r: Option<String>)
    ensures
        text(r) == file_name_text(path@),
{
    let name = std::path::Path::new(path).file_name()?;
    Some(name.to_string_lossy().into_owned())
}

/// The extension of `name`, by the rule of `extension_of`.
pub fn extension_of_name(name: &str) -> (r: Option<&str>)
    ensures
        slice_text(r) == extension_of(name@),
{
    let total = name.unicode_len();
    let mut len: usize = 0;
    let mut dot: Option<usize> = None;
    for c in it: name.chars()
        invariant
            it.seq() == name@,
            len == it.index(),
            total == name@.len(),
            match dot {
                Some(d) => d == last_index_of(name@.take(len as int), '.'),
                None => last_index_of(name@.take(len as int), '.') == -1,
            },
    {
        assert(name@.take(len + 1).drop_last() =~= name@.take(len as int));
        if c == '.' {
            dot = Some(len);
        }
        len += 1;
    }
    assert(name@.take(len as int) =~= name@);
    proof {
        lemma_last_index_of(name@, '.');
    }
    match dot {
        Some(d) => {
            if d == 0 {
                None
            } else {
                Some(name.substring_char(d + 1, len))
            }
        },
        None => None,
    }
}

impl FilePath {
    /// Splits `path` as `std::path` does: into the path without its last
    /// component and the last component, each only where the path has it.
    pub fn new(path: &str) -> (r: FilePath)
        ensures
            r@.parent == parent_text(path@),
            r@.file_name == file_name_text(path@),
    {
        FilePath { parent: path_parent(path), file_name: path_file_name(path) }
    }

    /// The extension of the file name, without the dot.
    pub fn extension(&self) -> (r: Option<&str>)
        ensures
            slice_text(r) == self@.extension(),
    {
        match &self.file_name {
            Some(name) => extension_of_name(name.as_str()),
            None => None,
        }
    }
}

} // verus!
