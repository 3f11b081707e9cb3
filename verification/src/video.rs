//! The extensions by which a file counts as a video.

use vstd::prelude::*;
use vstd::string::*;

verus! {

/// The recognized video extensions, in lower case and without the dot.
pub const VIDEO_EXTENSIONS: [&'static str; 7] = ["mp4", "mkv", "avi", "webm", "flv", "mov", "wmv"];

/// `c` with an ASCII capital letter replaced by its small letter.
pub open spec fn ascii_lower(c: char) -> char {
    if 'A' <= c && c <= 'Z' {
        ((c as u8) + 32u8) as char
    } else {
        c
    }
}

/// `s` with every ASCII capital letter replaced by its small letter.
pub open spec fn lowered(s: Seq<char>) -> Seq<char> {
    Seq::new(s.len(), |i: int| ascii_lower(s[i]))
}

/// Whether `ext` is a recognized video extension, whatever the case of its
/// ASCII letters.
pub open spec fn is_video(ext: Seq<char>) -> bool {
    exists|i: int| 0 <= i < VIDEO_EXTENSIONS@.len() && lowered(ext) == #[trigger] VIDEO_EXTENSIONS[i]@
}

/// A letter or a digit of ASCII.
pub open spec fn is_ascii_alphanumeric(c: char) -> bool {
    ||| 'a' <= c && c <= 'z'
    ||| 'A' <= c && c <= 'Z'
    ||| '0' <= c && c <= '9'
}

/// A recognized video extension is not empty and is made of ASCII letters
/// and digits alone.
pub proof fn lemma_video_extension_is_plain(ext: Seq<char>)
    requires
        is_video(ext),
    ensures
        ext.len() > 0,
        forall|k: int| 0 <= k < ext.len() ==> is_ascii_alphanumeric(#[trigger] ext[k]),
{
    reveal_strlit("mp4");
    reveal_strlit("mkv");
    reveal_strlit("avi");
    reveal_strlit("webm");
    reveal_strlit("flv");
    reveal_strlit("mov");
    reveal_strlit("wmv");
    let i = choose|i: int| 0 <= i < VIDEO_EXTENSIONS@.len() && lowered(ext) == #[trigger] VIDEO_EXTENSIONS[i]@;
    let word = VIDEO_EXTENSIONS[i]@;
    assert(lowered(ext).len() == ext.len());
    assert forall|k: int| 0 <= k < ext.len() implies is_ascii_alphanumeric(#[trigger] ext[k]) by {
        assert(lowered(ext)[k] == ascii_lower(ext[k]));
        assert(is_ascii_alphanumeric(word[k]));
    }
}

fn to_ascii_lower(c: char) -> (r: char)
    ensures
        r == ascii_lower(c),
{
    if c >= 'A' && c <= 'Z' {
        let b: u8 = c as u8;
        (b + 32) as char
    } else {
        c
    }
}

fn lowercase(s: &str) -> (r: Vec<char>)
    ensures
        r@ == lowered(s@),
{
    let mut out: Vec<char> = Vec::new();
    for c in it: s.chars()
        invariant
            it.seq() == s@,
            out@ == lowered(s@.take(it.index() as int)),
    {
        out.push(to_ascii_lower(c));
        assert(out@ =~= lowered(s@.take(it.index() + 1)));
    }
    assert(s@.take(s@.len() as int) =~= s@);
    out
}

fn same_chars(chars: &Vec<char>, word: &str) -> (r: bool)
    ensures
        r == (chars@ == word@),
{
    if chars.len() != word.unicode_len() {
        return false;
    }
    let mut i: usize = 0;
    for c in it: word.chars()
        invariant
            i == it.index(),
            it.seq() == word@,
            chars.len() == word@.len(),
            chars@.take(i as int) == word@.take(i as int),
    {
        if chars[i] != c {
            assert(chars@[i as int] != word@[i as int]);
            return false;
        }
        assert(chars@.take(i + 1) =~= chars@.take(i as int).push(chars@[i as int]));
        assert(word@.take(i + 1) =~= word@.take(i as int).push(word@[i as int]));
        i += 1;
    }
    assert(chars@ =~= chars@.take(i as int));
    assert(word@ =~= word@.take(i as int));
    true
}

/// Whether `ext` is a recognized video extension. Only the case of ASCII
/// letters is ignored.
pub fn is_video_extension(ext: &str) -> (r: bool)
    ensures
        r == is_video(ext@),
{
    let chars = lowercase(ext);
    let mut i: usize = 0;
    while i < VIDEO_EXTENSIONS.len()
        invariant
            i <= VIDEO_EXTENSIONS@.len(),
            chars@ == lowered(ext@),
            forall|j: int| 0 <= j < i ==> lowered(ext@) != #[trigger] VIDEO_EXTENSIONS[j]@,
        decreases VIDEO_EXTENSIONS@.len() - i,
    {
        if same_chars(&chars, VIDEO_EXTENSIONS[i]) {
            return true;
        }
        i += 1;
    }
    false
}

} // verus!
