//! What holds of every lookup and every mark command.
//!
//! The laws speak of `outcome`: of requests that run to their end on a host
//! where nothing fails. The ledger is all that one request leaves to the
//! next, so a law about two requests in a row is a law about the ledger
//! that the first one left.

use vstd::prelude::*;
use vstd::seq_lib::*;
use crate::distinct::{
    distinct, lemma_distinct, lemma_distinct_of_no_duplicates, lemma_distinct_of_same_length,
    lemma_distinct_push, lemma_without, without,
};
use crate::error::Error;
use crate::ledger::{
    all_fit, all_on_one_line, fits_line, lemma_append_line, lemma_render, lemma_texts_on_one_line,
    line_of, lines_of, names_of, on_one_line, render, terminated, texts_of, well_encoded,
    without_cr,
};
use crate::memory::{opened, outcome};
use crate::path::{extension_of, lemma_last_index_of, FilePathView};
use crate::provider::{file_name_of, plan_of, Answer, Command};
use crate::sidecar::OpenMode;
use crate::video::{is_video, lemma_video_extension_is_plain};

verus! {

/// Whether a new line at the end of the ledger would be a line of its own:
/// the ledger is absent or empty, or it ends in a line feed.
pub open spec fn ends_lines(ledger: Option<Seq<u8>>) -> bool {
    ledger matches Some(data) ==> terminated(data)
}

/// Whether the ledger holds `name`.
pub open spec fn holds(ledger: Option<Seq<u8>>, name: Seq<char>) -> bool {
    ledger matches Some(data) && names_of(data).contains(name)
}

/// Whether a mark on `name` leaves a ledger that holds `name`: the ledger
/// holds it already, or the name has no line feed and the ledger ends its
/// lines, so that the new line is a line of its own and the whole of it.
pub open spec fn takes(ledger: Option<Seq<u8>>, name: Seq<char>) -> bool {
    holds(ledger, name) || (on_one_line(name) && ends_lines(ledger))
}

/// How many lines of the ledger read as `name`.
pub open spec fn occurrences(ledger: Option<Seq<u8>>, name: Seq<char>) -> nat {
    match ledger {
        Some(data) => texts_of(data).to_multiset().count(name),
        None => 0,
    }
}

/// Whether the ledger is as this crate writes it: the names it holds, each
/// once, each on a line that ends in a line feed.
pub open spec fn canonical(ledger: Option<Seq<u8>>) -> bool {
    ledger matches Some(data) ==> well_encoded(data) && data == render(names_of(data))
}

/// A name under which a file is recorded is not empty and does not end in a
/// carriage return, as it ends in a recognized video extension.
pub proof fn lemma_recorded_name(path: FilePathView)
    requires
        file_name_of(path) is Ok,
    ensures
        path.file_name == Some(file_name_of(path)->Ok_0),
        file_name_of(path)->Ok_0.len() > 0,
        without_cr(file_name_of(path)->Ok_0) == file_name_of(path)->Ok_0,
{
    let name = path.file_name->0;
    let extension = extension_of(name)->0;
    lemma_last_index_of(name, '.');
    lemma_video_extension_is_plain(extension);
    assert(extension.last() == name.last());
}

/// The names of a ledger with one more line.
proof fn lemma_names_after_append(data: Seq<u8>, name: Seq<char>)
    requires
        terminated(data),
        on_one_line(name),
        without_cr(name) == name,
        well_encoded(data),
        !names_of(data).contains(name),
    ensures
        well_encoded(data + line_of(name)),
        terminated(data + line_of(name)),
        texts_of(data + line_of(name)) == texts_of(data).push(name),
        names_of(data + line_of(name)) == names_of(data).push(name),
{
    lemma_append_line(data, name);
    lemma_distinct_push(texts_of(data), name);
}

/// What marking a file leaves behind, where it succeeds on a ledger that
/// takes the name.
proof fn lemma_marked(path: FilePathView, ledger: Option<Seq<u8>>)
    requires
        outcome(Command::MarkWatched, path, ledger).1 is Ok,
        takes(ledger, file_name_of(path)->Ok_0),
    ensures
        path.parent is Some,
        file_name_of(path) is Ok,
        outcome(Command::MarkWatched, path, ledger).1 == Ok::<Answer, Error>(Answer::Done),
        ({
            let name = file_name_of(path)->Ok_0;
            let before = opened(ledger, OpenMode::ReadWriteCreate)->0;
            let after = outcome(Command::MarkWatched, path, ledger).0;
            &&& well_encoded(before)
            &&& after matches Some(data) && well_encoded(data) && names_of(data).contains(name)
            &&& names_of(before).contains(name) ==> after == Some(before)
            &&& !names_of(before).contains(name) ==> after == Some(before + line_of(name))
                && texts_of(after->0) == texts_of(before).push(name) && names_of(after->0)
                == names_of(before).push(name)
        }),
{
    let name = file_name_of(path)->Ok_0;
    let before = opened(ledger, OpenMode::ReadWriteCreate)->0;
    lemma_recorded_name(path);
    if !names_of(before).contains(name) {
        assert(terminated(before));
        lemma_names_after_append(before, name);
        let after = before + line_of(name);
        assert(names_of(after)[names_of(before).len() as int] == name);
    }
}

/// Marking a file twice does what marking it once does: the second request
/// ends as the first did and leaves the ledger as the first left it. After
/// a mark that succeeded, the name stands on one line of the ledger, unless
/// it stood on several before.
///
/// This leaves out the mark that succeeds on a ledger that does not take
/// the name: its line is lost in the ledger, and the next mark writes it
/// again.
pub proof fn lemma_mark_watched_is_idempotent(path: FilePathView, ledger: Option<Seq<u8>>)
    requires
        outcome(Command::MarkWatched, path, ledger).1 is Ok ==> takes(
            ledger,
            file_name_of(path)->Ok_0,
        ),
    ensures
        ({
            let name = file_name_of(path)->Ok_0;
            let once = outcome(Command::MarkWatched, path, ledger);
            &&& outcome(Command::MarkWatched, path, once.0) == once
            &&& once.1 is Ok && occurrences(ledger, name) <= 1 ==> occurrences(once.0, name) == 1
        }),
{
    broadcast use group_to_multiset_ensures;

    if outcome(Command::MarkWatched, path, ledger).1 is Ok {
        let before = opened(ledger, OpenMode::ReadWriteCreate)->0;
        lemma_marked(path, ledger);
        lemma_distinct(texts_of(before));
        if ledger is None {
            assert(texts_of(before) =~= Seq::<Seq<char>>::empty());
        }
    } else if ledger is None {
        let empty = Seq::<u8>::empty();
        assert(lines_of(empty) =~= Seq::<Seq<u8>>::empty());
    }
}

/// Unmarking a file that the ledger does not hold succeeds and leaves the
/// ledger as it is: absent if it was absent, and with the same bytes if it
/// was there.
///
/// This is said of a file that could be marked, and it leaves out the
/// ledger that is not written as this crate writes it: unmarking writes
/// the ledger anew, so any other ledger comes out with other bytes.
pub proof fn lemma_unmark_unmarked(path: FilePathView, ledger: Option<Seq<u8>>)
    requires
        file_name_of(path) matches Ok(name) && !holds(ledger, name),
        path.parent is Some ==> canonical(ledger),
    ensures
        outcome(Command::MarkUnwatched, path, ledger) == (ledger, Ok::<Answer, Error>(Answer::Done)),
{
    let name = file_name_of(path)->Ok_0;
    if ledger is Some {
        lemma_without(names_of(ledger->0), name);
    }
}

/// A file that was marked is found marked. If it is unmarked then, it is
/// found not marked.
///
/// The first half leaves out the ledger that does not take the name. The
/// second half leaves out the ledger that holds the name with a carriage
/// return after it: from the ledger that unmarking writes, that name is
/// read back as the name itself.
pub proof fn lemma_round_trip(path: FilePathView, ledger: Option<Seq<u8>>)
    requires
        outcome(Command::MarkWatched, path, ledger).1 is Ok,
        takes(ledger, file_name_of(path)->Ok_0),
    ensures
        ({
            let name = file_name_of(path)->Ok_0;
            let marked = outcome(Command::MarkWatched, path, ledger).0;
            let unmarked = outcome(Command::MarkUnwatched, path, marked);
            &&& outcome(Command::IsWatched, path, marked) == (marked, Ok::<Answer, Error>(Answer::Member))
            &&& !holds(ledger, name.push('\r')) ==> unmarked.1 == Ok::<Answer, Error>(Answer::Done)
                && outcome(Command::IsWatched, path, unmarked.0) == (
                unmarked.0,
                Ok::<Answer, Error>(Answer::NotMember),
            )
        }),
{
    let name = file_name_of(path)->Ok_0;
    lemma_marked(path, ledger);
    if !holds(ledger, name.push('\r')) {
        lemma_unmarked_is_not_found(path, ledger);
    }
}

/// A mark lasts: whoever looks the file up in the ledger that the mark
/// left finds it marked, by the same path or by another path to a file of
/// that name in the directory, in the same process or in one that starts
/// afresh. The ledger is all that the answer is read from.
///
/// This leaves out the ledger that does not take the name.
pub proof fn lemma_mark_is_durable(path: FilePathView, again: FilePathView, ledger: Option<Seq<u8>>)
    requires
        outcome(Command::MarkWatched, path, ledger).1 is Ok,
        takes(ledger, file_name_of(path)->Ok_0),
        again.file_name == path.file_name,
        again.parent is Some,
    ensures
        ({
            let marked = outcome(Command::MarkWatched, path, ledger).0;
            outcome(Command::IsWatched, again, marked) == (marked, Ok::<Answer, Error>(Answer::Member))
        }),
{
    lemma_marked(path, ledger);
}

/// A file that was marked and then unmarked is found not marked, unless
/// the ledger held the name with a carriage return after it.
proof fn lemma_unmarked_is_not_found(path: FilePathView, ledger: Option<Seq<u8>>)
    requires
        outcome(Command::MarkWatched, path, ledger).1 is Ok,
        takes(ledger, file_name_of(path)->Ok_0),
        !holds(ledger, file_name_of(path)->Ok_0.push('\r')),
    ensures
        ({
            let marked = outcome(Command::MarkWatched, path, ledger).0;
            let unmarked = outcome(Command::MarkUnwatched, path, marked);
            &&& unmarked.1 == Ok::<Answer, Error>(Answer::Done)
            &&& outcome(Command::IsWatched, path, unmarked.0) == (
                unmarked.0,
                Ok::<Answer, Error>(Answer::NotMember),
            )
        }),
{
    let name = file_name_of(path)->Ok_0;
    lemma_marked(path, ledger);
    lemma_recorded_name(path);
    let before = opened(ledger, OpenMode::ReadWriteCreate)->0;
    let marked = outcome(Command::MarkWatched, path, ledger).0->0;
    let kept = without(names_of(marked), name);
    lemma_rewritten(marked, name);
    let rewritten = render(kept);
    let read = kept.map_values(|name: Seq<char>| without_cr(name));
    lemma_distinct(read);
    if names_of(rewritten).contains(name) {
        assert(read.contains(name));
        let i = choose|i: int| 0 <= i < read.len() && read[i] == name;
        let entry = kept[i];
        assert(kept.contains(entry));
        lemma_without(names_of(marked), name);
        assert(names_of(marked).contains(entry) && entry != name);
        assert(entry =~= name.push('\r'));
        if names_of(before).contains(name) {
            assert(marked == before);
        } else {
            let j = choose|j: int| 0 <= j < names_of(marked).len() && names_of(marked)[j] == entry;
            assert(names_of(before)[j] == entry);
        }
        if ledger is None {
            assert(texts_of(before) =~= Seq::<Seq<char>>::empty());
        }
        assert(false);
    }
}

/// The ledger that unmarking writes is valid, ends its lines, and reads back
/// as the names that were kept, each without the carriage return at its
/// end.
proof fn lemma_rewritten(data: Seq<u8>, name: Seq<char>)
    requires
        well_encoded(data),
    ensures
        ({
            let kept = without(names_of(data), name);
            &&& all_on_one_line(kept)
            &&& well_encoded(render(kept))
            &&& terminated(render(kept))
            &&& texts_of(render(kept)) == kept.map_values(|name: Seq<char>| without_cr(name))
        }),
{
    let kept = without(names_of(data), name);
    lemma_texts_on_one_line(data);
    lemma_distinct(texts_of(data));
    lemma_without(names_of(data), name);
    assert forall|i: int| 0 <= i < kept.len() implies on_one_line(#[trigger] kept[i]) by {
        assert(kept.contains(kept[i]));
        assert(texts_of(data).contains(kept[i]));
        let j = choose|j: int| 0 <= j < texts_of(data).len() && texts_of(data)[j] == kept[i];
        assert(on_one_line(texts_of(data)[j]));
    }
    lemma_render(kept);
}

/// The names of a ledger that is written as this crate writes it fit their
/// lines, and the ledger ends its lines.
pub proof fn lemma_canonical_names_fit(data: Seq<u8>)
    requires
        canonical(Some(data)),
    ensures
        all_fit(names_of(data)),
        names_of(data).no_duplicates(),
        terminated(data),
{
    let held = names_of(data);
    let read = held.map_values(|name: Seq<char>| without_cr(name));
    lemma_texts_on_one_line(data);
    lemma_distinct(texts_of(data));
    assert forall|i: int| 0 <= i < held.len() implies on_one_line(#[trigger] held[i]) by {
        assert(held.contains(held[i]));
        assert(texts_of(data).contains(held[i]));
        let j = choose|j: int| 0 <= j < texts_of(data).len() && texts_of(data)[j] == held[i];
        assert(on_one_line(texts_of(data)[j]));
    }
    lemma_render(held);
    assert(held == distinct(read));
    lemma_distinct_of_same_length(read);
    assert forall|i: int| 0 <= i < held.len() implies fits_line(#[trigger] held[i]) by {
        assert(read[i] == without_cr(held[i]));
    }
}

/// A ledger that is absent, or written as this crate writes it, is so
/// after every request too, whatever the request and however it ends.
///
/// This leaves out the mark on a name with a line feed, which would end its
/// line early.
pub proof fn lemma_canonical_is_kept(command: Command, path: FilePathView, ledger: Option<Seq<u8>>)
    requires
        canonical(ledger),
        command == Command::MarkWatched && file_name_of(path) is Ok ==> on_one_line(
            file_name_of(path)->Ok_0,
        ),
    ensures
        canonical(outcome(command, path, ledger).0),
{
    if plan_of(command, path) is Next {
        let plan = plan_of(command, path)->Next_0;
        let name = plan.name;
        lemma_recorded_name(path);
        let open = opened(ledger, plan.mode);
        if open is Some {
            let data = open->0;
            if ledger is None {
                assert(texts_of(data) =~= Seq::<Seq<char>>::empty());
                assert(lines_of(data) =~= Seq::<Seq<u8>>::empty());
            }
            assert(canonical(open));
            lemma_canonical_names_fit(data);
            match command {
                Command::IsWatched => {},
                Command::MarkWatched => {
                    if !names_of(data).contains(name) {
                        lemma_names_after_append(data, name);
                        assert(names_of(data).push(name).drop_last() =~= names_of(data));
                    }
                },
                Command::MarkUnwatched => {
                    let kept = without(names_of(data), name);
                    lemma_without(names_of(data), name);
                    lemma_rewritten(data, name);
                    assert forall|i: int| 0 <= i < kept.len() implies fits_line(
                        #[trigger] kept[i],
                    ) by {
                        assert(kept.contains(kept[i]));
                        assert(names_of(data).contains(kept[i]));
                        let j = choose|j: int|
                            0 <= j < names_of(data).len() && names_of(data)[j] == kept[i];
                        assert(fits_line(names_of(data)[j]));
                    }
                    lemma_render(kept);
                    lemma_distinct_of_no_duplicates(kept);
                },
            }
        }
    }
}

/// A file that is no video is not found marked and cannot be marked, and
/// neither request opens a ledger, let alone creates one.
pub proof fn lemma_extension_filter(path: FilePathView, ledger: Option<Seq<u8>>)
    requires
        path.extension() matches Some(extension) ==> !is_video(extension),
    ensures
        plan_of(Command::IsWatched, path) is Finished,
        plan_of(Command::MarkWatched, path) is Finished,
        outcome(Command::IsWatched, path, ledger) == (ledger, Ok::<Answer, Error>(Answer::NotMember)),
        outcome(Command::MarkWatched, path, ledger).0 == ledger,
        outcome(Command::MarkWatched, path, ledger).1 is Err,
        path.extension() is Some ==> outcome(Command::MarkWatched, path, ledger).1 == Err::<
            Answer,
            Error,
        >(Error::UnsupportedExtension),
{
}

/// A file without parent directory cannot be marked: the request fails for
/// want of a valid path, and no ledger is opened.
///
/// This leaves out the file with an extension that is no video extension,
/// which is refused for its extension before its directory is looked at.
pub proof fn lemma_no_parent_is_rejected(path: FilePathView, ledger: Option<Seq<u8>>)
    requires
        path.parent is None,
        path.extension() matches Some(extension) ==> is_video(extension),
    ensures
        plan_of(Command::MarkWatched, path) is Finished,
        outcome(Command::MarkWatched, path, ledger).0 == ledger,
        outcome(Command::MarkWatched, path, ledger).1 matches Err(Error::InvalidPath(_)),
{
}

} // verus!
