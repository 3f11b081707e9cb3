use last_watched::cli::Cli;
use last_watched::context_menu::{MenuItem, WatchedContextMenu, CMF_DEFAULTONLY, ID_MARK_UNWATCHED, ID_MARK_WATCHED};
use last_watched::error::{Error, IoFailure, PathDefect};
use last_watched::memory::MemoryLedger;
use last_watched::overlay::{WatchedOverlay, ISIOI_ICONFILE};
use last_watched::path::FilePath;
use last_watched::provider::{begin, Answer, Command, Found, Loading, Step, Writing};
use last_watched::sidecar::{LedgerWrite, OpenMode};

fn loading(command: Command, path: &str) -> Loading {
    match begin(command, &FilePath::new(path)) {
        Step::Next(loading) => loading,
        Step::Finished(result) => panic!("the request ended with {:?}", result),
    }
}

fn done(step: Step<Loading>) -> Result<Answer, Error> {
    match step {
        Step::Finished(result) => result,
        Step::Next(loading) => panic!("the request asks for {:?}", loading),
    }
}

fn answered(step: Step<Writing>) -> Result<Answer, Error> {
    match step {
        Step::Finished(result) => result,
        Step::Next(writing) => panic!("the request asks for {:?}", writing),
    }
}

fn writing(step: Step<Writing>) -> Writing {
    match step {
        Step::Next(writing) => writing,
        Step::Finished(result) => panic!("the request ended with {:?}", result),
    }
}

fn content(ledger: &MemoryLedger) -> Option<&[u8]> {
    ledger.content().map(|data| data.as_slice())
}

#[test]
fn concrete_scenario() {
    let mut ledger = MemoryLedger::new();
    assert_eq!(content(&ledger), None);
    assert_eq!(ledger.mark_watched(&FilePath::new("D/show.mkv")), Ok(Answer::Done));
    assert_eq!(content(&ledger), Some(&b"show.mkv\n"[..]));
    assert_eq!(ledger.mark_watched(&FilePath::new("D/ep2.mkv")), Ok(Answer::Done));
    assert_eq!(content(&ledger), Some(&b"show.mkv\nep2.mkv\n"[..]));
    assert_eq!(ledger.mark_unwatched(&FilePath::new("D/show.mkv")), Ok(Answer::Done));
    assert_eq!(content(&ledger), Some(&b"ep2.mkv\n"[..]));
    assert_eq!(ledger.is_watched(&FilePath::new("D/show.mkv")), Ok(Answer::NotMember));
    assert_eq!(ledger.is_watched(&FilePath::new("D/ep2.mkv")), Ok(Answer::Member));
}

#[test]
fn marking_twice_writes_one_line() {
    let mut ledger = MemoryLedger::new();
    let path = FilePath::new("D/a.mkv");
    assert_eq!(ledger.mark_watched(&path), Ok(Answer::Done));
    let once = ledger.clone();
    assert_eq!(ledger.mark_watched(&path), Ok(Answer::Done));
    assert_eq!(ledger, once);
    assert_eq!(content(&ledger), Some(&b"a.mkv\n"[..]));
}

#[test]
fn unmarking_what_was_never_marked_changes_nothing() {
    let mut absent = MemoryLedger::new();
    assert_eq!(absent.mark_unwatched(&FilePath::new("D/a.mkv")), Ok(Answer::Done));
    assert_eq!(content(&absent), None);
    let mut ledger = MemoryLedger::with_content(b"show.mkv\nep2.mkv\n".to_vec());
    assert_eq!(ledger.mark_unwatched(&FilePath::new("D/a.mkv")), Ok(Answer::Done));
    assert_eq!(content(&ledger), Some(&b"show.mkv\nep2.mkv\n"[..]));
    let mut empty = MemoryLedger::with_content(Vec::new());
    assert_eq!(empty.mark_unwatched(&FilePath::new("D/a.mkv")), Ok(Answer::Done));
    assert_eq!(content(&empty), Some(&b""[..]));
}

#[test]
fn unmarking_tidies_a_ledger_written_by_hand() {
    let mut ledger = MemoryLedger::with_content(b"show.mkv\r\nshow.mkv\nep2.mkv".to_vec());
    assert_eq!(ledger.mark_unwatched(&FilePath::new("D/a.mkv")), Ok(Answer::Done));
    assert_eq!(content(&ledger), Some(&b"show.mkv\nep2.mkv\n"[..]));
}

#[test]
fn round_trip() {
    let mut ledger = MemoryLedger::with_content(b"other.mp4\n".to_vec());
    let path = FilePath::new("D/a.mkv");
    assert_eq!(ledger.is_watched(&path), Ok(Answer::NotMember));
    assert_eq!(ledger.mark_watched(&path), Ok(Answer::Done));
    assert_eq!(ledger.is_watched(&path), Ok(Answer::Member));
    assert_eq!(ledger.mark_unwatched(&path), Ok(Answer::Done));
    assert_eq!(ledger.is_watched(&path), Ok(Answer::NotMember));
    assert_eq!(content(&ledger), Some(&b"other.mp4\n"[..]));
}

#[test]
fn a_file_that_is_no_video_is_neither_found_nor_marked() {
    let mut ledger = MemoryLedger::new();
    let path = FilePath::new("D/notes.txt");
    assert_eq!(ledger.is_watched(&path), Ok(Answer::NotMember));
    assert_eq!(ledger.mark_watched(&path), Err(Error::UnsupportedExtension));
    assert_eq!(ledger.mark_unwatched(&path), Err(Error::UnsupportedExtension));
    assert_eq!(content(&ledger), None);
    assert_eq!(done(begin(Command::IsWatched, &path)), Ok(Answer::NotMember));
    assert_eq!(done(begin(Command::MarkWatched, &path)), Err(Error::UnsupportedExtension));
}

#[test]
fn a_file_that_is_no_video_is_not_found_even_if_the_ledger_holds_it() {
    let mut ledger = MemoryLedger::with_content(b"notes.txt\n".to_vec());
    assert_eq!(ledger.is_watched(&FilePath::new("D/notes.txt")), Ok(Answer::NotMember));
}

#[test]
fn a_file_without_parent_directory_is_not_marked() {
    let mut ledger = MemoryLedger::new();
    let root = FilePath::new("/");
    assert_eq!(ledger.mark_watched(&root), Err(Error::InvalidPath(PathDefect::NoFileName)));
    let video = FilePath { parent: None, file_name: Some("show.mkv".to_string()) };
    assert_eq!(ledger.mark_watched(&video), Err(Error::InvalidPath(PathDefect::NoParent)));
    assert_eq!(done(begin(Command::MarkWatched, &video)), Err(Error::InvalidPath(PathDefect::NoParent)));
    assert_eq!(ledger.is_watched(&video), Ok(Answer::NotMember));
    assert_eq!(ledger.mark_unwatched(&video), Ok(Answer::Done));
    assert_eq!(content(&ledger), None);
}

#[test]
fn a_mark_outlives_the_process_that_made_it() {
    let stored = {
        let mut ledger = MemoryLedger::new();
        assert_eq!(ledger.mark_watched(&FilePath::new("a.mkv")), Ok(Answer::Done));
        ledger.content().unwrap().clone()
    };
    let mut reopened = MemoryLedger::with_content(stored);
    assert_eq!(reopened.is_watched(&FilePath::new("a.mkv")), Ok(Answer::Member));
    assert_eq!(reopened.is_watched(&FilePath::new("./a.mkv")), Ok(Answer::Member));
}

#[test]
fn a_lookup_opens_the_ledger_only_if_it_exists() {
    let loading = loading(Command::IsWatched, "D/show.mkv");
    assert_eq!(loading.directory(), "D");
    assert_eq!(loading.mode(), OpenMode::ReadIfExists);
    assert!(!loading.writes());
    assert_eq!(loading.command(), Command::IsWatched);
    assert_eq!(loading.name(), "show.mkv");
    assert_eq!(answered(loading.loaded(Found::Absent)), Ok(Answer::NotMember));
}

#[test]
fn marking_creates_the_ledger() {
    let loading = loading(Command::MarkWatched, "D/show.mkv");
    assert_eq!(loading.mode(), OpenMode::ReadWriteCreate);
    assert!(loading.writes());
    let writing = writing(loading.loaded(Found::Content(Vec::new())));
    assert_eq!(writing.write(), &LedgerWrite::Append(b"show.mkv\n".to_vec()));
    assert_eq!(writing.finish(Ok(())), Ok(Answer::Done));
}

#[test]
fn marking_what_is_marked_writes_nothing() {
    let loading = loading(Command::MarkWatched, "D/show.mkv");
    assert_eq!(answered(loading.loaded(Found::Content(b"show.mkv\n".to_vec()))), Ok(Answer::Done));
}

#[test]
fn unmarking_does_not_create_a_ledger() {
    let loading = loading(Command::MarkUnwatched, "D/show.mkv");
    assert_eq!(loading.mode(), OpenMode::ReadIfExists);
    assert!(loading.writes());
    assert_eq!(answered(loading.loaded(Found::Absent)), Ok(Answer::Done));
}

#[test]
fn unmarking_rewrites_the_ledger() {
    let loading = loading(Command::MarkUnwatched, "D/show.mkv");
    let writing = writing(loading.loaded(Found::Content(b"a.mkv\nshow.mkv\nb.mkv".to_vec())));
    assert_eq!(writing.write(), &LedgerWrite::Rewrite(b"a.mkv\nb.mkv\n".to_vec()));
    assert_eq!(writing.finish(Ok(())), Ok(Answer::Done));
}

#[test]
fn a_ledger_that_must_be_there_and_is_not_fails_the_mark() {
    let loading = loading(Command::MarkWatched, "D/show.mkv");
    assert_eq!(answered(loading.loaded(Found::Absent)), Err(Error::StoreNotFound));
}

#[test]
fn a_failure_to_read_fails_the_request() {
    for failure in [IoFailure::NotFound, IoFailure::PermissionDenied, IoFailure::TimedOut, IoFailure::Other] {
        for command in [Command::IsWatched, Command::MarkWatched, Command::MarkUnwatched] {
            let loading = loading(command, "D/show.mkv");
            assert_eq!(answered(loading.loaded(Found::Failed(failure))), Err(Error::Io(failure)));
        }
    }
}

#[test]
fn a_failure_to_write_fails_the_mark() {
    let loading = loading(Command::MarkWatched, "D/show.mkv");
    let writing = writing(loading.loaded(Found::Content(Vec::new())));
    assert_eq!(writing.finish(Err(IoFailure::PermissionDenied)), Err(Error::Io(IoFailure::PermissionDenied)));
}

#[test]
fn a_ledger_that_is_no_text_fails_the_request() {
    for command in [Command::IsWatched, Command::MarkWatched, Command::MarkUnwatched] {
        let loading = loading(command, "D/show.mkv");
        assert_eq!(answered(loading.loaded(Found::Content(vec![0x80, 0x0a]))), Err(Error::Encoding));
    }
    let mut ledger = MemoryLedger::with_content(vec![0xff]);
    assert_eq!(ledger.mark_watched(&FilePath::new("D/show.mkv")), Err(Error::Encoding));
    assert_eq!(content(&ledger), Some(&[0xffu8][..]));
}

#[test]
fn a_line_put_after_an_open_line_joins_it() {
    let mut ledger = MemoryLedger::with_content(b"show.mkv".to_vec());
    assert_eq!(ledger.mark_watched(&FilePath::new("D/ep2.mkv")), Ok(Answer::Done));
    assert_eq!(content(&ledger), Some(&b"show.mkvep2.mkv\n"[..]));
    assert_eq!(ledger.is_watched(&FilePath::new("D/ep2.mkv")), Ok(Answer::NotMember));
}

#[test]
fn a_name_with_a_line_feed_is_not_found_again() {
    let mut ledger = MemoryLedger::new();
    let path = FilePath { parent: Some("D".to_string()), file_name: Some("a\nb.mkv".to_string()) };
    assert_eq!(ledger.mark_watched(&path), Ok(Answer::Done));
    assert_eq!(content(&ledger), Some(&b"a\nb.mkv\n"[..]));
    assert_eq!(ledger.is_watched(&path), Ok(Answer::NotMember));
    assert_eq!(ledger.is_watched(&FilePath::new("D/b.mkv")), Ok(Answer::Member));
}

#[test]
fn a_name_with_a_carriage_return_after_it_is_read_back_without() {
    let mut ledger = MemoryLedger::with_content(b"a.mkv\r\r\n".to_vec());
    let path = FilePath::new("D/a.mkv");
    assert_eq!(ledger.is_watched(&path), Ok(Answer::NotMember));
    assert_eq!(ledger.mark_watched(&path), Ok(Answer::Done));
    assert_eq!(content(&ledger), Some(&b"a.mkv\r\r\na.mkv\n"[..]));
    assert_eq!(ledger.mark_unwatched(&path), Ok(Answer::Done));
    assert_eq!(content(&ledger), Some(&b"a.mkv\r\n"[..]));
    assert_eq!(ledger.is_watched(&path), Ok(Answer::Member));
}

#[test]
fn a_ledger_with_carriage_returns_works_like_one_without() {
    let mut ledger = MemoryLedger::with_content(b"show.mkv\r\nep2.mkv\r\n".to_vec());
    let path = FilePath::new("D/a.mkv");
    assert_eq!(ledger.is_watched(&FilePath::new("D/show.mkv")), Ok(Answer::Member));
    assert_eq!(ledger.mark_watched(&path), Ok(Answer::Done));
    assert_eq!(content(&ledger), Some(&b"show.mkv\r\nep2.mkv\r\na.mkv\n"[..]));
    assert_eq!(ledger.is_watched(&path), Ok(Answer::Member));
    assert_eq!(ledger.mark_unwatched(&path), Ok(Answer::Done));
    assert_eq!(content(&ledger), Some(&b"show.mkv\nep2.mkv\n"[..]));
    assert_eq!(ledger.is_watched(&path), Ok(Answer::NotMember));
}

#[test]
fn the_memory_ledger_does_what_it_is_told() {
    let mut ledger = MemoryLedger::new();
    assert!(matches!(ledger.load(OpenMode::ReadIfExists), Found::Absent));
    assert_eq!(content(&ledger), None);
    ledger.store(&LedgerWrite::Nothing);
    assert_eq!(content(&ledger), None);
    assert!(matches!(ledger.load(OpenMode::ReadWriteCreate), Found::Content(data) if data.is_empty()));
    assert_eq!(content(&ledger), Some(&b""[..]));
    ledger.store(&LedgerWrite::Append(b"a\n".to_vec()));
    ledger.store(&LedgerWrite::Append(b"b\n".to_vec()));
    assert_eq!(content(&ledger), Some(&b"a\nb\n"[..]));
    assert!(matches!(ledger.load(OpenMode::ReadIfExists), Found::Content(data) if data == b"a\nb\n"));
    ledger.store(&LedgerWrite::Rewrite(b"c\n".to_vec()));
    assert_eq!(content(&ledger), Some(&b"c\n"[..]));
    ledger.store(&LedgerWrite::Nothing);
    assert_eq!(content(&ledger), Some(&b"c\n"[..]));
}

#[test]
fn the_command_line_marks_and_unmarks() {
    let watched = Cli::Watched { file: "D/show.mkv".to_string() };
    assert_eq!(watched.command(), Command::MarkWatched);
    assert_eq!(watched.file(), "D/show.mkv");
    let unwatched = Cli::Unwatched { file: "D/ep2.mkv".to_string() };
    assert_eq!(unwatched.command(), Command::MarkUnwatched);
    assert_eq!(unwatched.file(), "D/ep2.mkv");
}

#[test]
fn the_overlay_goes_on_watched_files_only() {
    let overlay = WatchedOverlay;
    assert!(overlay.shows_overlay(Ok(Answer::Member)));
    assert!(!overlay.shows_overlay(Ok(Answer::NotMember)));
    assert!(!overlay.shows_overlay(Ok(Answer::Done)));
    assert!(!overlay.shows_overlay(Err(Error::Encoding)));
    assert!(!overlay.shows_overlay(Err(Error::Io(IoFailure::Other))));
    assert_eq!(overlay.get_priority(), 0);
    match overlay.is_member_of(&FilePath::new("D/show.mkv")) {
        Step::Next(loading) => {
            assert_eq!(loading.command(), Command::IsWatched);
            let found = Found::Content(b"show.mkv\n".to_vec());
            assert!(overlay.shows_overlay(answered(loading.loaded(found))));
        }
        Step::Finished(result) => panic!("the lookup ended with {:?}", result),
    }
    assert_eq!(done(overlay.is_member_of(&FilePath::new("D/notes.txt"))), Ok(Answer::NotMember));
}

#[test]
fn the_overlay_icon_must_fit_the_buffer() {
    let overlay = WatchedOverlay;
    let info = overlay.get_overlay_info("C:\\x\\icon.ico", 260).unwrap();
    assert_eq!(info.icon_file.len(), 14);
    assert_eq!(info.icon_file[0], 'C' as u16);
    assert_eq!(info.icon_file[13], 0);
    assert_eq!(info.index, 0);
    assert_eq!(info.flags, ISIOI_ICONFILE);
    assert!(overlay.get_overlay_info("C:\\x\\icon.ico", 14).is_some());
    assert_eq!(overlay.get_overlay_info("C:\\x\\icon.ico", 13), None);
    assert_eq!(overlay.get_overlay_info("", 0), None);
    assert_eq!(overlay.get_overlay_info("", -1), None);
    assert_eq!(overlay.get_overlay_info("", 1).unwrap().icon_file, vec![0]);
}

#[test]
fn the_context_menu_has_two_commands() {
    assert_eq!(
        WatchedContextMenu::menu_item(ID_MARK_WATCHED),
        Some(MenuItem { id: 0, name: "mark-watched", help_text: "Mark video as watched" })
    );
    assert_eq!(
        WatchedContextMenu::menu_item(ID_MARK_UNWATCHED),
        Some(MenuItem { id: 1, name: "mark-unwatched", help_text: "Mark video as not watched" })
    );
    assert_eq!(WatchedContextMenu::menu_item(2), None);
    let menu = WatchedContextMenu;
    assert_eq!(menu.query_context_menu(0), 2);
    assert_eq!(menu.query_context_menu(CMF_DEFAULTONLY), 0);
    assert_eq!(menu.query_context_menu(0x11), 0);
    assert_eq!(menu.query_context_menu(0x10), 2);
}

#[test]
fn the_context_menu_starts_the_command_of_the_given_name() {
    let menu = WatchedContextMenu;
    let path = FilePath::new("D/show.mkv");
    match menu.invoke_command("mark-watched", &path) {
        Some(Step::Next(loading)) => assert_eq!(loading.command(), Command::MarkWatched),
        other => panic!("unexpected {:?}", other),
    }
    match menu.invoke_command("mark-unwatched", &path) {
        Some(Step::Next(loading)) => assert_eq!(loading.command(), Command::MarkUnwatched),
        other => panic!("unexpected {:?}", other),
    }
    assert!(menu.invoke_command("mark", &path).is_none());
    assert!(menu.invoke_command("", &path).is_none());
    assert!(menu.invoke_command("Mark-Watched", &path).is_none());
}
