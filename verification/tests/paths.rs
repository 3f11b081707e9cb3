use last_watched::error::{Error, PathDefect};
use last_watched::path::{extension_of_name, FilePath};
use last_watched::provider::get_file_name;
use last_watched::sidecar::{open_or_create_sidecar, open_sidecar, OpenMode, SIDECAR_NAME};
use last_watched::video::{is_video_extension, VIDEO_EXTENSIONS};

fn parts(parent: Option<&str>, file_name: Option<&str>) -> FilePath {
    FilePath { parent: parent.map(|p| p.to_string()), file_name: file_name.map(|n| n.to_string()) }
}

#[test]
fn a_path_is_split_into_directory_and_name() {
    let path = FilePath::new("D/show.mkv");
    assert_eq!(path.parent.as_deref(), Some("D"));
    assert_eq!(path.file_name.as_deref(), Some("show.mkv"));
    assert_eq!(path.extension(), Some("mkv"));
}

#[test]
fn the_same_text_is_split_the_same_way() {
    for text in ["D/show.mkv", "/", "", "D/..", "a/b/c.mp4", "./x.avi", "D//sub/"] {
        let first = FilePath::new(text);
        let second = FilePath::new(text);
        assert_eq!(first.parent, second.parent);
        assert_eq!(first.file_name, second.file_name);
    }
    let path = FilePath::new("D/sub/");
    assert_eq!(path.parent.as_deref(), Some("D"));
    assert_eq!(path.file_name.as_deref(), Some("sub"));
}

#[test]
fn a_bare_name_lies_in_the_empty_directory() {
    let path = FilePath::new("show.mkv");
    assert_eq!(path.parent.as_deref(), Some(""));
    assert_eq!(path.file_name.as_deref(), Some("show.mkv"));
}

#[test]
fn a_root_has_neither_directory_nor_name() {
    let path = FilePath::new("/");
    assert_eq!(path.parent, None);
    assert_eq!(path.file_name, None);
    assert_eq!(path.extension(), None);
    let empty = FilePath::new("");
    assert_eq!(empty.parent, None);
    assert_eq!(empty.file_name, None);
}

#[test]
fn a_path_that_ends_in_two_dots_names_no_file() {
    let path = FilePath::new("D/..");
    assert_eq!(path.file_name, None);
    assert_eq!(path.extension(), None);
}

#[test]
fn the_extension_follows_the_last_dot() {
    assert_eq!(extension_of_name("show.mkv"), Some("mkv"));
    assert_eq!(extension_of_name("show.s01.e02.MP4"), Some("MP4"));
    assert_eq!(extension_of_name("archive.tar.gz"), Some("gz"));
    assert_eq!(extension_of_name("søn.ø"), Some("ø"));
}

#[test]
fn a_name_may_have_no_extension() {
    assert_eq!(extension_of_name("show"), None);
    assert_eq!(extension_of_name(""), None);
    assert_eq!(extension_of_name(".watched"), None);
    assert_eq!(extension_of_name(".mkv"), None);
}

#[test]
fn a_dot_at_the_end_gives_an_empty_extension() {
    assert_eq!(extension_of_name("show."), Some(""));
    assert_eq!(extension_of_name("..mkv"), Some("mkv"));
    assert_eq!(extension_of_name(".hidden.mkv"), Some("mkv"));
}

#[test]
fn the_video_extensions_are_recognized() {
    for extension in ["mp4", "mkv", "avi", "webm", "flv", "mov", "wmv"] {
        assert!(is_video_extension(extension));
    }
    assert_eq!(VIDEO_EXTENSIONS, ["mp4", "mkv", "avi", "webm", "flv", "mov", "wmv"]);
}

#[test]
fn the_case_of_an_extension_does_not_matter() {
    assert!(is_video_extension("MKV"));
    assert!(is_video_extension("Mp4"));
    assert!(is_video_extension("wEbM"));
}

#[test]
fn other_extensions_are_not_recognized() {
    for extension in ["txt", "", "mk", "mkvv", "mp3", "m4v", "mkv ", ".mkv", "ｍｋｖ", "mKｖ"] {
        assert!(!is_video_extension(extension));
    }
}

#[test]
fn a_video_file_is_recorded_under_its_name() {
    assert_eq!(get_file_name(&FilePath::new("D/show.mkv")), Ok("show.mkv".to_string()));
    assert_eq!(get_file_name(&FilePath::new("D/Show.S01.MKV")), Ok("Show.S01.MKV".to_string()));
    assert_eq!(get_file_name(&parts(None, Some("a.mp4"))), Ok("a.mp4".to_string()));
}

#[test]
fn a_path_without_file_name_is_refused() {
    let error = Error::InvalidPath(PathDefect::NoFileName);
    assert_eq!(get_file_name(&FilePath::new("/")), Err(error));
    assert_eq!(get_file_name(&FilePath::new("D/..")), Err(error));
    assert_eq!(get_file_name(&parts(Some("D"), None)), Err(error));
}

#[test]
fn a_file_without_extension_is_refused() {
    let error = Error::InvalidPath(PathDefect::NoExtension);
    assert_eq!(get_file_name(&FilePath::new("D/show")), Err(error));
    assert_eq!(get_file_name(&FilePath::new("D/.mkv")), Err(error));
}

#[test]
fn a_file_that_is_no_video_is_refused() {
    assert_eq!(get_file_name(&FilePath::new("D/notes.txt")), Err(Error::UnsupportedExtension));
    assert_eq!(get_file_name(&FilePath::new("D/show.")), Err(Error::UnsupportedExtension));
    assert_eq!(get_file_name(&FilePath::new("D/show.mkv.bak")), Err(Error::UnsupportedExtension));
}

#[test]
fn the_ledger_lies_in_the_directory_of_the_file() {
    let path = FilePath::new("D/sub/show.mkv");
    let request = open_sidecar(&path).unwrap();
    assert_eq!(request.directory, "D/sub");
    assert_eq!(request.mode, OpenMode::ReadIfExists);
    let request = open_or_create_sidecar(&path).unwrap();
    assert_eq!(request.directory, "D/sub");
    assert_eq!(request.mode, OpenMode::ReadWriteCreate);
    assert_eq!(SIDECAR_NAME, ".watched");
}

#[test]
fn a_file_without_directory_has_no_ledger() {
    let path = parts(None, Some("show.mkv"));
    assert_eq!(open_sidecar(&path), None);
    assert_eq!(open_or_create_sidecar(&path), Err(Error::InvalidPath(PathDefect::NoParent)));
    assert_eq!(open_sidecar(&FilePath::new("/")), None);
}
