use beautyxt_rs::project::{
    add_project_files, clear_project_files, remove_project_files, set_main_project_file, Project,
    ProjectFilePathAndFd,
};
use beautyxt_rs::operations::{target_file, FileAction, FileEvent, FileTarget, IoFailure};
use beautyxt_rs::reading::{begin_read, continue_read, FileAccessError, ReadStep};
use beautyxt_rs::update::{continue_update, update_project_file, CustomFileError, UpdateStep};

/// A file in memory: its contents, and where it stands.
struct MemoryFile {
    content: Vec<u8>,
    cursor: usize,
}

fn holds(content: &[u8]) -> MemoryFile {
    MemoryFile { content: content.to_vec(), cursor: 0 }
}

fn perform(file: &mut MemoryFile, action: FileAction<Vec<u8>>) -> FileEvent<String, Vec<u8>> {
    match action {
        FileAction::ReadToEnd => {
            let bytes = file.content[file.cursor..].to_vec();
            file.cursor = file.content.len();
            FileEvent::Read { bytes }
        }
        FileAction::Rewind => {
            file.cursor = 0;
            FileEvent::Done
        }
        FileAction::SetLen { len } => {
            file.content.resize(len as usize, 0);
            FileEvent::Done
        }
        FileAction::WriteAll { bytes } => {
            let end = file.cursor + bytes.len();
            if file.content.len() < end {
                file.content.resize(end, 0);
            }
            file.content[file.cursor..end].copy_from_slice(&bytes);
            file.cursor = end;
            FileEvent::Done
        }
    }
}

fn fails(failure: IoFailure) -> FileEvent<String, Vec<u8>> {
    FileEvent::Failed { failure, error: "broken".to_owned(), file: "File { fd: 9 }".to_owned() }
}

/// Runs a read of the file at `/a.typ` in which the operation `failing` fails, if
/// there is one; `None` if the read aborts.
fn read(
    project: &Project<usize>,
    disk: &mut Vec<MemoryFile>,
    target: FileTarget,
    failing: Option<(usize, IoFailure)>,
) -> Option<Result<Vec<u8>, FileAccessError>> {
    let mut step = begin_read(target, "/a.typ".to_owned());
    let mut operations = 0;
    loop {
        match step {
            ReadStep::Perform { task, action } => {
                let file = *target_file(project, task.file_target());
                let event = match failing {
                    Some((place, failure)) if place == operations => fails(failure),
                    _ => perform(&mut disk[file], action),
                };
                operations += 1;
                assert!(operations <= 2);
                step = continue_read(task, event);
            }
            ReadStep::Finished { result } => return Some(result),
            ReadStep::Abort => return None,
        }
    }
}

/// Runs an update in which the operation `failing` fails, if there is one;
/// `None` if the update aborts. Also counts the operations.
fn run(
    project: &mut Project<usize>,
    disk: &mut Vec<MemoryFile>,
    new_text: &str,
    path: &str,
    failing: Option<usize>,
) -> (Option<Result<String, CustomFileError>>, usize) {
    let mut step = update_project_file(project, new_text.to_owned(), path.to_owned());
    let mut operations = 0;
    loop {
        match step {
            UpdateStep::Perform { task, action } => {
                let file = *target_file(project, task.file_target());
                let event = if failing == Some(operations) {
                    fails(IoFailure::Other)
                } else {
                    perform(&mut disk[file], action)
                };
                operations += 1;
                step = continue_update(project, task, event);
            }
            UpdateStep::Finished { result } => return (Some(result), operations),
            UpdateStep::Abort => return (None, operations),
        }
    }
}

fn update(
    project: &mut Project<usize>,
    disk: &mut Vec<MemoryFile>,
    new_text: &str,
    path: &str,
) -> String {
    run(project, disk, new_text, path, None).0.unwrap().unwrap()
}

/// A project whose main file is the first on the disk, and whose other files are
/// the next ones.
fn project_of(paths: &[&str]) -> Project<usize> {
    let mut project = Project::new();
    let main = ProjectFilePathAndFd { path: "/main.typ".to_owned(), fd: 0 };
    set_main_project_file(&mut project, main, 0);
    let files = paths
        .iter()
        .enumerate()
        .map(|(i, path)| (ProjectFilePathAndFd { path: (*path).to_owned(), fd: 0 }, i + 1))
        .collect();
    add_project_files(&mut project, files);
    project
}

fn details(result: Option<Result<String, CustomFileError>>) -> String {
    match result {
        Some(Err(CustomFileError::Other { details: Some(details) })) => details,
        _ => panic!("another outcome"),
    }
}

#[test]
fn the_main_file_is_written() {
    let mut project = project_of(&[]);
    let mut disk = vec![holds(b"an old text that is long")];
    assert_eq!(update(&mut project, &mut disk, "a new text", "/main.typ"), "a new text");
    assert_eq!(disk[0].content, b"a new text");
    assert_eq!(disk[0].cursor, 0);
    assert!(project.main_project_file.as_ref().unwrap().source.is_none());
    assert_eq!(update(&mut project, &mut disk, "Grüße", "/main.typ"), "Grüße");
    assert_eq!(disk[0].content, "Grüße".as_bytes());
}

#[test]
fn the_first_update_of_another_file_is_only_remembered() {
    let mut project = project_of(&["/a.typ", "/b.typ"]);
    let mut disk = vec![holds(b"main"), holds(b"in a"), holds(b"in b")];
    assert_eq!(update(&mut project, &mut disk, "new a", "/a.typ"), "new a");
    assert_eq!(disk[1].content, b"in a");
    assert_eq!(disk[1].cursor, 0);
    assert_eq!(project.project_files[0].source.as_ref().unwrap().text(), "new a");
    assert!(project.project_files[1].source.is_none());
}

#[test]
fn the_second_update_of_another_file_is_written() {
    let mut project = project_of(&["/a.typ", "/b.typ"]);
    let mut disk = vec![holds(b"main"), holds(b"in a"), holds(b"in b")];
    update(&mut project, &mut disk, "first", "/b.typ");
    assert_eq!(update(&mut project, &mut disk, "second text", "/b.typ"), "second text");
    assert_eq!(disk[2].content, b"second text");
    assert_eq!(disk[2].cursor, 0);
    assert_eq!(disk[1].content, b"in a");
    assert_eq!(disk[0].content, b"main");
    assert_eq!(project.project_files[1].source.as_ref().unwrap().text(), "second text");
}

#[test]
fn a_source_is_rooted_at_its_path() {
    let mut project = project_of(&["lib/../a.typ"]);
    let mut disk = vec![holds(b"main"), holds(b"in a")];
    update(&mut project, &mut disk, "new a", "lib/../a.typ");
    let source = project.project_files[0].source.as_ref().unwrap();
    assert_eq!(source.id().vpath().as_rooted_path().to_str(), Some("/a.typ"));
    assert!(source.id().package().is_none());
}

#[test]
fn a_missing_file_is_not_found() {
    let mut project = project_of(&["/a.typ"]);
    let mut disk = vec![holds(b"main"), holds(b"in a")];
    let (result, operations) = run(&mut project, &mut disk, "text", "/b.typ", None);
    assert!(matches!(result, Some(Err(CustomFileError::NotFound { path })) if path == "/b.typ"));
    assert_eq!(operations, 0);
    remove_project_files(&mut project, vec!["/a.typ".to_owned()]);
    let (result, _) = run(&mut project, &mut disk, "text", "/a.typ", None);
    assert!(matches!(result, Some(Err(CustomFileError::NotFound { path })) if path == "/a.typ"));
}

#[test]
fn a_cleared_project_is_not_updated() {
    let mut project = project_of(&["/a.typ"]);
    let mut disk = vec![holds(b"main"), holds(b"in a")];
    clear_project_files(&mut project);
    let (result, _) = run(&mut project, &mut disk, "text", "/a.typ", None);
    assert!(matches!(result, Some(Err(CustomFileError::NotFound { .. }))));
    let (result, _) = run(&mut project, &mut disk, "text", "/main.typ", None);
    assert!(result.is_none());
}

#[test]
fn bytes_that_are_no_text_are_refused() {
    let mut project = project_of(&["/a.typ"]);
    let mut disk = vec![holds(b"\xff"), holds(b"a\xc3")];
    let (result, operations) = run(&mut project, &mut disk, "text", "/a.typ", None);
    assert!(matches!(result, Some(Err(CustomFileError::InvalidUtf8))));
    assert_eq!(operations, 2);
    assert!(project.project_files[0].source.is_none());
    let (result, operations) = run(&mut project, &mut disk, "text", "/main.typ", None);
    assert!(result.is_none());
    assert_eq!(operations, 2);
    assert_eq!(disk[0].content, b"\xff");
}

#[test]
fn a_main_file_that_cannot_be_read_aborts() {
    for failing in 0..2 {
        let mut project = project_of(&[]);
        let mut disk = vec![holds(b"main")];
        let (result, _) = run(&mut project, &mut disk, "text", "/main.typ", Some(failing));
        assert!(result.is_none());
    }
}

#[test]
fn a_main_file_that_cannot_be_written_is_an_error() {
    let expected = [
        "broken",
        "broken",
        "Rewinding file failed. Error: broken, File: File { fd: 9 }",
    ];
    for (i, expected) in expected.iter().enumerate() {
        let mut project = project_of(&[]);
        let mut disk = vec![holds(b"main")];
        let (result, operations) = run(&mut project, &mut disk, "text", "/main.typ", Some(2 + i));
        assert_eq!(details(result), *expected);
        assert_eq!(operations, 3 + i);
    }
}

#[test]
fn a_file_that_cannot_be_read_is_an_error() {
    let expected = ["broken", "Rewinding file failed. Error: broken, File: File { fd: 9 }"];
    for (failing, expected) in expected.iter().enumerate() {
        let mut project = project_of(&["/a.typ"]);
        let mut disk = vec![holds(b"main"), holds(b"in a")];
        let (result, _) = run(&mut project, &mut disk, "text", "/a.typ", Some(failing));
        assert_eq!(details(result), *expected);
        assert!(project.project_files[0].source.is_none());
    }
}

#[test]
fn a_file_that_cannot_be_written_is_an_error_and_its_text_is_remembered() {
    let expected = [
        "broken",
        "broken",
        "Rewinding file failed. Error: broken, File: File { fd: 9 }",
    ];
    for (failing, expected) in expected.iter().enumerate() {
        let mut project = project_of(&["/a.typ"]);
        let mut disk = vec![holds(b"main"), holds(b"in a")];
        update(&mut project, &mut disk, "first", "/a.typ");
        let (result, _) = run(&mut project, &mut disk, "second", "/a.typ", Some(failing));
        assert_eq!(details(result), *expected);
        assert_eq!(project.project_files[0].source.as_ref().unwrap().text(), "second");
    }
}

#[test]
fn updates_take_at_most_five_operations() {
    let mut project = project_of(&["/a.typ"]);
    let mut disk = vec![holds(b"main"), holds(b"in a")];
    assert_eq!(run(&mut project, &mut disk, "x", "/main.typ", None).1, 5);
    assert_eq!(run(&mut project, &mut disk, "x", "/a.typ", None).1, 2);
    assert_eq!(run(&mut project, &mut disk, "y", "/a.typ", None).1, 3);
}

#[test]
fn texts_that_cannot_be_replaced_abort() {
    let mut project = project_of(&["/a.typ"]);
    let mut disk = vec![holds("ä".as_bytes()), holds("ä".as_bytes())];
    assert!(run(&mut project, &mut disk, "₤", "/main.typ", None).0.is_none());
    assert!(run(&mut project, &mut disk, "₤", "/a.typ", None).0.is_none());
    assert_eq!(disk[0].content, "ä".as_bytes());
    assert!(project.project_files[0].source.is_none());
}

#[test]
fn clashing_texts_keep_the_old_tail() {
    let mut project = project_of(&[]);
    let mut disk = vec![holds("ä".as_bytes())];
    assert_eq!(update(&mut project, &mut disk, "Ĥ", "/main.typ"), "ä");
    assert_eq!(disk[0].content, "ä".as_bytes());
}

#[test]
fn a_remembered_text_keeps_the_old_tail_of_a_clash() {
    let mut project = project_of(&["/a.typ"]);
    let mut disk = vec![holds(b"main"), holds("ä".as_bytes())];
    assert_eq!(update(&mut project, &mut disk, "xĤ", "/a.typ"), "xä");
    assert_eq!(project.project_files[0].source.as_ref().unwrap().text(), "xä");
    assert_eq!(update(&mut project, &mut disk, "yĤ", "/a.typ"), "yä");
    assert_eq!(disk[1].content, "yä".as_bytes());
}

#[test]
fn a_main_file_is_overwritten_from_its_start() {
    let mut project = project_of(&[]);
    let mut disk = vec![MemoryFile { content: b"\xffold".to_vec(), cursor: 1 }];
    assert_eq!(update(&mut project, &mut disk, "new", "/main.typ"), "new");
    assert_eq!(disk[0].content, b"new");
    assert_eq!(disk[0].cursor, 0);
}

#[test]
fn a_first_update_rewinds_the_file() {
    let mut project = project_of(&["/a.typ"]);
    let mut disk = vec![holds(b"main"), MemoryFile { content: b"in a".to_vec(), cursor: 3 }];
    assert_eq!(update(&mut project, &mut disk, "new a", "/a.typ"), "new a");
    assert_eq!(disk[1].content, b"in a");
    assert_eq!(disk[1].cursor, 0);
}

#[test]
fn an_added_file_is_read_anew() {
    let mut project = project_of(&["/a.typ"]);
    let mut disk = vec![holds(b"main"), holds(b"in a"), holds(b"in the other a")];
    update(&mut project, &mut disk, "changed", "/a.typ");
    let again = ProjectFilePathAndFd { path: "/a.typ".to_owned(), fd: 0 };
    add_project_files(&mut project, vec![(again, 2)]);
    assert!(project.project_files[0].source.is_none());
    assert_eq!(project.project_files.len(), 1);
    assert_eq!(project.project_files[0].file, 2);
}

#[test]
fn a_read_leaves_the_file_as_it_was() {
    let project = project_of(&["/a.typ"]);
    let mut disk = vec![holds(b"main"), holds(b"in a")];
    for _ in 0..2 {
        let target = FileTarget::Listed { index: 0 };
        assert_eq!(read(&project, &mut disk, target, None).unwrap().unwrap(), b"in a");
        assert_eq!(read(&project, &mut disk, FileTarget::Main, None).unwrap().unwrap(), b"main");
        assert_eq!(disk[0].content, b"main");
        assert_eq!(disk[1].content, b"in a");
        assert_eq!(disk[0].cursor, 0);
        assert_eq!(disk[1].cursor, 0);
    }
}

#[test]
fn a_read_that_fails_is_an_error() {
    let project = project_of(&["/a.typ"]);
    let mut disk = vec![holds(b"main"), holds(b"in a")];
    let target = FileTarget::Listed { index: 0 };
    let mut read = |place, failure| {
        read(&project, &mut disk, target, Some((place, failure))).unwrap().unwrap_err()
    };
    assert!(matches!(
        read(0, IoFailure::NotFound),
        FileAccessError::NotFound { path } if path == "/a.typ"
    ));
    assert!(matches!(read(0, IoFailure::PermissionDenied), FileAccessError::AccessDenied));
    assert!(matches!(
        read(0, IoFailure::Other),
        FileAccessError::Other { details: Some(details) } if details == "broken"
    ));
    assert!(matches!(
        read(1, IoFailure::NotFound),
        FileAccessError::Other { details: Some(details) }
            if details == "Rewinding file failed. Error: broken, File: File { fd: 9 }"
    ));
}

#[test]
fn events_that_were_not_waited_for_abort() {
    let target = FileTarget::Listed { index: 0 };
    let ReadStep::Perform { task, .. } = begin_read(target, "/a.typ".to_owned()) else {
        panic!("no operation");
    };
    assert!(matches!(continue_read(task, FileEvent::Done), ReadStep::Abort));
    let mut project = project_of(&["/a.typ"]);
    let step = update_project_file(&mut project, "x".to_owned(), "/a.typ".to_owned());
    let UpdateStep::Perform { task, .. } = step else {
        panic!("no operation");
    };
    assert!(matches!(continue_update(&mut project, task, FileEvent::Done), UpdateStep::Abort));
}

#[test]
fn a_file_with_line_ends_can_be_updated_again_and_again() {
    let mut project = project_of(&["/a.typ"]);
    let mut disk = vec![holds(b"main"), holds(b"\r\nX")];
    for text in ["\rX", "\r\nX", "Z"] {
        assert_eq!(update(&mut project, &mut disk, text, "/a.typ"), text);
    }
    assert_eq!(disk[1].content, b"Z");
}

#[test]
fn an_update_keeps_the_id_of_a_source() {
    let mut project = project_of(&["/a.typ", "/b.typ"]);
    let mut disk = vec![holds(b"main"), holds(b"in a"), holds(b"in b")];
    update(&mut project, &mut disk, "one", "/a.typ");
    let id = project.project_files[0].source.as_ref().unwrap().id();
    update(&mut project, &mut disk, "two", "/a.typ");
    update(&mut project, &mut disk, "three", "/b.typ");
    let source = project.project_files[0].source.as_ref().unwrap();
    assert_eq!(source.id(), id);
    assert_eq!(source.text(), "two");
    assert_eq!(disk[1].content, b"two");
}

#[test]
fn deeply_nested_files_are_updated() {
    let nested = |inner: &str| {
        format!("{}#if true [a{}a]{}", "#[".repeat(24), inner, "]".repeat(24))
    };
    let old = nested(&"x".repeat(98));
    let new = nested("$b$");
    let mut project = project_of(&["/a.typ"]);
    let mut disk = vec![holds(old.as_bytes()), holds(old.as_bytes())];
    for path in ["/main.typ", "/a.typ", "/a.typ"] {
        assert_eq!(update(&mut project, &mut disk, &new, path), new);
    }
    assert_eq!(disk[0].content, new.as_bytes());
    assert_eq!(disk[1].content, new.as_bytes());
}
