//! Operations on the open files of a project, and how they go.
use crate::project::{Project, ProjectView};
use vstd::prelude::*;

verus! {

/// Which of the project's files is meant.
#[derive(Debug, Clone, Copy, PartialEq, Eq, Structural)]
pub enum FileTarget {
    /// The main file.
    Main,
    /// One of the other files, by its place among them.
    Listed { index: usize },
}

/// An operation on an open file. `B` is a vector of bytes, or the sequence that
/// contracts take it for.
pub enum FileAction<B> {
    /// Read from where the file stands to its end.
    ReadToEnd,
    /// Go back to the start of the file.
    Rewind,
    /// Cut the file off, or pad it, to a length.
    SetLen { len: u64 },
    /// Write bytes where the file stands.
    WriteAll { bytes: B },
}

/// The kinds of failed file operations that are told apart.
#[derive(Debug, Clone, Copy, PartialEq, Eq, Structural)]
pub enum IoFailure {
    /// There is no such file.
    NotFound,
    /// The file may not be accessed.
    PermissionDenied,
    /// The file's data is malformed.
    InvalidData,
    /// Anything else.
    Other,
}

/// How an operation on an open file went. `T` is a text and `B` a vector of
/// bytes, or the sequences that contracts take them for.
pub enum FileEvent<T, B> {
    /// It was carried out.
    Done,
    /// It was carried out and read these bytes.
    Read { bytes: B },
    /// It failed: the kind of failure, the error in words, and a description of the
    /// file.
    Failed { failure: IoFailure, error: T, file: T },
}

pub type ActionView = FileAction<Seq<u8>>;

pub type EventView = FileEvent<Seq<char>, Seq<u8>>;

impl View for FileAction<Vec<u8>> {
    type V = ActionView;

    open spec fn view(&self) -> ActionView {
        match *self {
            FileAction::ReadToEnd => FileAction::ReadToEnd,
            FileAction::Rewind => FileAction::Rewind,
            FileAction::SetLen { len } => FileAction::SetLen { len },
            FileAction::WriteAll { bytes } => FileAction::WriteAll { bytes: bytes@ },
        }
    }
}

impl View for FileEvent<String, Vec<u8>> {
    type V = EventView;

    open spec fn view(&self) -> EventView {
        match *self {
            FileEvent::Done => FileEvent::Done,
            FileEvent::Read { bytes } => FileEvent::Read { bytes: bytes@ },
            FileEvent::Failed { failure, error, file } => FileEvent::Failed {
                failure,
                error: error@,
                file: file@,
            },
        }
    }
}

/// Whether the project has the file that is meant.
pub open spec fn has_target<F>(project: ProjectView<F>, target: FileTarget) -> bool {
    match target {
        FileTarget::Main => project.main is Some,
        FileTarget::Listed { index } => index < project.files.len(),
    }
}

/// The handle of a project's file.
pub open spec fn handle<F>(project: ProjectView<F>, target: FileTarget) -> F {
    match target {
        FileTarget::Main => project.main->0.file,
        FileTarget::Listed { index } => project.files[index as int].file,
    }
}

/// The handle of the file that is meant.
pub fn target_file<F>(project: &Project<F>, target: FileTarget) -> (file: &F)
    requires
        has_target(project@, target),
    ensures
        *file == handle(project@, target),
        match target {
            FileTarget::Main => project.main_project_file matches Some(main) && *file == main.file,
            FileTarget::Listed { index } => index < project.project_files.len() && *file
                == project.project_files[index as int].file,
        },
{
    match target {
        FileTarget::Main => &project.main_project_file.as_ref().unwrap().file,
        FileTarget::Listed { index } => &project.project_files[index].file,
    }
}

/// The details of a failure to rewind a file.
pub open spec fn rewind_failure(error: Seq<char>, file: Seq<char>) -> Seq<char> {
    "Rewinding file failed. Error: "@ + error + ", File: "@ + file
}

/// Puts a failure to rewind a file in words.
pub(crate) fn describe_rewind_failure(error: &str, file: &str) -> (details: String)
    ensures
        details@ == rewind_failure(error@, file@),
{
    let mut details: String = "Rewinding file failed. Error: ".to_owned();
    details.append(error);
    details.append(", File: ");
    details.append(file);
    details
}

} // verus!
