//! Changing the text of a project file, one file operation at a time.
use crate::operations::{
    describe_rewind_failure, has_target, rewind_failure, EventView, FileAction, FileEvent,
    FileTarget,
};
use crate::paths::rooted_path;
use crate::project::{
    find_file, first_at, law_removed_paths_are_gone, lemma_first_is_somewhere, listed, paths_of,
    without_paths, FileView, Project, ProjectView,
};
use crate::replacement::{left_text, replaceable, replaced_text};
use crate::sources::{
    file_path, is_in_package, names_file, new_file_id, replace_in, source_id, source_text,
    text_from_utf8, text_of, try_replace, SourceView,
};
use typst::syntax::FileId;
use vstd::prelude::*;
use vstd::utf8::{decode_utf8, encode_utf8, valid_utf8};

verus! {

/// Why the text of a project file could not be changed.
#[derive(Debug)]
pub enum CustomFileError {
    /// No file was found at this path.
    NotFound { path: String },
    /// The file was not valid UTF-8, but should have been.
    InvalidUtf8,
    /// Another error, with more details where there are any.
    Other { details: Option<String> },
}

/// A [`CustomFileError`] as contracts speak of it.
pub enum FileErrorView {
    NotFound { path: Seq<char> },
    InvalidUtf8,
    Other { details: Option<Seq<char>> },
}

impl View for CustomFileError {
    type V = FileErrorView;

    open spec fn view(&self) -> FileErrorView {
        match *self {
            CustomFileError::NotFound { path } => FileErrorView::NotFound { path: path@ },
            CustomFileError::InvalidUtf8 => FileErrorView::InvalidUtf8,
            CustomFileError::Other { details: Some(details) } => FileErrorView::Other {
                details: Some(details@),
            },
            CustomFileError::Other { details: None } => FileErrorView::Other { details: None },
        }
    }
}

/// An update on its way: the operation that it waits for, and what it needs
/// afterwards. `T` and `B` are as in [`FileEvent`].
pub enum UpdateTask<T, B> {
    /// The file is being read.
    Reading { target: FileTarget, new_text: T },
    /// The file was read and is being rewound.
    RewindingRead { target: FileTarget, new_text: T, bytes: B },
    /// The file is being emptied, to take `text`.
    Truncating { target: FileTarget, text: T },
    /// The text is being written.
    Writing { target: FileTarget, text: T },
    /// The text was written and the file is being rewound.
    RewindingWritten { target: FileTarget, text: T },
}

/// What is to happen next in an update. `T`, `B` and `E` are a text, a vector of
/// bytes and an error, or what contracts take them for.
pub enum UpdateStep<T, B, E> {
    /// Perform an operation on the task's file and continue with how it went.
    Perform { task: UpdateTask<T, B>, action: FileAction<B> },
    /// The update is over.
    Finished { result: Result<T, E> },
    /// The update cannot go on, and no error describes why: the caller gives up.
    Abort,
}

pub type TaskView = UpdateTask<Seq<char>, Seq<u8>>;

pub type StepView = UpdateStep<Seq<char>, Seq<u8>, FileErrorView>;

impl View for UpdateTask<String, Vec<u8>> {
    type V = TaskView;

    open spec fn view(&self) -> TaskView {
        match *self {
            UpdateTask::Reading { target, new_text } => UpdateTask::Reading {
                target,
                new_text: new_text@,
            },
            UpdateTask::RewindingRead { target, new_text, bytes } => UpdateTask::RewindingRead {
                target,
                new_text: new_text@,
                bytes: bytes@,
            },
            UpdateTask::Truncating { target, text } => UpdateTask::Truncating {
                target,
                text: text@,
            },
            UpdateTask::Writing { target, text } => UpdateTask::Writing { target, text: text@ },
            UpdateTask::RewindingWritten { target, text } => UpdateTask::RewindingWritten {
                target,
                text: text@,
            },
        }
    }
}

impl View for UpdateStep<String, Vec<u8>, CustomFileError> {
    type V = StepView;

    open spec fn view(&self) -> StepView {
        match *self {
            UpdateStep::Perform { task, action } => UpdateStep::Perform {
                task: task@,
                action: action@,
            },
            UpdateStep::Finished { result: Ok(text) } => UpdateStep::Finished {
                result: Ok(text@),
            },
            UpdateStep::Finished { result: Err(error) } => UpdateStep::Finished {
                result: Err(error@),
            },
            UpdateStep::Abort => UpdateStep::Abort,
        }
    }
}

/// The path at which the main file is changed.
pub open spec fn main_path() -> Seq<char> {
    "/main.typ"@
}

/// The update that empties a file and writes `text` to it.
pub open spec fn overwrite(target: FileTarget, text: Seq<char>) -> StepView {
    UpdateStep::Perform {
        task: UpdateTask::Truncating { target, text },
        action: FileAction::SetLen { len: 0 },
    }
}

/// The update that reads a file first.
pub open spec fn read_first(target: FileTarget, new_text: Seq<char>) -> StepView {
    UpdateStep::Perform {
        task: UpdateTask::Reading { target, new_text },
        action: FileAction::ReadToEnd,
    }
}

/// The update of the main file, once its present text is known.
pub open spec fn edit_main(old_text: Seq<char>, new_text: Seq<char>) -> StepView {
    if replaceable(old_text, new_text) {
        overwrite(FileTarget::Main, replaced_text(old_text, new_text))
    } else {
        UpdateStep::Abort
    }
}

/// The project with another source remembered for one of its files.
pub open spec fn with_source<F>(
    project: ProjectView<F>,
    index: int,
    source: SourceView,
) -> ProjectView<F> {
    ProjectView {
        main: project.main,
        files: project.files.update(
            index,
            FileView { source: Some(source), ..project.files[index] },
        ),
    }
}

/// How the update of a file begins that is not the main one: the place of the
/// file is `index`.
pub open spec fn edit_listed<F>(
    project: ProjectView<F>,
    index: int,
    new_text: Seq<char>,
) -> (ProjectView<F>, StepView) {
    match project.files[index].source {
        Some(source) => if replaceable(source.text, new_text) {
            let text = replaced_text(source.text, new_text);
            (
                with_source(project, index, SourceView { id: source.id, text }),
                overwrite(FileTarget::Listed { index: index as usize }, text),
            )
        } else {
            (project, UpdateStep::Abort)
        },
        None => (project, read_first(FileTarget::Listed { index: index as usize }, new_text)),
    }
}

/// How an update begins.
pub open spec fn update_begins<F>(
    project: ProjectView<F>,
    new_text: Seq<char>,
    path: Seq<char>,
) -> (ProjectView<F>, StepView) {
    if path == main_path() {
        match project.main {
            Some(main) => match main.source {
                Some(source) => (project, edit_main(source.text, new_text)),
                None => (project, read_first(FileTarget::Main, new_text)),
            },
            None => (project, UpdateStep::Abort),
        }
    } else if listed(paths_of(project.files), path) {
        edit_listed(project, choose|i: int| first_at(project.files, path, i), new_text)
    } else {
        (project, UpdateStep::Finished { result: Err(FileErrorView::NotFound { path }) })
    }
}

/// Changes the text of the file at `path` to `new_text`.
///
/// The main file is read, emptied and written again. Another file is emptied and
/// written if its text is already remembered; if not, it is only read, and the
/// changed text is remembered from then on.
pub fn update_project_file<F>(project: &mut Project<F>, new_text: String, path: String) -> (step:
    UpdateStep<String, Vec<u8>, CustomFileError>)
    ensures
        (final(project)@, step@) == update_begins(old(project)@, new_text@, path@),
        final(project).main_project_file == old(project).main_project_file,
        forall|k: int|
            0 <= k < old(project).project_files.len() && (path@ == main_path() || !first_at(
                old(project)@.files,
                path@,
                k,
            )) ==> #[trigger] final(project).project_files@[k] == old(project).project_files@[k],
        step@ matches UpdateStep::Perform { task, .. } ==> has_target(
            final(project)@,
            task.target(),
        ),
        path@ == "/main.typ"@ ==> final(project).project_files@ == old(project).project_files@
            && match old(project).main_project_file {
            None => step is Abort,
            Some(main) => match main.source {
                None => step matches (UpdateStep::Perform {
                    task: UpdateTask::Reading { target, new_text: wanted },
                    action,
                }) && target is Main && wanted@ == new_text@ && action is ReadToEnd,
                Some(source) => if replaceable(source_text(source), new_text@) {
                    step matches (UpdateStep::Perform {
                        task: UpdateTask::Truncating { target, text },
                        action: FileAction::SetLen { len },
                    }) && target is Main && text@ == replaced_text(source_text(source), new_text@)
                        && len == 0
                } else {
                    step is Abort
                },
            },
        },
        path@ != "/main.typ"@ && (forall|i: int|
            0 <= i < old(project).project_files.len() ==> (#[trigger] old(
                project).project_files@[i]).path@ != path@) ==> final(project).project_files@
            == old(project).project_files@ && (step matches UpdateStep::Finished {
            result: Err(CustomFileError::NotFound { path: missing }),
        } && missing@ == path@),
        final(project).project_files.len() == old(project).project_files.len(),
        path@ != "/main.typ"@ ==> forall|i: int|
            0 <= i < old(project).project_files.len() && (#[trigger] old(
                project).project_files@[i]).path@ == path@ && (forall|k: int|
                0 <= k < i ==> (#[trigger] old(project).project_files@[k]).path@ != path@) ==> ({
                let before = old(project).project_files@[i];
                let after = final(project).project_files@[i];
                &&& after.path == before.path
                &&& after.file == before.file
                &&& after.bytes == before.bytes
                &&& forall|k: int|
                    0 <= k < old(project).project_files.len() && k != i ==> (#[trigger] final(
                        project).project_files@[k]) == old(project).project_files@[k]
                &&& match before.source {
                    None => after.source is None && (step matches UpdateStep::Perform {
                        task: UpdateTask::Reading { target, new_text: wanted },
                        action,
                    } && target == (FileTarget::Listed { index: i as usize }) && wanted@
                        == new_text@ && action is ReadToEnd),
                    Some(source) => if replaceable(source_text(source), new_text@) {
                        (after.source matches Some(changed) && source_id(changed) == source_id(
                            source,
                        ) && source_text(changed) == replaced_text(source_text(source), new_text@))
                            && (step matches UpdateStep::Perform {
                            task: UpdateTask::Truncating { target, text },
                            action: FileAction::SetLen { len },
                        } && target == (FileTarget::Listed { index: i as usize }) && text@
                            == replaced_text(source_text(source), new_text@) && len == 0)
                    } else {
                        after.source == before.source && step is Abort
                    },
                }
            }),
{
    if path == "/main.typ".to_owned() {
        match &project.main_project_file {
            Some(main_project_file) => match &main_project_file.source {
                Some(source) => edit_main_text(text_of(source).as_str(), new_text.as_str()),
                None => UpdateStep::Perform {
                    task: UpdateTask::Reading { target: FileTarget::Main, new_text },
                    action: FileAction::ReadToEnd,
                },
            },
            None => UpdateStep::Abort,
        }
    } else {
        match find_file(&project.project_files, &path) {
            Some(index) => {
                proof {
                    assert(first_at(project@.files, path@, index as int));
                    assert(paths_of(project@.files)[index as int] == path@);
                }
                let target = FileTarget::Listed { index };
                match &mut project.project_files[index].source {
                    Some(source) => {
                        if !try_replace(source, new_text.as_str()) {
                            return UpdateStep::Abort;
                        }
                        UpdateStep::Perform {
                            task: UpdateTask::Truncating { target, text: text_of(source) },
                            action: FileAction::SetLen { len: 0 },
                        }
                    },
                    None => UpdateStep::Perform {
                        task: UpdateTask::Reading { target, new_text },
                        action: FileAction::ReadToEnd,
                    },
                }
            },
            None => UpdateStep::Finished { result: Err(CustomFileError::NotFound { path }) },
        }
    }
}

/// The end of an update that failed with the given details.
pub open spec fn fails_with(details: Seq<char>) -> StepView {
    UpdateStep::Finished { result: Err(FileErrorView::Other { details: Some(details) }) }
}

/// What comes of a failed operation: a main file that cannot be read stops the
/// update, and any other failure ends it with an error.
pub open spec fn update_fails(task: TaskView, error: Seq<char>, file: Seq<char>) -> StepView {
    match task {
        UpdateTask::Reading { target: FileTarget::Main, .. } => UpdateStep::Abort,
        UpdateTask::RewindingRead { target: FileTarget::Main, .. } => UpdateStep::Abort,
        UpdateTask::Reading { .. } => fails_with(error),
        UpdateTask::RewindingRead { .. } => fails_with(rewind_failure(error, file)),
        UpdateTask::Truncating { .. } => fails_with(error),
        UpdateTask::Writing { .. } => fails_with(error),
        UpdateTask::RewindingWritten { .. } => fails_with(rewind_failure(error, file)),
    }
}

/// How the update goes on of a file that is not the main one, after its `bytes`
/// were read for the first time: its source gets the given id.
pub open spec fn listed_was_read<F>(
    project: ProjectView<F>,
    index: int,
    new_text: Seq<char>,
    bytes: Seq<u8>,
    id: FileId,
) -> (ProjectView<F>, StepView) {
    if !valid_utf8(bytes) {
        (project, UpdateStep::Finished { result: Err(FileErrorView::InvalidUtf8) })
    } else if replaceable(decode_utf8(bytes), new_text) {
        let text = replaced_text(decode_utf8(bytes), new_text);
        (
            with_source(project, index, SourceView { id, text }),
            UpdateStep::Finished { result: Ok(text) },
        )
    } else {
        (project, UpdateStep::Abort)
    }
}

/// How an update goes on. A source that is made for the first time gets the given
/// id.
pub open spec fn update_continues<F>(
    project: ProjectView<F>,
    task: TaskView,
    event: EventView,
    id: FileId,
) -> (ProjectView<F>, StepView) {
    match event {
        FileEvent::Failed { error, file, .. } => (project, update_fails(task, error, file)),
        FileEvent::Read { bytes } => match task {
            UpdateTask::Reading { target, new_text } => (
                project,
                UpdateStep::Perform {
                    task: UpdateTask::RewindingRead { target, new_text, bytes },
                    action: FileAction::Rewind,
                },
            ),
            _ => (project, UpdateStep::Abort),
        },
        FileEvent::Done => match task {
            UpdateTask::Reading { .. } => (project, UpdateStep::Abort),
            UpdateTask::RewindingRead { target: FileTarget::Main, new_text, bytes } => (
                project,
                if valid_utf8(bytes) {
                    edit_main(decode_utf8(bytes), new_text)
                } else {
                    UpdateStep::Abort
                },
            ),
            UpdateTask::RewindingRead {
                target: FileTarget::Listed { index },
                new_text,
                bytes,
            } => listed_was_read(project, index as int, new_text, bytes, id),
            UpdateTask::Truncating { target, text } => (
                project,
                UpdateStep::Perform {
                    task: UpdateTask::Writing { target, text },
                    action: FileAction::WriteAll { bytes: encode_utf8(text) },
                },
            ),
            UpdateTask::Writing { target, text } => (
                project,
                UpdateStep::Perform {
                    task: UpdateTask::RewindingWritten { target, text },
                    action: FileAction::Rewind,
                },
            ),
            UpdateTask::RewindingWritten { text, .. } => (
                project,
                UpdateStep::Finished { result: Ok(text) },
            ),
        },
    }
}

impl<T, B> UpdateTask<T, B> {
    /// The file that the task is about.
    pub open spec fn target(self) -> FileTarget {
        match self {
            UpdateTask::Reading { target, .. } => target,
            UpdateTask::RewindingRead { target, .. } => target,
            UpdateTask::Truncating { target, .. } => target,
            UpdateTask::Writing { target, .. } => target,
            UpdateTask::RewindingWritten { target, .. } => target,
        }
    }
}

impl UpdateTask<String, Vec<u8>> {
    /// The file that the task is about.
    pub fn file_target(&self) -> (target: FileTarget)
        ensures
            target == self.target(),
            target == self@.target(),
            match *self {
                UpdateTask::Reading { target: of, .. } => target == of,
                UpdateTask::RewindingRead { target: of, .. } => target == of,
                UpdateTask::Truncating { target: of, .. } => target == of,
                UpdateTask::Writing { target: of, .. } => target == of,
                UpdateTask::RewindingWritten { target: of, .. } => target == of,
            },
    {
        match self {
            UpdateTask::Reading { target, .. } => *target,
            UpdateTask::RewindingRead { target, .. } => *target,
            UpdateTask::Truncating { target, .. } => *target,
            UpdateTask::Writing { target, .. } => *target,
            UpdateTask::RewindingWritten { target, .. } => *target,
        }
    }
}

/// Whether an update makes a source for the first time, for a file that is not the
/// main one and whose `bytes` were read.
pub open spec fn makes_source(new_text: Seq<char>, bytes: Seq<u8>) -> bool {
    valid_utf8(bytes) && replaceable(decode_utf8(bytes), new_text)
}

/// Whether an update can go on with `id`: a source that is made for the first time
/// gets an id that names its file.
pub open spec fn goes_with<F>(
    project: ProjectView<F>,
    task: TaskView,
    event: EventView,
    id: FileId,
) -> bool {
    match task {
        UpdateTask::RewindingRead {
            target: FileTarget::Listed { index },
            new_text,
            bytes,
        } if event is Done && makes_source(new_text, bytes) => names_file(
            id,
            project.files[index as int].path,
        ),
        _ => true,
    }
}

/// What is next in an update that waited for an operation, now that the operation
/// went as `event` says.
pub fn continue_update<F>(
    project: &mut Project<F>,
    task: UpdateTask<String, Vec<u8>>,
    event: FileEvent<String, Vec<u8>>,
) -> (step: UpdateStep<String, Vec<u8>, CustomFileError>)
    requires
        has_target(old(project)@, task.target()),
    ensures
        exists|id: FileId|
            #[trigger] goes_with(old(project)@, task@, event@, id) && (final(project)@, step@)
                == update_continues(old(project)@, task@, event@, id),
        final(project).main_project_file == old(project).main_project_file,
        forall|k: int|
            0 <= k < old(project).project_files.len() && task.target() != (FileTarget::Listed {
                index: k as usize,
            }) ==> #[trigger] final(project).project_files@[k] == old(project).project_files@[k],
        step@ matches UpdateStep::Perform { task, .. } ==> has_target(
            final(project)@,
            task.target(),
        ),
        final(project).project_files.len() == old(project).project_files.len(),
        !(task is RewindingRead && event is Done) ==> final(project).project_files@ == old(
            project).project_files@,
        match (task, event) {
            (UpdateTask::Reading { target, new_text }, FileEvent::Read { bytes }) => step matches (
            UpdateStep::Perform {
                task: UpdateTask::RewindingRead { target: of, new_text: wanted, bytes: read },
                action,
            }) && of == target && wanted@ == new_text@ && read@ == bytes@ && action is Rewind,
            (
                UpdateTask::RewindingRead { target: FileTarget::Main, new_text, bytes },
                FileEvent::Done,
            ) => final(project).project_files@ == old(project).project_files@ && if valid_utf8(
                bytes@,
            ) && replaceable(decode_utf8(bytes@), new_text@) {
                step matches (UpdateStep::Perform {
                    task: UpdateTask::Truncating { target, text },
                    action: FileAction::SetLen { len },
                }) && target is Main && text@ == replaced_text(decode_utf8(bytes@), new_text@)
                    && len == 0
            } else {
                step is Abort
            },
            (
                UpdateTask::RewindingRead {
                    target: FileTarget::Listed { index },
                    new_text,
                    bytes,
                },
                FileEvent::Done,
            ) => if !valid_utf8(bytes@) {
                final(project).project_files@ == old(project).project_files@ && (step matches (
                UpdateStep::Finished { result: Err(error) }) && error is InvalidUtf8)
            } else if replaceable(decode_utf8(bytes@), new_text@) {
                let before = old(project).project_files@[index as int];
                let after = final(project).project_files@[index as int];
                let left = replaced_text(decode_utf8(bytes@), new_text@);
                &&& after.path == before.path
                &&& after.file == before.file
                &&& after.bytes == before.bytes
                &&& after.source matches Some(source) && source_text(source) == left && file_path(
                    source_id(source),
                ) == Some(rooted_path(before.path@)) && !is_in_package(source_id(source))
                &&& step matches (UpdateStep::Finished { result: Ok(text) }) && text@ == left
            } else {
                final(project).project_files@ == old(project).project_files@ && step is Abort
            },
            (UpdateTask::Truncating { target, text }, FileEvent::Done) => step matches (
            UpdateStep::Perform {
                task: UpdateTask::Writing { target: of, text: kept },
                action: FileAction::WriteAll { bytes },
            }) && of == target && kept@ == text@ && bytes@ == encode_utf8(text@),
            (UpdateTask::Writing { target, text }, FileEvent::Done) => step matches (
            UpdateStep::Perform {
                task: UpdateTask::RewindingWritten { target: of, text: kept },
                action,
            }) && of == target && kept@ == text@ && action is Rewind,
            (UpdateTask::RewindingWritten { text, .. }, FileEvent::Done) => step matches (
            UpdateStep::Finished { result: Ok(kept) }) && kept@ == text@,
            (
                UpdateTask::Reading { target: FileTarget::Main, .. },
                FileEvent::Failed { .. },
            ) => step is Abort,
            (
                UpdateTask::RewindingRead { target: FileTarget::Main, .. },
                FileEvent::Failed { .. },
            ) => step is Abort,
            (
                UpdateTask::RewindingRead { .. },
                FileEvent::Failed { error, file, .. },
            ) => step matches (UpdateStep::Finished {
                result: Err(CustomFileError::Other { details: Some(details) }),
            }) && details@ == "Rewinding file failed. Error: "@ + error@ + ", File: "@ + file@,
            (
                UpdateTask::RewindingWritten { .. },
                FileEvent::Failed { error, file, .. },
            ) => step matches (UpdateStep::Finished {
                result: Err(CustomFileError::Other { details: Some(details) }),
            }) && details@ == "Rewinding file failed. Error: "@ + error@ + ", File: "@ + file@,
            (_, FileEvent::Failed { error, .. }) => step matches (UpdateStep::Finished {
                result: Err(CustomFileError::Other { details: Some(details) }),
            }) && details@ == error@,
            _ => step is Abort,
        },
{
    let ghost before = project@;
    let ghost task_view = task@;
    let ghost event_view = event@;
    let ghost mut id: FileId = arbitrary();
    let step = match event {
        FileEvent::Failed { error, file, .. } => fail_update(task, error, file),
        FileEvent::Read { bytes } => match task {
            UpdateTask::Reading { target, new_text } => UpdateStep::Perform {
                task: UpdateTask::RewindingRead { target, new_text, bytes },
                action: FileAction::Rewind,
            },
            _ => UpdateStep::Abort,
        },
        FileEvent::Done => match task {
            UpdateTask::Reading { .. } => UpdateStep::Abort,
            UpdateTask::RewindingRead { target, new_text, bytes } => match target {
                FileTarget::Main => finish_main_read(new_text, bytes),
                FileTarget::Listed { index } => {
                    let ghost new_view = new_text@;
                    let ghost read = bytes@;
                    let step = finish_listed_read(project, index, new_text, bytes);
                    proof {
                        id = choose|id: FileId|
                            (makes_source(new_view, read) ==> names_file(
                                id,
                                before.files[index as int].path,
                            )) && (project@, step@) == #[trigger] listed_was_read(
                                before,
                                index as int,
                                new_view,
                                read,
                                id,
                            );
                    }
                    step
                },
            },
            UpdateTask::Truncating { target, text } => {
                let bytes: Vec<u8> = text.as_str().as_bytes_vec();
                UpdateStep::Perform {
                    task: UpdateTask::Writing { target, text },
                    action: FileAction::WriteAll { bytes },
                }
            },
            UpdateTask::Writing { target, text } => UpdateStep::Perform {
                task: UpdateTask::RewindingWritten { target, text },
                action: FileAction::Rewind,
            },
            UpdateTask::RewindingWritten { text, .. } => UpdateStep::Finished { result: Ok(text) },
        },
    };
    assert(goes_with(before, task_view, event_view, id));
    step
}

fn fail_update(task: UpdateTask<String, Vec<u8>>, error: String, file: String) -> (step: UpdateStep<
    String,
    Vec<u8>,
    CustomFileError,
>)
    ensures
        step@ == update_fails(task@, error@, file@),
        match task {
            UpdateTask::Reading { target: FileTarget::Main, .. } => step is Abort,
            UpdateTask::RewindingRead { target: FileTarget::Main, .. } => step is Abort,
            UpdateTask::RewindingRead { .. } => step matches (UpdateStep::Finished {
                result: Err(CustomFileError::Other { details: Some(details) }),
            }) && details@ == "Rewinding file failed. Error: "@ + error@ + ", File: "@ + file@,
            UpdateTask::RewindingWritten { .. } => step matches (UpdateStep::Finished {
                result: Err(CustomFileError::Other { details: Some(details) }),
            }) && details@ == "Rewinding file failed. Error: "@ + error@ + ", File: "@ + file@,
            _ => step matches (UpdateStep::Finished {
                result: Err(CustomFileError::Other { details: Some(details) }),
            }) && details@ == error@,
        },
{
    let details: String = match task {
        UpdateTask::Reading { target: FileTarget::Main, .. } => return UpdateStep::Abort,
        UpdateTask::RewindingRead { target: FileTarget::Main, .. } => return UpdateStep::Abort,
        UpdateTask::Reading { .. } => error,
        UpdateTask::RewindingRead { .. } => describe_rewind_failure(error.as_str(), file.as_str()),
        UpdateTask::Truncating { .. } => error,
        UpdateTask::Writing { .. } => error,
        UpdateTask::RewindingWritten { .. } => describe_rewind_failure(
            error.as_str(),
            file.as_str(),
        ),
    };
    UpdateStep::Finished { result: Err(CustomFileError::Other { details: Some(details) }) }
}

/// Goes on with the update of the main file, whose present text is known.
fn edit_main_text(old_text: &str, new_text: &str) -> (step: UpdateStep<
    String,
    Vec<u8>,
    CustomFileError,
>)
    ensures
        step@ == edit_main(old_text@, new_text@),
        if replaceable(old_text@, new_text@) {
            step matches (UpdateStep::Perform {
                task: UpdateTask::Truncating { target, text },
                action: FileAction::SetLen { len },
            }) && target is Main && text@ == replaced_text(old_text@, new_text@) && len == 0
        } else {
            step is Abort
        },
{
    match left_text(old_text, new_text) {
        Some(text) => UpdateStep::Perform {
            task: UpdateTask::Truncating { target: FileTarget::Main, text },
            action: FileAction::SetLen { len: 0 },
        },
        None => UpdateStep::Abort,
    }
}

/// Goes on with the update of the main file, whose `bytes` were read.
fn finish_main_read(new_text: String, bytes: Vec<u8>) -> (step: UpdateStep<
    String,
    Vec<u8>,
    CustomFileError,
>)
    ensures
        step@ == if valid_utf8(bytes@) {
            edit_main(decode_utf8(bytes@), new_text@)
        } else {
            UpdateStep::Abort
        },
        if valid_utf8(bytes@) && replaceable(decode_utf8(bytes@), new_text@) {
            step matches (UpdateStep::Perform {
                task: UpdateTask::Truncating { target, text },
                action: FileAction::SetLen { len },
            }) && target is Main && text@ == replaced_text(decode_utf8(bytes@), new_text@) && len
                == 0
        } else {
            step is Abort
        },
{
    match text_from_utf8(bytes) {
        Some(old_text) => edit_main_text(old_text.as_str(), new_text.as_str()),
        None => UpdateStep::Abort,
    }
}

/// Goes on with the update of a file that is not the main one, whose `bytes` were
/// read.
fn finish_listed_read<F>(
    project: &mut Project<F>,
    index: usize,
    new_text: String,
    bytes: Vec<u8>,
) -> (step: UpdateStep<String, Vec<u8>, CustomFileError>)
    requires
        index < old(project)@.files.len(),
    ensures
        exists|id: FileId|
            (makes_source(new_text@, bytes@) ==> names_file(
                id,
                old(project)@.files[index as int].path,
            )) && (final(project)@, step@) == #[trigger] listed_was_read(
                old(project)@,
                index as int,
                new_text@,
                bytes@,
                id,
            ),
        final(project).main_project_file == old(project).main_project_file,
        final(project).project_files@.len() == old(project).project_files@.len(),
        forall|k: int|
            0 <= k < old(project).project_files.len() && k != index ==> (#[trigger] final(
                project).project_files@[k]) == old(project).project_files@[k],
        if !valid_utf8(bytes@) {
            final(project).project_files@ == old(project).project_files@ && (step matches (
            UpdateStep::Finished { result: Err(error) }) && error is InvalidUtf8)
        } else if replaceable(decode_utf8(bytes@), new_text@) {
            let before = old(project).project_files@[index as int];
            let after = final(project).project_files@[index as int];
            let left = replaced_text(decode_utf8(bytes@), new_text@);
            &&& after.path == before.path
            &&& after.file == before.file
            &&& after.bytes == before.bytes
            &&& after.source matches Some(source) && source_text(source) == left && file_path(
                source_id(source),
            ) == Some(rooted_path(before.path@)) && !is_in_package(source_id(source))
            &&& step matches (UpdateStep::Finished { result: Ok(text) }) && text@ == left
        } else {
            final(project).project_files@ == old(project).project_files@ && step is Abort
        },
{
    let ghost before = project@;
    let ghost read = bytes@;
    let old_text: String = match text_from_utf8(bytes) {
        Some(old_text) => old_text,
        None => {
            assert(listed_was_read(before, index as int, new_text@, read, arbitrary()).0 == before);
            return UpdateStep::Finished { result: Err(CustomFileError::InvalidUtf8) };
        },
    };
    let id = new_file_id(project.project_files[index].path.as_str());
    let step = match replace_in(id, old_text.as_str(), new_text.as_str()) {
        Some(source) => {
            let text: String = text_of(&source);
            project.project_files[index].source = Some(source);
            UpdateStep::Finished { result: Ok(text) }
        },
        None => UpdateStep::Abort,
    };
    assert((project@, step@) == listed_was_read(before, index as int, new_text@, read, id));
    step
}

/// How many operations an update that waits for one takes at most.
pub open spec fn operations_left(task: TaskView) -> nat {
    match task {
        UpdateTask::Reading { .. } => 5,
        UpdateTask::RewindingRead { .. } => 4,
        UpdateTask::Truncating { .. } => 3,
        UpdateTask::Writing { .. } => 2,
        UpdateTask::RewindingWritten { .. } => 1,
    }
}

/// The file that an update waits for is in the project, at first and later on.
pub proof fn law_target_is_in_project<F>(
    project: ProjectView<F>,
    new_text: Seq<char>,
    path: Seq<char>,
    task: TaskView,
    event: EventView,
    id: FileId,
)
    requires
        project.files.len() <= usize::MAX,
    ensures
        ({
            let (after, step) = update_begins(project, new_text, path);
            step matches UpdateStep::Perform { task, .. } ==> has_target(after, task.target())
        }),
        has_target(project, task.target()) ==> {
            let (after, step) = update_continues(project, task, event, id);
            step matches UpdateStep::Perform { task: next, .. } ==> next.target() == task.target()
                && has_target(after, next.target())
        },
{
    if path != main_path() && listed(paths_of(project.files), path) {
        lemma_first_is_somewhere(project.files, path);
    }
}

/// An update takes at most five operations, however they go.
pub proof fn law_update_takes_five_operations<F>(
    project: ProjectView<F>,
    new_text: Seq<char>,
    path: Seq<char>,
    task: TaskView,
    event: EventView,
    id: FileId,
)
    ensures
        update_begins(project, new_text, path).1 matches UpdateStep::Perform { task, .. }
            ==> operations_left(task) <= 5,
        update_continues(project, task, event, id).1 matches UpdateStep::Perform { task: next, .. }
            ==> operations_left(next) < operations_left(task),
{
}

/// An operation that fails is the last one of its update, and changes nothing that
/// the project remembers.
pub proof fn law_failure_ends_update<F>(
    project: ProjectView<F>,
    task: TaskView,
    event: EventView,
    id: FileId,
)
    requires
        event is Failed,
    ensures
        ({
            let (after, step) = update_continues(project, task, event, id);
            &&& after == project
            &&& step is Abort || (step matches UpdateStep::Finished { result } && result is Err)
        }),
{
}

/// Whether two projects differ in nothing but the source that is remembered for
/// the file at `index`.
pub open spec fn differ_in_source<F>(a: ProjectView<F>, b: ProjectView<F>, index: int) -> bool {
    &&& a.main == b.main
    &&& a.files.len() == b.files.len()
    &&& forall|k: int|
        0 <= k < a.files.len() && k != index ==> #[trigger] a.files[k] == b.files[k]
    &&& 0 <= index < a.files.len() ==> a.files[index].path == b.files[index].path
        && a.files[index].file == b.files[index].file && a.files[index].bytes
        == b.files[index].bytes
}

/// The beginning of an update of the first file at `path` changes nothing in the
/// project but the source that is remembered for that file; that of the main file
/// changes nothing at all.
pub proof fn law_beginning_changes_one_source<F>(
    project: ProjectView<F>,
    new_text: Seq<char>,
    path: Seq<char>,
    index: int,
)
    ensures
        path == main_path() ==> update_begins(project, new_text, path).0 == project,
        first_at(project.files, path, index) ==> differ_in_source(
            update_begins(project, new_text, path).0,
            project,
            index,
        ),
        !listed(paths_of(project.files), path) ==> update_begins(project, new_text, path).0
            == project,
{
    if first_at(project.files, path, index) {
        assert(paths_of(project.files)[index] == path);
    }
}

/// Going on with an update changes nothing in the project but the source that is
/// remembered for the file that it is about; with that of the main file, nothing
/// at all.
pub proof fn law_continuing_changes_one_source<F>(
    project: ProjectView<F>,
    task: TaskView,
    event: EventView,
    id: FileId,
)
    requires
        has_target(project, task.target()),
    ensures
        match task.target() {
            FileTarget::Main => update_continues(project, task, event, id).0 == project,
            FileTarget::Listed { index } => differ_in_source(
                update_continues(project, task, event, id).0,
                project,
                index as int,
            ),
        },
{
}

/// No update makes the project remember the source of its main file: that is read
/// anew each time.
pub proof fn law_main_source_stays_unremembered<F>(
    project: ProjectView<F>,
    new_text: Seq<char>,
    path: Seq<char>,
    task: TaskView,
    event: EventView,
    id: FileId,
)
    requires
        project.main matches Some(main) ==> main.source is None,
    ensures
        update_begins(project, new_text, path).0.main matches Some(main) ==> main.source is None,
        update_continues(project, task, event, id).0.main matches Some(main) ==> main.source is None,
{
}

/// After files are removed, updating one of them finds nothing.
pub proof fn law_removed_file_is_not_updated<F>(
    project: ProjectView<F>,
    paths: Seq<Seq<char>>,
    new_text: Seq<char>,
    path: Seq<char>,
)
    requires
        listed(paths, path),
        path != main_path(),
    ensures
        ({
            let left = ProjectView {
                main: project.main,
                files: without_paths(project.files, paths),
            };
            update_begins(left, new_text, path) == (
                left,
                UpdateStep::<Seq<char>, Seq<u8>, FileErrorView>::Finished {
                    result: Err(FileErrorView::NotFound { path }),
                },
            )
        }),
{
    law_removed_paths_are_gone(project.files, paths);
}

/// After all files are forgotten, no update finds one.
pub proof fn law_cleared_project_is_not_updated<F>(new_text: Seq<char>, path: Seq<char>)
    ensures
        ({
            let cleared = ProjectView::<F> { main: None, files: Seq::empty() };
            let (after, step) = update_begins(cleared, new_text, path);
            &&& after == cleared
            &&& path == main_path() ==> step is Abort
            &&& path != main_path() ==> step == (UpdateStep::<
                Seq<char>,
                Seq<u8>,
                FileErrorView,
            >::Finished { result: Err(FileErrorView::NotFound { path }) })
        }),
{
}

} // verus!
