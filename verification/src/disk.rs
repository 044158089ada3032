//! What reads and updates do to the files themselves, where every operation
//! succeeds.
use crate::lookup::{
    law_first_file_is_looked_up, look_up_bytes, look_up_main, look_up_source, look_up_text, Lookup,
};
use crate::operations::{
    handle, has_target, ActionView, EventView, FileAction, FileEvent, FileTarget,
};
use crate::paths::rooted_path;
use crate::project::{first_at, lemma_first_is_somewhere, listed, paths_of, ProjectView};
use crate::reading::{
    read_begins, read_continues, text_read, AccessErrorView, ReadStep, ReadStepView,
};
use crate::replacement::{
    law_different_last_bytes_are_exact, law_replacement_leaves_one_text, replaceable,
    replaced_text, tails_clash,
};
use crate::sources::SourceView;
use crate::update::{
    differ_in_source, main_path, overwrite, update_begins, update_continues, with_source, StepView,
    UpdateStep,
};
use typst::syntax::FileId;
use vstd::prelude::*;
use vstd::utf8::{
    decode_utf8, encode_utf8, encode_utf8_decode_utf8, encode_utf8_valid_utf8, valid_utf8,
};

verus! {

/// An open file: what it holds, and where it stands.
#[verifier::ext_equal]
pub struct OpenFile {
    pub content: Seq<u8>,
    pub cursor: nat,
}

/// A file that holds `content` and stands at its start.
pub open spec fn rewound(content: Seq<u8>) -> OpenFile {
    OpenFile { content, cursor: 0 }
}

/// `content`, cut off or padded with zeros to a length.
pub open spec fn resized(content: Seq<u8>, len: nat) -> Seq<u8> {
    Seq::new(len, |i: int| if i < content.len() { content[i] } else { 0 })
}

/// What lies between where a file stands and its end.
pub open spec fn unread(file: OpenFile) -> Seq<u8> {
    if file.cursor <= file.content.len() {
        file.content.skip(file.cursor as int)
    } else {
        Seq::empty()
    }
}

/// An operation on an open file that succeeds.
pub open spec fn perform(file: OpenFile, action: ActionView) -> (OpenFile, EventView) {
    match action {
        FileAction::ReadToEnd => (
            OpenFile { cursor: file.cursor + unread(file).len(), ..file },
            FileEvent::Read { bytes: unread(file) },
        ),
        FileAction::Rewind => (rewound(file.content), FileEvent::Done),
        FileAction::SetLen { len } => (
            OpenFile { content: resized(file.content, len as nat), ..file },
            FileEvent::Done,
        ),
        FileAction::WriteAll { bytes } => {
            let end = file.cursor + bytes.len();
            let padded = if end <= file.content.len() {
                file.content
            } else {
                resized(file.content, end)
            };
            (
                OpenFile {
                    content: padded.take(file.cursor as int) + bytes + padded.skip(end as int),
                    cursor: end,
                },
                FileEvent::Done,
            )
        },
    }
}

/// The open files and the step that a read has come to after at most `operations`
/// more operations on `file`, all of which succeed.
pub open spec fn run_read<F>(
    disk: Map<F, OpenFile>,
    file: F,
    step: ReadStepView,
    operations: nat,
) -> (Map<F, OpenFile>, ReadStepView)
    decreases operations,
{
    match step {
        ReadStep::Perform { task, action } => if operations == 0 {
            (disk, step)
        } else {
            let (changed, event) = perform(disk[file], action);
            run_read(
                disk.insert(file, changed),
                file,
                read_continues(task, event),
                (operations - 1) as nat,
            )
        },
        _ => (disk, step),
    }
}

/// The open files and the step that a read ends with where every operation
/// succeeds. No read takes more than two operations.
pub open spec fn read_runs<F>(
    project: ProjectView<F>,
    disk: Map<F, OpenFile>,
    target: FileTarget,
    path: Seq<char>,
) -> (Map<F, OpenFile>, ReadStepView) {
    run_read(disk, handle(project, target), read_begins(target, path), 2)
}

/// Reading a file gives what lies between where it stands and its end, and leaves it
/// rewound, with what it held.
pub proof fn law_read_rewinds<F>(
    project: ProjectView<F>,
    disk: Map<F, OpenFile>,
    target: FileTarget,
    path: Seq<char>,
)
    ensures
        ({
            let file = handle(project, target);
            read_runs(project, disk, target, path) == (
                disk.insert(file, rewound(disk[file].content)),
                ReadStep::<Seq<char>, Seq<u8>, AccessErrorView>::Finished {
                    result: Ok(unread(disk[file])),
                },
            )
        }),
{
    reveal_with_fuel(run_read, 3);
    let file = handle(project, target);
    let read = perform(disk[file], FileAction::ReadToEnd).0;
    assert(disk.insert(file, read).insert(file, rewound(read.content)) =~= disk.insert(
        file,
        rewound(disk[file].content),
    ));
}

/// The bytes that a read ended with, or why there are none.
pub open spec fn outcome(step: ReadStepView) -> Result<Seq<u8>, AccessErrorView> {
    match step {
        ReadStep::Finished { result } => result,
        _ => Err(AccessErrorView::Other { details: None }),
    }
}

/// The text that a read ended with, or why there is none.
pub open spec fn text_outcome(step: ReadStepView) -> Result<Seq<char>, AccessErrorView> {
    match outcome(step) {
        Ok(bytes) => text_read(bytes),
        Err(error) => Err(error),
    }
}

/// What getting the main source leaves on the disk and gives, where every operation
/// succeeds.
pub open spec fn main_runs<F>(project: ProjectView<F>, disk: Map<F, OpenFile>) -> (
    Map<F, OpenFile>,
    Result<Seq<char>, AccessErrorView>,
) {
    match look_up_main(project.main->0) {
        Lookup::Found { value } => (disk, Ok(value.text)),
        Lookup::Unread { target, path } => {
            let (left, step) = read_runs(project, disk, target, path);
            (left, text_outcome(step))
        },
        Lookup::Missing { path } => (disk, Err(AccessErrorView::Other { details: path })),
    }
}

/// What getting the source at a rooted path leaves on the disk and gives, where every
/// operation succeeds.
pub open spec fn source_runs<F>(
    project: ProjectView<F>,
    disk: Map<F, OpenFile>,
    path: Seq<char>,
) -> (Map<F, OpenFile>, Result<Seq<char>, AccessErrorView>) {
    match look_up_source(project.files, path) {
        Lookup::Found { value } => (disk, Ok(value.text)),
        Lookup::Unread { target, path } => {
            let (left, step) = read_runs(project, disk, target, path);
            (left, text_outcome(step))
        },
        Lookup::Missing { .. } => (disk, Err(AccessErrorView::NotFound { path })),
    }
}

/// What getting the file at a rooted path leaves on the disk and gives, where every
/// operation succeeds.
pub open spec fn bytes_runs<F>(
    project: ProjectView<F>,
    disk: Map<F, OpenFile>,
    path: Seq<char>,
) -> (Map<F, OpenFile>, Result<Seq<u8>, AccessErrorView>) {
    match look_up_bytes(project.files, path) {
        Lookup::Found { value } => (disk, Ok(value)),
        Lookup::Unread { target, path } => {
            let (left, step) = read_runs(project, disk, target, path);
            (left, outcome(step))
        },
        Lookup::Missing { .. } => (disk, Err(AccessErrorView::NotFound { path })),
    }
}

/// What getting the text at a path leaves on the disk and gives, where every
/// operation succeeds.
pub open spec fn text_runs<F>(
    project: ProjectView<F>,
    disk: Map<F, OpenFile>,
    path: Seq<char>,
) -> (Map<F, OpenFile>, Result<Seq<char>, AccessErrorView>) {
    if path == main_path() {
        main_runs(project, disk)
    } else {
        source_runs(project, disk, rooted_path(path))
    }
}

/// Whether the file that is meant, if the project has it, is open and stands at its
/// start.
pub open spec fn is_rewound<F>(
    project: ProjectView<F>,
    disk: Map<F, OpenFile>,
    target: FileTarget,
) -> bool {
    has_target(project, target) ==> disk.dom().contains(handle(project, target))
        && disk[handle(project, target)].cursor == 0
}

/// Whether all files of the project are open and stand at their start.
pub open spec fn all_rewound<F>(project: ProjectView<F>, disk: Map<F, OpenFile>) -> bool {
    forall|target: FileTarget| is_rewound(project, disk, target)
}

/// Reading a file that stands at its start changes nothing on the disk.
proof fn lemma_read_changes_nothing<F>(
    project: ProjectView<F>,
    disk: Map<F, OpenFile>,
    target: FileTarget,
    path: Seq<char>,
)
    requires
        has_target(project, target),
        is_rewound(project, disk, target),
    ensures
        read_runs(project, disk, target, path).0 == disk,
{
    let file = handle(project, target);
    law_read_rewinds(project, disk, target, path);
    assert(disk[file] =~= rewound(disk[file].content));
    assert(disk.insert(file, rewound(disk[file].content)) =~= disk);
}

/// Getting a source whose file, if it has to be read, stands at its start changes
/// nothing on the disk: getting it once more gives the same.
pub proof fn law_source_is_read_again<F>(
    project: ProjectView<F>,
    disk: Map<F, OpenFile>,
    path: Seq<char>,
)
    requires
        project.files.len() <= usize::MAX,
        look_up_source(project.files, path) matches Lookup::Unread { target, .. } ==> is_rewound(
            project,
            disk,
            target,
        ),
    ensures
        source_runs(project, disk, path).0 == disk,
        source_runs(project, source_runs(project, disk, path).0, path) == source_runs(
            project,
            disk,
            path,
        ),
{
    if let Lookup::Unread { target, .. } = look_up_source(project.files, path) {
        lemma_first_is_somewhere(project.files, path);
        lemma_read_changes_nothing(project, disk, target, path);
    }
}

/// Getting a file that, if it has to be read, stands at its start changes nothing on
/// the disk: getting it once more gives the same.
pub proof fn law_file_is_read_again<F>(
    project: ProjectView<F>,
    disk: Map<F, OpenFile>,
    path: Seq<char>,
)
    requires
        project.files.len() <= usize::MAX,
        look_up_bytes(project.files, path) matches Lookup::Unread { target, .. } ==> is_rewound(
            project,
            disk,
            target,
        ),
    ensures
        bytes_runs(project, disk, path).0 == disk,
        bytes_runs(project, bytes_runs(project, disk, path).0, path) == bytes_runs(
            project,
            disk,
            path,
        ),
{
    if let Lookup::Unread { target, .. } = look_up_bytes(project.files, path) {
        lemma_first_is_somewhere(project.files, path);
        lemma_read_changes_nothing(project, disk, target, path);
    }
}

/// Getting a text whose file, if it has to be read, stands at its start changes
/// nothing on the disk: getting it once more gives the same.
pub proof fn law_text_is_read_again<F>(
    project: ProjectView<F>,
    disk: Map<F, OpenFile>,
    path: Seq<char>,
)
    requires
        project.files.len() <= usize::MAX,
        path == main_path() ==> project.main is Some,
        look_up_text(project, path) matches Lookup::Unread { target, .. } ==> is_rewound(
            project,
            disk,
            target,
        ),
    ensures
        text_runs(project, disk, path).0 == disk,
        text_runs(project, text_runs(project, disk, path).0, path) == text_runs(
            project,
            disk,
            path,
        ),
{
    if path != main_path() {
        law_source_is_read_again(project, disk, rooted_path(path));
    } else if project.main->0.source is None {
        lemma_read_changes_nothing(project, disk, FileTarget::Main, project.main->0.path);
    }
}

/// The project, the open files and the step that an update has come to after at
/// most `operations` more operations, all of which succeed. A source that is made for
/// the first time gets the given id.
pub open spec fn run<F>(
    project: ProjectView<F>,
    disk: Map<F, OpenFile>,
    step: StepView,
    id: FileId,
    operations: nat,
) -> (ProjectView<F>, Map<F, OpenFile>, StepView)
    decreases operations,
{
    match step {
        UpdateStep::Perform { task, action } => if operations == 0 {
            (project, disk, step)
        } else {
            let file = handle(project, task.target());
            let (changed, event) = perform(disk[file], action);
            let (next, step) = update_continues(project, task, event, id);
            run(next, disk.insert(file, changed), step, id, (operations - 1) as nat)
        },
        _ => (project, disk, step),
    }
}

/// The project, the open files and the step that an update ends with where every
/// operation succeeds. No update takes more than five operations.
pub open spec fn update_runs<F>(
    project: ProjectView<F>,
    disk: Map<F, OpenFile>,
    new_text: Seq<char>,
    path: Seq<char>,
    id: FileId,
) -> (ProjectView<F>, Map<F, OpenFile>, StepView) {
    let (begun, step) = update_begins(project, new_text, path);
    run(begun, disk, step, id, 5)
}

/// The end of an update that succeeded with `text`.
pub open spec fn succeeds(text: Seq<char>) -> StepView {
    UpdateStep::Finished { result: Ok(text) }
}

/// Emptying a file, writing a text to it and rewinding it ends with that text. Of a
/// file that stood at its start, the text and nothing else is left.
proof fn lemma_overwrite<F>(
    project: ProjectView<F>,
    disk: Map<F, OpenFile>,
    target: FileTarget,
    text: Seq<char>,
    id: FileId,
    operations: nat,
)
    requires
        operations >= 3,
    ensures
        ({
            let (after, left, step) = run(project, disk, overwrite(target, text), id, operations);
            &&& after == project
            &&& step == succeeds(text)
            &&& disk[handle(project, target)].cursor == 0 ==> left == disk.insert(
                handle(project, target),
                rewound(encode_utf8(text)),
            )
        }),
{
    reveal_with_fuel(run, 4);
    let file = handle(project, target);
    let bytes = encode_utf8(text);
    let emptied = perform(disk[file], FileAction::SetLen { len: 0 }).0;
    assert(emptied.content =~= Seq::empty());
    let written = perform(emptied, FileAction::WriteAll { bytes }).0;
    let done = perform(written, FileAction::Rewind).0;
    if disk[file].cursor == 0 {
        assert(written.content =~= bytes);
        assert(disk.insert(file, emptied).insert(file, written).insert(file, done) =~= disk.insert(
            file,
            rewound(bytes),
        ));
    }
}

/// The text that the main file is read as, if it is one.
pub open spec fn main_text<F>(project: ProjectView<F>, disk: Map<F, OpenFile>) -> Option<
    Seq<char>,
> {
    let bytes = unread(disk[project.main->0.file]);
    if valid_utf8(bytes) {
        Some(decode_utf8(bytes))
    } else {
        None
    }
}

/// Updating the main file writes the text that it returns, whatever the file held
/// before, and changes nothing else.
///
/// That is the new text, unless it clashes with the old one at the end.
pub proof fn law_main_update_is_written<F>(
    project: ProjectView<F>,
    disk: Map<F, OpenFile>,
    new_text: Seq<char>,
    id: FileId,
)
    requires
        project.main is Some,
        project.main->0.source is None,
        main_text(project, disk) is Some,
        replaceable(main_text(project, disk)->0, new_text),
    ensures
        ({
            let text = replaced_text(main_text(project, disk)->0, new_text);
            &&& update_runs(project, disk, new_text, main_path(), id) == (
                project,
                disk.insert(project.main->0.file, rewound(encode_utf8(text))),
                succeeds(text),
            )
            &&& !tails_clash(main_text(project, disk)->0, new_text) ==> text == new_text
        }),
{
    reveal_with_fuel(run, 3);
    let file = project.main->0.file;
    let old_text = main_text(project, disk)->0;
    let text = replaced_text(old_text, new_text);
    law_replacement_leaves_one_text(old_text, new_text);
    let read = perform(disk[file], FileAction::ReadToEnd).0;
    let again = disk.insert(file, read).insert(file, rewound(read.content));
    lemma_overwrite(project, again, FileTarget::Main, text, id, 3);
    assert(again.insert(file, rewound(encode_utf8(text))) =~= disk.insert(
        file,
        rewound(encode_utf8(text)),
    ));
}

/// After the main file was updated, its text is the one that the update returned.
///
/// That is the new text, unless it clashes with the old one at the end.
pub proof fn law_main_update_is_read_back<F>(
    project: ProjectView<F>,
    disk: Map<F, OpenFile>,
    new_text: Seq<char>,
    id: FileId,
)
    requires
        project.main is Some,
        project.main->0.source is None,
        main_text(project, disk) is Some,
        replaceable(main_text(project, disk)->0, new_text),
    ensures
        ({
            let text = replaced_text(main_text(project, disk)->0, new_text);
            let (after, left, step) = update_runs(project, disk, new_text, main_path(), id);
            &&& step == succeeds(text)
            &&& text_runs(after, left, main_path()).1 == Ok::<Seq<char>, AccessErrorView>(text)
            &&& !tails_clash(main_text(project, disk)->0, new_text) ==> text == new_text
        }),
{
    let text = replaced_text(main_text(project, disk)->0, new_text);
    law_main_update_is_written(project, disk, new_text, id);
    encode_utf8_valid_utf8(text);
    encode_utf8_decode_utf8(text);
    let (after, left, _) = update_runs(project, disk, new_text, main_path(), id);
    law_read_rewinds(after, left, FileTarget::Main, project.main->0.path);
    assert(encode_utf8(text).skip(0) =~= encode_utf8(text));
}

/// The text that an update of the file at `index`, which is not the main one, finds:
/// the one that is remembered, or else the one that the file is read as, if it is
/// one.
pub open spec fn listed_text<F>(
    project: ProjectView<F>,
    disk: Map<F, OpenFile>,
    index: int,
) -> Option<Seq<char>> {
    let bytes = unread(disk[project.files[index].file]);
    match project.files[index].source {
        Some(source) => Some(source.text),
        None => if valid_utf8(bytes) {
            Some(decode_utf8(bytes))
        } else {
            None
        },
    }
}

/// Updating another file whose text is remembered writes the text that it returns,
/// remembers it, and changes nothing else.
///
/// That is the new text, unless it clashes with the old one at the end. The file
/// has to stand at its start, as every update leaves it.
pub proof fn law_remembered_update_is_written<F>(
    project: ProjectView<F>,
    disk: Map<F, OpenFile>,
    new_text: Seq<char>,
    path: Seq<char>,
    index: int,
    id: FileId,
)
    requires
        path != main_path(),
        index <= usize::MAX,
        first_at(project.files, path, index),
        project.files[index].source is Some,
        replaceable(project.files[index].source->0.text, new_text),
        disk[project.files[index].file].cursor == 0,
    ensures
        ({
            let source = project.files[index].source->0;
            let text = replaced_text(source.text, new_text);
            &&& update_runs(project, disk, new_text, path, id) == (
                with_source(project, index, SourceView { id: source.id, text }),
                disk.insert(project.files[index].file, rewound(encode_utf8(text))),
                succeeds(text),
            )
            &&& !tails_clash(source.text, new_text) ==> text == new_text
        }),
{
    assert(paths_of(project.files)[index] == path);
    let source = project.files[index].source->0;
    law_replacement_leaves_one_text(source.text, new_text);
    lemma_overwrite(
        update_begins(project, new_text, path).0,
        disk,
        FileTarget::Listed { index: index as usize },
        replaced_text(source.text, new_text),
        id,
        5,
    );
}

/// Updating another file whose text is not remembered yet remembers the text that
/// it returns. The file is rewound and keeps what it holds, and nothing else
/// changes.
///
/// That is the new text, unless it clashes with the old one at the end.
pub proof fn law_first_update_is_remembered<F>(
    project: ProjectView<F>,
    disk: Map<F, OpenFile>,
    new_text: Seq<char>,
    path: Seq<char>,
    index: int,
    id: FileId,
)
    requires
        path != main_path(),
        index <= usize::MAX,
        first_at(project.files, path, index),
        project.files[index].source is None,
        listed_text(project, disk, index) is Some,
        replaceable(listed_text(project, disk, index)->0, new_text),
    ensures
        ({
            let file = project.files[index].file;
            let text = replaced_text(listed_text(project, disk, index)->0, new_text);
            &&& update_runs(project, disk, new_text, path, id) == (
                with_source(project, index, SourceView { id, text }),
                disk.insert(file, rewound(disk[file].content)),
                succeeds(text),
            )
            &&& !tails_clash(listed_text(project, disk, index)->0, new_text) ==> text == new_text
        }),
{
    reveal_with_fuel(run, 3);
    assert(paths_of(project.files)[index] == path);
    law_replacement_leaves_one_text(listed_text(project, disk, index)->0, new_text);
    let file = project.files[index].file;
    let read = perform(disk[file], FileAction::ReadToEnd).0;
    assert(disk.insert(file, read).insert(file, rewound(read.content)) =~= disk.insert(
        file,
        rewound(disk[file].content),
    ));
}

/// After a file that is not the main one was updated, its text is the one that the
/// update returned, whether its text was remembered before or not.
///
/// That is the new text, unless it clashes with the old one at the end. It is so of
/// files whose path is rooted: the text at any other path is looked for elsewhere.
pub proof fn law_update_is_read_back<F>(
    project: ProjectView<F>,
    disk: Map<F, OpenFile>,
    new_text: Seq<char>,
    path: Seq<char>,
    index: int,
    id: FileId,
)
    requires
        path != main_path(),
        rooted_path(path) == path,
        index <= usize::MAX,
        first_at(project.files, path, index),
        listed_text(project, disk, index) is Some,
        replaceable(listed_text(project, disk, index)->0, new_text),
    ensures
        ({
            let text = replaced_text(listed_text(project, disk, index)->0, new_text);
            let (after, left, step) = update_runs(project, disk, new_text, path, id);
            &&& step == succeeds(text)
            &&& text_runs(after, left, path).1 == Ok::<Seq<char>, AccessErrorView>(text)
            &&& !tails_clash(listed_text(project, disk, index)->0, new_text) ==> text == new_text
        }),
{
    let text = replaced_text(listed_text(project, disk, index)->0, new_text);
    assert(paths_of(project.files)[index] == path);
    law_replacement_leaves_one_text(listed_text(project, disk, index)->0, new_text);
    match project.files[index].source {
        Some(_) => lemma_overwrite(
            update_begins(project, new_text, path).0,
            disk,
            FileTarget::Listed { index: index as usize },
            text,
            id,
            5,
        ),
        None => law_first_update_is_remembered(project, disk, new_text, path, index, id),
    }
    let files = update_runs(project, disk, new_text, path, id).0.files;
    assert(first_at(files, path, index)) by {
        assert forall|k: int| 0 <= k < index implies #[trigger] files[k].path != path by {
            assert(project.files[k].path != path);
        }
    }
    assert(paths_of(files)[index] == path);
}

/// Whether the files that are meant are not read and written through one handle.
pub open spec fn are_apart<F>(project: ProjectView<F>, a: FileTarget, b: FileTarget) -> bool {
    a != b && has_target(project, a) && has_target(project, b) ==> handle(project, a) != handle(
        project,
        b,
    )
}

/// Whether the file that is meant is the one that an update at `path` is about.
pub open spec fn is_updated<F>(
    project: ProjectView<F>,
    path: Seq<char>,
    target: FileTarget,
) -> bool {
    match target {
        FileTarget::Main => path == main_path(),
        FileTarget::Listed { index } => path != main_path() && first_at(
            project.files,
            path,
            index as int,
        ),
    }
}

/// Whether the file that is meant is the one whose text is got at `path`.
pub open spec fn is_got<F>(project: ProjectView<F>, path: Seq<char>, target: FileTarget) -> bool {
    match target {
        FileTarget::Main => path == main_path(),
        FileTarget::Listed { index } => path != main_path() && first_at(
            project.files,
            rooted_path(path),
            index as int,
        ),
    }
}

/// Whether two projects differ in nothing but the source that is remembered for
/// the file that is meant, where that is not the main one.
pub open spec fn differ_at<F>(a: ProjectView<F>, b: ProjectView<F>, target: FileTarget) -> bool {
    match target {
        FileTarget::Main => a == b,
        FileTarget::Listed { index } => differ_in_source(a, b, index as int),
    }
}

/// Projects that differ from one at the same file differ from each other there only.
proof fn lemma_differ_twice<F>(
    a: ProjectView<F>,
    b: ProjectView<F>,
    c: ProjectView<F>,
    target: FileTarget,
)
    requires
        differ_at(a, b, target),
        differ_at(b, c, target),
    ensures
        differ_at(a, c, target),
{
    if let FileTarget::Listed { index } = target {
        assert forall|k: int| 0 <= k < a.files.len() && k != index implies #[trigger] a.files[k]
            == c.files[k] by {
            assert(a.files[k] == b.files[k]);
            assert(b.files[k] == c.files[k]);
        }
    }
}

/// Whether two disks hold the same, except for one file.
pub open spec fn same_but<F>(a: Map<F, OpenFile>, b: Map<F, OpenFile>, file: F) -> bool {
    forall|other: F|
        other != file ==> #[trigger] a[other] == b[other] && a.dom().contains(other)
            == b.dom().contains(other)
}

/// However many operations an update is given, it touches no file but its own.
proof fn lemma_run_stays_with_file<F>(
    project: ProjectView<F>,
    disk: Map<F, OpenFile>,
    step: StepView,
    target: FileTarget,
    id: FileId,
    operations: nat,
)
    requires
        has_target(project, target),
        step matches UpdateStep::Perform { task, .. } ==> task.target() == target,
    ensures
        ({
            let (after, left, _) = run(project, disk, step, id, operations);
            &&& differ_at(after, project, target)
            &&& same_but(left, disk, handle(project, target))
        }),
    decreases operations,
{
    let file = handle(project, target);
    let (after, left, _) = run(project, disk, step, id, operations);
    if operations > 0 && step is Perform {
        let task = step->task;
        let (changed, event) = perform(disk[file], step->action);
        let (next, following) = update_continues(project, task, event, id);
        let written = disk.insert(file, changed);
        assert(differ_at(next, project, target));
        assert(handle(next, target) == file);
        lemma_run_stays_with_file(next, written, following, target, id, (operations - 1) as nat);
        assert(run(next, written, following, id, (operations - 1) as nat) == run(
            project,
            disk,
            step,
            id,
            operations,
        ));
        lemma_differ_twice(after, next, project, target);
        assert(same_but(left, written, file));
        assert(same_but(written, disk, file));
        assert(same_but(left, disk, file)) by {
            assert forall|other: F| other != file implies #[trigger] left[other] == disk[other]
                && left.dom().contains(other) == disk.dom().contains(other) by {
                assert(left[other] == written[other]);
                assert(written[other] == disk[other]);
            }
        }
    } else {
        assert(left == disk && after == project);
        assert(same_but(left, disk, file));
    }
}

/// The file that the update of the file at `path` is about, if there is one.
proof fn lemma_update_stays_with_file<F>(
    project: ProjectView<F>,
    disk: Map<F, OpenFile>,
    new_text: Seq<char>,
    path: Seq<char>,
    id: FileId,
) -> (target: Option<FileTarget>)
    requires
        project.files.len() <= usize::MAX,
    ensures
        ({
            let (after, left, _) = update_runs(project, disk, new_text, path, id);
            match target {
                Some(target) => {
                    &&& has_target(project, target)
                    &&& is_updated(project, path, target)
                    &&& differ_at(after, project, target)
                    &&& same_but(left, disk, handle(project, target))
                },
                None => after == project && left == disk,
            }
        }),
{
    let (begun, step) = update_begins(project, new_text, path);
    let (after, left, _) = update_runs(project, disk, new_text, path, id);
    if path == main_path() {
        if project.main is Some {
            lemma_run_stays_with_file(begun, disk, step, FileTarget::Main, id, 5);
            Some(FileTarget::Main)
        } else {
            None
        }
    } else if listed(paths_of(project.files), path) {
        lemma_first_is_somewhere(project.files, path);
        let index = choose|i: int| first_at(project.files, path, i);
        let target = FileTarget::Listed { index: index as usize };
        assert(differ_at(begun, project, target));
        lemma_run_stays_with_file(begun, disk, step, target, id, 5);
        lemma_differ_twice(after, begun, project, target);
        assert(handle(begun, target) == handle(project, target));
        Some(target)
    } else {
        None
    }
}

/// Where the remembered source of one file changes, the same files are found at the
/// same places.
proof fn lemma_same_first<F>(
    after: ProjectView<F>,
    project: ProjectView<F>,
    target: FileTarget,
    path: Seq<char>,
)
    requires
        differ_at(after, project, target),
    ensures
        listed(paths_of(after.files), path) == listed(paths_of(project.files), path),
        forall|i: int| first_at(after.files, path, i) == first_at(project.files, path, i),
{
    assert(paths_of(after.files) =~= paths_of(project.files)) by {
        assert forall|k: int| 0 <= k < project.files.len() implies after.files[k].path
            == project.files[k].path by {
            if target != (FileTarget::Listed { index: k as usize }) {
                assert(after.files[k] == project.files[k]);
            }
        }
    }
    assert forall|i: int| first_at(after.files, path, i) == first_at(project.files, path, i) by {
        assert forall|k: int| 0 <= k < project.files.len() implies after.files[k].path
            == project.files[k].path by {
            assert(paths_of(after.files)[k] == paths_of(project.files)[k]);
        }
        if first_at(after.files, path, i) {
            assert forall|k: int| 0 <= k < i implies #[trigger] project.files[k].path != path by {
                assert(after.files[k].path != path);
            }
        }
        if first_at(project.files, path, i) {
            assert forall|k: int| 0 <= k < i implies #[trigger] after.files[k].path != path by {
                assert(project.files[k].path != path);
            }
        }
    }
}

/// Updating one file, however that ends, leaves the text at every other path as it
/// was.
///
/// The two files need handles of their own: files that share one hold the same.
pub proof fn law_update_spares_other_texts<F>(
    project: ProjectView<F>,
    disk: Map<F, OpenFile>,
    new_text: Seq<char>,
    path: Seq<char>,
    other: Seq<char>,
    id: FileId,
)
    requires
        project.files.len() <= usize::MAX,
        forall|a: FileTarget, b: FileTarget|
            is_updated(project, path, a) && is_got(project, other, b) ==> #[trigger] are_apart(
                project,
                a,
                b,
            ),
        other == main_path() ==> project.main is Some,
        path != other,
        path != main_path() && other != main_path() ==> path != rooted_path(other),
    ensures
        ({
            let (after, left, _) = update_runs(project, disk, new_text, path, id);
            text_runs(after, left, other).1 == text_runs(project, disk, other).1
        }),
{
    let (after, left, _) = update_runs(project, disk, new_text, path, id);
    let found = lemma_update_stays_with_file(project, disk, new_text, path, id);
    if let Some(target) = found {
        if other == main_path() {
            assert(is_got(project, other, FileTarget::Main));
            assert(are_apart(project, target, FileTarget::Main));
            law_read_rewinds(project, disk, FileTarget::Main, project.main->0.path);
            law_read_rewinds(after, left, FileTarget::Main, project.main->0.path);
        } else {
            let rooted = rooted_path(other);
            lemma_same_first(after, project, target, rooted);
            if listed(paths_of(project.files), rooted) {
                lemma_first_is_somewhere(project.files, rooted);
                let index = choose|i: int| first_at(project.files, rooted, i);
                assert(first_at(after.files, rooted, index));
                lemma_first_is_somewhere(after.files, rooted);
                let place = FileTarget::Listed { index: index as usize };
                assert(is_got(project, other, place));
                assert(target != place);
                assert(are_apart(project, target, place));
                assert(after.files[index] == project.files[index]);
                law_read_rewinds(project, disk, place, rooted);
                law_read_rewinds(after, left, place, rooted);
            }
        }
    }
}

/// Where all files stand at their start before an update, they do so after it,
/// however it ends.
pub proof fn law_update_leaves_files_rewound<F>(
    project: ProjectView<F>,
    disk: Map<F, OpenFile>,
    new_text: Seq<char>,
    path: Seq<char>,
    id: FileId,
)
    requires
        project.files.len() <= usize::MAX,
        all_rewound(project, disk),
    ensures
        ({
            let (after, left, _) = update_runs(project, disk, new_text, path, id);
            all_rewound(after, left)
        }),
{
    reveal_with_fuel(run, 6);
    let (after, left, _) = update_runs(project, disk, new_text, path, id);
    let found = lemma_update_stays_with_file(project, disk, new_text, path, id);
    assert forall|place: FileTarget| is_rewound(after, left, place) by {
        assert(is_rewound(project, disk, place));
        if let Some(target) = found {
            assert(is_rewound(project, disk, target));
            if let FileTarget::Listed { index } = place {
                if place != target && index < project.files.len() {
                    assert(after.files[index as int] == project.files[index as int]);
                }
            }
        }
    }
}

/// Updating one file, however that ends, leaves the source at every other path as it was.
///
/// The two files need handles of their own: files that share one hold the same.
pub proof fn law_update_spares_other_sources<F>(
    project: ProjectView<F>,
    disk: Map<F, OpenFile>,
    new_text: Seq<char>,
    path: Seq<char>,
    other: Seq<char>,
    id: FileId,
)
    requires
        project.files.len() <= usize::MAX,
        path == "/main.typ"@ || path != other,
        forall|a: FileTarget, k: int|
            is_updated(project, path, a) && 0 <= k < project.files.len() && (
            #[trigger] project.files[k]).path == other ==> #[trigger] are_apart(
                project,
                a,
                FileTarget::Listed { index: k as usize },
            ),
    ensures
        ({
            let (after, left, _) = update_runs(project, disk, new_text, path, id);
            source_runs(after, left, other).1 == source_runs(project, disk, other).1
        }),
{
    let (after, left, _) = update_runs(project, disk, new_text, path, id);
    let found = lemma_update_stays_with_file(project, disk, new_text, path, id);
    if let Some(target) = found {
        lemma_same_first(after, project, target, other);
        if listed(paths_of(project.files), other) {
            lemma_first_is_somewhere(project.files, other);
            let index = choose|i: int| first_at(project.files, other, i);
            assert(first_at(after.files, other, index));
            lemma_first_is_somewhere(after.files, other);
            let place = FileTarget::Listed { index: index as usize };
            assert(target != place);
            assert(are_apart(project, target, place));
            assert(after.files[index] == project.files[index]);
            law_read_rewinds(project, disk, place, other);
            law_read_rewinds(after, left, place, other);
        }
    }
}

/// Updating one file, however that ends, leaves the bytes at every other path as they were.
///
/// The two files need handles of their own: files that share one hold the same.
pub proof fn law_update_spares_other_files<F>(
    project: ProjectView<F>,
    disk: Map<F, OpenFile>,
    new_text: Seq<char>,
    path: Seq<char>,
    other: Seq<char>,
    id: FileId,
)
    requires
        project.files.len() <= usize::MAX,
        path == "/main.typ"@ || path != other,
        forall|a: FileTarget, k: int|
            is_updated(project, path, a) && 0 <= k < project.files.len() && (
            #[trigger] project.files[k]).path == other ==> #[trigger] are_apart(
                project,
                a,
                FileTarget::Listed { index: k as usize },
            ),
    ensures
        ({
            let (after, left, _) = update_runs(project, disk, new_text, path, id);
            bytes_runs(after, left, other).1 == bytes_runs(project, disk, other).1
        }),
{
    let (after, left, _) = update_runs(project, disk, new_text, path, id);
    let found = lemma_update_stays_with_file(project, disk, new_text, path, id);
    if let Some(target) = found {
        lemma_same_first(after, project, target, other);
        if listed(paths_of(project.files), other) {
            lemma_first_is_somewhere(project.files, other);
            let index = choose|i: int| first_at(project.files, other, i);
            assert(first_at(after.files, other, index));
            lemma_first_is_somewhere(after.files, other);
            let place = FileTarget::Listed { index: index as usize };
            assert(target != place);
            assert(are_apart(project, target, place));
            assert(after.files[index] == project.files[index]);
            law_read_rewinds(project, disk, place, other);
            law_read_rewinds(after, left, place, other);
        }
    }
}

/// After a file that is not the main one was updated, the text that is got at its path
/// is remembered and is the one that the update returned; so is the source that is
/// looked up there. No file has to be read for it.
pub proof fn law_updated_text_is_got<F>(
    project: ProjectView<F>,
    disk: Map<F, OpenFile>,
    new_text: Seq<char>,
    path: Seq<char>,
    index: int,
    id: FileId,
)
    requires
        path != "/main.typ"@,
        rooted_path(path) == path,
        index <= usize::MAX,
        0 <= index < project.files.len(),
        project.files[index].path == path,
        forall|k: int| 0 <= k < index ==> (#[trigger] project.files[k]).path != path,
        listed_text(project, disk, index) is Some,
        replaceable(listed_text(project, disk, index)->0, new_text),
    ensures
        ({
            let (after, left, step) = update_runs(project, disk, new_text, path, id);
            &&& step matches UpdateStep::Finished { result: Ok(text) }
            &&& look_up_text(after, path) == (Lookup::<Seq<char>, Seq<char>>::Found { value: text })
            &&& look_up_source(after.files, path) matches Lookup::Found { value }
            &&& value.text == text
            &&& text == replaced_text(listed_text(project, disk, index)->0, new_text)
        }),
{
    let text = replaced_text(listed_text(project, disk, index)->0, new_text);
    assert(first_at(project.files, path, index));
    law_update_is_read_back(project, disk, new_text, path, index, id);
    let after = update_runs(project, disk, new_text, path, id).0;
    match project.files[index].source {
        Some(_) => lemma_overwrite(
            update_begins(project, new_text, path).0,
            disk,
            FileTarget::Listed { index: index as usize },
            text,
            id,
            5,
        ),
        None => law_first_update_is_remembered(project, disk, new_text, path, index, id),
    }
    assert(paths_of(project.files)[index] == path);
    lemma_first_is_somewhere(project.files, path);
    assert forall|k: int| 0 <= k < index implies (#[trigger] after.files[k]).path != path by {
        assert(project.files[k].path != path);
    }
    law_first_file_is_looked_up(after.files, path, index as usize);
}

/// An update that succeeds, of the main file or of another one, returns, writes and
/// remembers the new text as it is where the encodings of the last two characters in
/// which it differs from the old one end in different bytes.
pub proof fn law_update_stores_the_new_text<F>(
    project: ProjectView<F>,
    disk: Map<F, OpenFile>,
    new_text: Seq<char>,
    path: Seq<char>,
    index: int,
    id: FileId,
    old_text: Seq<char>,
    head: int,
    tail: int,
)
    requires
        0 <= head,
        0 <= tail,
        head + tail < old_text.len(),
        head + tail < new_text.len(),
        forall|k: int| 0 <= k < head ==> old_text[k] == new_text[k],
        old_text[head] != new_text[head],
        forall|k: int|
            0 <= k < tail ==> #[trigger] old_text[old_text.len() - 1 - k] == new_text[new_text.len()
                - 1 - k],
        encode_utf8(seq![old_text[old_text.len() - 1 - tail]]).last() != encode_utf8(
            seq![new_text[new_text.len() - 1 - tail]],
        ).last(),
        path == "/main.typ"@ ==> project.main is Some && project.main->0.source is None
            && disk[project.main->0.file].cursor == 0 && disk[project.main->0.file].content
            == encode_utf8(old_text),
        path != "/main.typ"@ ==> index <= usize::MAX && 0 <= index < project.files.len()
            && project.files[index].path == path && (forall|k: int|
            0 <= k < index ==> (#[trigger] project.files[k]).path != path)
            && disk[project.files[index].file].cursor == 0
            && match project.files[index].source {
            Some(source) => source.text == old_text,
            None => disk[project.files[index].file].content == encode_utf8(old_text),
        },
    ensures
        ({
            let (after, left, step) = update_runs(project, disk, new_text, path, id);
            &&& step matches UpdateStep::Finished { result: Ok(text) }
            &&& text == new_text
            &&& path == "/main.typ"@ ==> after == project
                && left[project.main->0.file].content == encode_utf8(new_text)
            &&& path != "/main.typ"@ ==> (after.files[index].source matches Some(source)
                && source.text == new_text)
            &&& path != "/main.typ"@ && project.files[index].source is Some
                ==> left[project.files[index].file].content == encode_utf8(new_text)
        }),
{
    law_different_last_bytes_are_exact(old_text, new_text, head, tail);
    encode_utf8_valid_utf8(old_text);
    encode_utf8_decode_utf8(old_text);
    if path == "/main.typ"@ {
        let file = disk[project.main->0.file];
        assert(file.content.skip(0) =~= file.content);
        assert(main_text(project, disk) == Some(old_text));
        law_main_update_is_written(project, disk, new_text, id);
    } else {
        let file = disk[project.files[index].file];
        assert(file.content.skip(0) =~= file.content);
        assert(first_at(project.files, path, index));
        assert(listed_text(project, disk, index) == Some(old_text));
        if project.files[index].source is Some {
            law_remembered_update_is_written(project, disk, new_text, path, index, id);
        } else {
            law_first_update_is_remembered(project, disk, new_text, path, index, id);
        }
    }
}

} // verus!
