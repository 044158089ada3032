//! Reading a project file, one file operation at a time, and making sense of what
//! was read.
use crate::operations::{
    describe_rewind_failure, rewind_failure, EventView, FileAction, FileEvent, FileTarget,
    IoFailure,
};
use crate::paths::rooted_path;
use crate::replacement::chars_of;
use crate::sources::{
    buffer, file_path, is_in_package, names_file, new_bytes, new_file_id, new_source, source_id,
    source_text, text_from_utf8, text_of,
};
use typst::foundations::Bytes;
use typst::syntax::{FileId, Source};
use vstd::prelude::*;
use vstd::utf8::{decode_utf8, decode_utf8_encode_utf8, encode_utf8, valid_utf8};

verus! {

/// Why a file could not be loaded.
#[derive(Debug)]
pub enum FileAccessError {
    /// No file was found at this path.
    NotFound { path: String },
    /// The file could not be accessed.
    AccessDenied,
    /// The file was not valid UTF-8, but should have been.
    InvalidUtf8,
    /// Another error, with more details where there are any.
    Other { details: Option<String> },
}

/// A [`FileAccessError`] as contracts speak of it.
pub enum AccessErrorView {
    NotFound { path: Seq<char> },
    AccessDenied,
    InvalidUtf8,
    Other { details: Option<Seq<char>> },
}

impl View for FileAccessError {
    type V = AccessErrorView;

    open spec fn view(&self) -> AccessErrorView {
        match *self {
            FileAccessError::NotFound { path } => AccessErrorView::NotFound { path: path@ },
            FileAccessError::AccessDenied => AccessErrorView::AccessDenied,
            FileAccessError::InvalidUtf8 => AccessErrorView::InvalidUtf8,
            FileAccessError::Other { details: Some(details) } => AccessErrorView::Other {
                details: Some(details@),
            },
            FileAccessError::Other { details: None } => AccessErrorView::Other { details: None },
        }
    }
}

/// What a reader says of data that is no text.
pub open spec fn not_a_text() -> Seq<char> {
    "stream did not contain valid UTF-8"@
}

/// Whether `needle` stands in `text` at `start`.
pub open spec fn stands_at(text: Seq<char>, needle: Seq<char>, start: int) -> bool {
    0 <= start <= text.len() - needle.len() && text.subrange(start, start + needle.len()) == needle
}

/// Whether `needle` stands somewhere in `text`.
pub open spec fn contains_text(text: Seq<char>, needle: Seq<char>) -> bool {
    exists|start: int| stands_at(text, needle, start)
}

/// A text holds another where it is made of that one with something before and
/// something behind.
pub proof fn lemma_text_around(text: Seq<char>, needle: Seq<char>)
    ensures
        contains_text(text, needle) <==> exists|a: Seq<char>, b: Seq<char>|
            text == #[trigger] (a + needle + b),
{
    if contains_text(text, needle) {
        let start = choose|start: int| stands_at(text, needle, start);
        let a = text.take(start);
        let b = text.skip(start + needle.len());
        let middle = text.subrange(start, start + needle.len());
        assert(text =~= a + middle + b);
        assert(text == a + needle + b);
    }
    if exists|a: Seq<char>, b: Seq<char>| text == #[trigger] (a + needle + b) {
        let (a, b) = choose|a: Seq<char>, b: Seq<char>| text == #[trigger] (a + needle + b);
        assert(text.subrange(a.len() as int, (a.len() + needle.len()) as int) =~= needle);
        assert(stands_at(text, needle, a.len() as int));
    }
}

/// Whether `needle` stands in `text` at `start`.
fn is_at(text: &Vec<char>, needle: &Vec<char>, start: usize) -> (found: bool)
    requires
        start <= text.len() - needle.len(),
    ensures
        found == stands_at(text@, needle@, start as int),
{
    let mut i: usize = 0;
    while i < needle.len()
        invariant
            i <= needle.len(),
            start <= text.len() - needle.len(),
            forall|k: int| 0 <= k < i ==> text[start + k] == #[trigger] needle[k],
        decreases needle.len() - i,
    {
        if text[start + i] != needle[i] {
            let ghost here = text@.subrange(start as int, start + needle.len());
            assert(here[i as int] != needle[i as int]);
            return false;
        }
        i += 1;
    }
    assert(text@.subrange(start as int, start + needle.len()) =~= needle@);
    true
}

/// Whether `needle` stands somewhere in `text`.
fn has_text(text: &str, needle: &str) -> (found: bool)
    ensures
        found == contains_text(text@, needle@),
{
    let a: Vec<char> = chars_of(text);
    let b: Vec<char> = chars_of(needle);
    if a.len() < b.len() {
        return false;
    }
    let mut start: usize = 0;
    while start < a.len() - b.len()
        invariant
            a@ == text@,
            b@ == needle@,
            start <= a.len() - b.len(),
            forall|k: int| 0 <= k < start ==> !#[trigger] stands_at(text@, needle@, k),
        decreases a.len() - start,
    {
        if is_at(&a, &b, start) {
            return true;
        }
        start += 1;
    }
    is_at(&a, &b, start)
}

/// The error for an operation on the file at `path` that failed with the given kind
/// and message.
pub open spec fn io_error(
    failure: IoFailure,
    message: Seq<char>,
    path: Seq<char>,
) -> AccessErrorView {
    match failure {
        IoFailure::NotFound => AccessErrorView::NotFound { path },
        IoFailure::PermissionDenied => AccessErrorView::AccessDenied,
        IoFailure::InvalidData if contains_text(
            message,
            not_a_text(),
        ) => AccessErrorView::InvalidUtf8,
        _ => AccessErrorView::Other { details: Some(message) },
    }
}

impl FileAccessError {
    /// The error for an operation on the file at `path` that failed with the given
    /// kind and message.
    pub fn from_io(failure: IoFailure, message: String, path: String) -> (error: Self)
        ensures
            error@ == io_error(failure, message@, path@),
            failure is NotFound ==> (error matches FileAccessError::NotFound { path: p } && p@
                == path@),
            failure is PermissionDenied ==> error is AccessDenied,
            failure is InvalidData ==> (error is InvalidUtf8 <==> exists|a: Seq<char>, b: Seq<char>|
                message@ == #[trigger] (a + "stream did not contain valid UTF-8"@ + b)),
            failure is Other || failure is InvalidData && !(error is InvalidUtf8) ==> (
            error matches FileAccessError::Other { details: Some(details) } && details@
                == message@),
    {
        proof {
            lemma_text_around(message@, not_a_text());
        }
        match failure {
            IoFailure::NotFound => FileAccessError::NotFound { path },
            IoFailure::PermissionDenied => FileAccessError::AccessDenied,
            IoFailure::InvalidData => {
                if has_text(message.as_str(), "stream did not contain valid UTF-8") {
                    FileAccessError::InvalidUtf8
                } else {
                    FileAccessError::Other { details: Some(message) }
                }
            },
            IoFailure::Other => FileAccessError::Other { details: Some(message) },
        }
    }
}

/// A read on its way: the operation that it waits for, and what it needs afterwards.
/// `T` is a text and `B` a vector of bytes, or the sequences that contracts take them
/// for.
pub enum ReadTask<T, B> {
    /// The file, which is at this path, is being read.
    Reading { target: FileTarget, path: T },
    /// The file was read and is being rewound.
    Rewinding { target: FileTarget, bytes: B },
}

/// What is to happen next in a read. `T`, `B` and `E` are a text, a vector of bytes
/// and an error, or what contracts take them for.
pub enum ReadStep<T, B, E> {
    /// Perform an operation on the task's file and continue with how it went.
    Perform { task: ReadTask<T, B>, action: FileAction<B> },
    /// The read is over.
    Finished { result: Result<B, E> },
    /// What happened is not what the read waited for: the caller gives up.
    Abort,
}

pub type ReadTaskView = ReadTask<Seq<char>, Seq<u8>>;

pub type ReadStepView = ReadStep<Seq<char>, Seq<u8>, AccessErrorView>;

impl View for ReadTask<String, Vec<u8>> {
    type V = ReadTaskView;

    open spec fn view(&self) -> ReadTaskView {
        match *self {
            ReadTask::Reading { target, path } => ReadTask::Reading { target, path: path@ },
            ReadTask::Rewinding { target, bytes } => ReadTask::Rewinding { target, bytes: bytes@ },
        }
    }
}

impl View for ReadStep<String, Vec<u8>, FileAccessError> {
    type V = ReadStepView;

    open spec fn view(&self) -> ReadStepView {
        match *self {
            ReadStep::Perform { task, action } => ReadStep::Perform {
                task: task@,
                action: action@,
            },
            ReadStep::Finished { result: Ok(bytes) } => ReadStep::Finished { result: Ok(bytes@) },
            ReadStep::Finished { result: Err(error) } => ReadStep::Finished {
                result: Err(error@),
            },
            ReadStep::Abort => ReadStep::Abort,
        }
    }
}

impl<T, B> ReadTask<T, B> {
    /// The file that the task is about.
    pub open spec fn target(self) -> FileTarget {
        match self {
            ReadTask::Reading { target, .. } => target,
            ReadTask::Rewinding { target, .. } => target,
        }
    }
}

impl ReadTask<String, Vec<u8>> {
    /// The file that the task is about.
    pub fn file_target(&self) -> (target: FileTarget)
        ensures
            target == self.target(),
            target == self@.target(),
            match *self {
                ReadTask::Reading { target: of, .. } => target == of,
                ReadTask::Rewinding { target: of, .. } => target == of,
            },
    {
        match self {
            ReadTask::Reading { target, .. } => *target,
            ReadTask::Rewinding { target, .. } => *target,
        }
    }
}

/// How a read begins.
pub open spec fn read_begins(target: FileTarget, path: Seq<char>) -> ReadStepView {
    ReadStep::Perform {
        task: ReadTask::Reading { target, path },
        action: FileAction::ReadToEnd,
    }
}

/// Reads the whole of a file that is at `path`.
pub fn begin_read(target: FileTarget, path: String) -> (step: ReadStep<
    String,
    Vec<u8>,
    FileAccessError,
>)
    ensures
        step@ == read_begins(target, path@),
        step matches ReadStep::Perform { task: ReadTask::Reading { target: of, path: at }, action }
            && of == target && at@ == path@ && action is ReadToEnd,
{
    ReadStep::Perform {
        task: ReadTask::Reading { target, path },
        action: FileAction::ReadToEnd,
    }
}

/// How a read goes on.
pub open spec fn read_continues(task: ReadTaskView, event: EventView) -> ReadStepView {
    match (task, event) {
        (ReadTask::Reading { target, .. }, FileEvent::Read { bytes }) => ReadStep::Perform {
            task: ReadTask::Rewinding { target, bytes },
            action: FileAction::Rewind,
        },
        (ReadTask::Reading { path, .. }, FileEvent::Failed { failure, error, .. }) => {
            ReadStep::Finished { result: Err(io_error(failure, error, path)) }
        },
        (ReadTask::Rewinding { bytes, .. }, FileEvent::Done) => ReadStep::Finished {
            result: Ok(bytes),
        },
        (ReadTask::Rewinding { .. }, FileEvent::Failed { error, file, .. }) => ReadStep::Finished {
            result: Err(AccessErrorView::Other { details: Some(rewind_failure(error, file)) }),
        },
        _ => ReadStep::Abort,
    }
}

/// What is next in a read that waited for an operation, now that the operation went
/// as `event` says.
pub fn continue_read(task: ReadTask<String, Vec<u8>>, event: FileEvent<String, Vec<u8>>) -> (step:
    ReadStep<String, Vec<u8>, FileAccessError>)
    ensures
        step@ == read_continues(task@, event@),
        match (task, event) {
            (ReadTask::Reading { target, .. }, FileEvent::Read { bytes }) => step matches (
            ReadStep::Perform { task: ReadTask::Rewinding { target: of, bytes: read }, action })
                && of == target && read@ == bytes@ && action is Rewind,
            (ReadTask::Reading { path, .. }, FileEvent::Failed { failure, error, .. }) => {
                step matches (ReadStep::Finished { result: Err(reason) }) && match failure {
                    IoFailure::NotFound => reason matches (FileAccessError::NotFound { path: at })
                        && at@ == path@,
                    IoFailure::PermissionDenied => reason is AccessDenied,
                    IoFailure::InvalidData => if exists|a: Seq<char>, b: Seq<char>|
                        error@ == #[trigger] (a + "stream did not contain valid UTF-8"@ + b) {
                        reason is InvalidUtf8
                    } else {
                        reason matches (FileAccessError::Other { details: Some(details) })
                            && details@ == error@
                    },
                    IoFailure::Other => reason matches (
                    FileAccessError::Other { details: Some(details) }) && details@ == error@,
                }
            },
            (ReadTask::Rewinding { bytes, .. }, FileEvent::Done) => step matches (
            ReadStep::Finished { result: Ok(read) }) && read@ == bytes@,
            (ReadTask::Rewinding { .. }, FileEvent::Failed { error, file, .. }) => step matches (
            ReadStep::Finished {
                result: Err(FileAccessError::Other { details: Some(details) }),
            }) && details@ == "Rewinding file failed. Error: "@ + error@ + ", File: "@ + file@,
            _ => step is Abort,
        },
{
    match (task, event) {
        (ReadTask::Reading { target, .. }, FileEvent::Read { bytes }) => ReadStep::Perform {
            task: ReadTask::Rewinding { target, bytes },
            action: FileAction::Rewind,
        },
        (ReadTask::Reading { path, .. }, FileEvent::Failed { failure, error, .. }) => {
            ReadStep::Finished { result: Err(FileAccessError::from_io(failure, error, path)) }
        },
        (ReadTask::Rewinding { bytes, .. }, FileEvent::Done) => ReadStep::Finished {
            result: Ok(bytes),
        },
        (ReadTask::Rewinding { .. }, FileEvent::Failed { error, file, .. }) => {
            let details: String = describe_rewind_failure(error.as_str(), file.as_str());
            ReadStep::Finished { result: Err(FileAccessError::Other { details: Some(details) }) }
        },
        _ => ReadStep::Abort,
    }
}

/// The text that bytes encode, if they are valid UTF-8.
pub open spec fn text_read(bytes: Seq<u8>) -> Result<Seq<char>, AccessErrorView> {
    if valid_utf8(bytes) {
        Ok(decode_utf8(bytes))
    } else {
        Err(AccessErrorView::InvalidUtf8)
    }
}

/// The source with the given id, made of the bytes that were read from its file.
pub fn read_source(id: FileId, bytes: Vec<u8>) -> (result: Result<Source, FileAccessError>)
    ensures
        match result {
            Ok(source) => source_id(source) == id && text_read(bytes@) == Ok::<
                Seq<char>,
                AccessErrorView,
            >(source_text(source)),
            Err(error) => text_read(bytes@) == Err::<Seq<char>, AccessErrorView>(error@),
        },
        match result {
            Ok(source) => source_id(source) == id && valid_utf8(bytes@) && source_text(source)
                == decode_utf8(bytes@) && encode_utf8(source_text(source)) == bytes@,
            Err(error) => !valid_utf8(bytes@) && error is InvalidUtf8,
        },
{
    proof {
        if valid_utf8(bytes@) {
            decode_utf8_encode_utf8(bytes@);
        }
    }
    match text_from_utf8(bytes) {
        Some(text) => Ok(new_source(id, text)),
        None => Err(FileAccessError::InvalidUtf8),
    }
}

/// The source of the project file at `path`, made of the bytes that were read
/// from it.
pub fn read_source_at(path: &str, bytes: Vec<u8>) -> (result: Result<Source, FileAccessError>)
    ensures
        match result {
            Ok(source) => names_file(source_id(source), path@) && text_read(bytes@) == Ok::<
                Seq<char>,
                AccessErrorView,
            >(source_text(source)),
            Err(error) => text_read(bytes@) == Err::<Seq<char>, AccessErrorView>(error@),
        },
        match result {
            Ok(source) => file_path(source_id(source)) == Some(rooted_path(path@))
                && !is_in_package(source_id(source)) && valid_utf8(bytes@) && source_text(source)
                == decode_utf8(bytes@) && encode_utf8(source_text(source)) == bytes@,
            Err(error) => !valid_utf8(bytes@) && error is InvalidUtf8,
        },
{
    read_source(new_file_id(path), bytes)
}

/// The text of the project file at `path`, made of the bytes that were read from
/// it.
pub fn read_text_at(path: &str, bytes: Vec<u8>) -> (result: Result<String, FileAccessError>)
    ensures
        match result {
            Ok(text) => text_read(bytes@) == Ok::<Seq<char>, AccessErrorView>(text@),
            Err(error) => text_read(bytes@) == Err::<Seq<char>, AccessErrorView>(error@),
        },
        match result {
            Ok(text) => valid_utf8(bytes@) && text@ == decode_utf8(bytes@) && encode_utf8(text@)
                == bytes@,
            Err(error) => !valid_utf8(bytes@) && error is InvalidUtf8,
        },
{
    match read_source_at(path, bytes) {
        Ok(source) => Ok(text_of(&source)),
        Err(error) => Err(error),
    }
}

/// The contents of a file, made of the bytes that were read from it.
pub fn read_file(bytes: Vec<u8>) -> (contents: Bytes)
    ensures
        buffer(contents) == bytes@,
{
    new_bytes(bytes)
}

/// A read takes two operations at most, and stays with the file that it began with.
pub proof fn law_read_takes_two_operations(
    target: FileTarget,
    path: Seq<char>,
    first: EventView,
    second: EventView,
)
    ensures
        read_begins(target, path) matches ReadStep::Perform { task, .. } && task.target() == target
            && (read_continues(task, first) matches ReadStep::Perform { task: next, .. } ==> {
            &&& next.target() == target
            &&& !(read_continues(next, second) is Perform)
        }),
{
}

} // verus!
