//! Typst's file ids, sources and byte buffers, as the project files hold them.
use crate::paths::rooted_path;
use crate::replacement::{left_text, replaceable, replaced_text};
use typst::foundations::Bytes;
use typst::syntax::{FileId, Source, VirtualPath};
use vstd::prelude::*;
use vstd::utf8::{decode_utf8, valid_utf8};

verus! {

/// `typst::syntax::FileId`, the interned name of a file.
#[verifier::external_type_specification]
#[verifier::external_body]
pub struct ExFileId(FileId);

/// `typst::syntax::Source`, a parsed source text with the id of its file.
#[verifier::external_type_specification]
#[verifier::external_body]
pub struct ExSource(Source);

/// `typst::foundations::Bytes`, a shared buffer of bytes.
#[verifier::external_type_specification]
#[verifier::external_body]
pub struct ExBytes(Bytes);

/// The rooted path of the `FileId::vpath` of `id`, if it is text.
pub uninterp spec fn file_path(id: FileId) -> Option<Seq<char>>;

/// Whether `FileId::package` returns something for `id`.
pub uninterp spec fn is_in_package(id: FileId) -> bool;

/// What `Source::id` returns for `source`.
pub uninterp spec fn source_id(source: Source) -> FileId;

/// What `Source::text` returns for `source`.
pub uninterp spec fn source_text(source: Source) -> Seq<char>;

/// The bytes that `bytes` holds.
pub uninterp spec fn buffer(bytes: Bytes) -> Seq<u8>;

/// Whether `id` names the file of the project that `path` leads to.
pub open spec fn names_file(id: FileId, path: Seq<char>) -> bool {
    file_path(id) == Some(rooted_path(path)) && !is_in_package(id)
}

/// A source as contracts speak of it.
#[verifier::ext_equal]
pub struct SourceView {
    /// The id of the source's file.
    pub id: FileId,
    /// The whole text.
    pub text: Seq<char>,
}

/// The view of a source.
pub open spec fn source_view(source: Source) -> SourceView {
    SourceView { id: source_id(source), text: source_text(source) }
}

/// Calls `FileId::new` for no package and the `VirtualPath` of `path`: the id is in
/// no package and names the path from the root that `VirtualPath::new` makes of
/// `path` on Unix. That one skips empty parts and `.`, and drops the name before
/// `..` where there is one.
///
/// Ids are interned for the whole process. Which number an id has, and that no
/// more than 65536 can be made before `FileId::new` panics, is left unsaid.
#[verifier::external_body]
pub(crate) fn new_file_id(path: &str) -> (id: FileId)
    ensures
        file_path(id) == Some(rooted_path(path@)),
        !is_in_package(id),
{
    FileId::new(None, VirtualPath::new(path))
}

/// Calls `FileId::vpath` and `VirtualPath::as_rooted_path`, and copies the path
/// if it is text.
#[verifier::external_body]
pub(crate) fn path_of(id: FileId) -> (path: Option<String>)
    ensures
        path is Some <==> file_path(id) is Some,
        path matches Some(path) ==> file_path(id) == Some(path@),
{
    id.vpath().as_rooted_path().to_str().map(str::to_owned)
}

/// Whether the path of an id is text, as the path of every id is that was made of
/// text.
pub fn has_text_path(id: FileId) -> (has: bool)
    ensures
        has <==> file_path(id) is Some,
{
    path_of(id).is_some()
}

/// Calls `Source::new`: the source has the id and the text that it was made from.
#[verifier::external_body]
pub(crate) fn new_source(id: FileId, text: String) -> (source: Source)
    ensures
        source_id(source) == id,
        source_text(source) == text@,
{
    Source::new(id, text)
}

/// Calls `Source::text` and copies the text.
#[verifier::external_body]
pub(crate) fn text_of(source: &Source) -> (text: String)
    ensures
        text@ == source_text(*source),
{
    source.text().to_owned()
}

/// `Source::clone`: the copy has the same id and the same text.
pub assume_specification[ <Source as Clone>::clone ](source: &Source) -> (copy: Source)
    ensures
        source_id(copy) == source_id(*source),
        source_text(copy) == source_text(*source),
;

/// Calls `Source::id`.
#[verifier::external_body]
pub(crate) fn id_of(source: &Source) -> (id: FileId)
    ensures
        id == source_id(*source),
{
    source.id()
}

/// The source with the given id that holds `old` and is told to hold `new`, unless
/// that cannot be done.
pub fn replace_in(id: FileId, old: &str, new: &str) -> (source: Option<Source>)
    ensures
        match source {
            Some(source) => replaceable(old@, new@) && source_view(source) == (SourceView {
                id,
                text: replaced_text(old@, new@),
            }),
            None => !replaceable(old@, new@),
        },
        source matches Some(source) ==> source_id(source) == id && source_text(source)
            == replaced_text(old@, new@),
{
    match left_text(old, new) {
        Some(text) => Some(new_source(id, text)),
        None => None,
    }
}

/// Tells `source` to hold the text `new`, unless that cannot be done.
pub fn try_replace(source: &mut Source, new: &str) -> (done: bool)
    ensures
        done == replaceable(source_text(*old(source)), new@),
        done ==> source_view(*final(source)) == (SourceView {
            id: source_id(*old(source)),
            text: replaced_text(source_text(*old(source)), new@),
        }),
        !done ==> *final(source) == *old(source),
        done ==> source_id(*final(source)) == source_id(*old(source)) && source_text(*final(source))
            == replaced_text(source_text(*old(source)), new@),
{
    match replace_in(id_of(source), text_of(source).as_str(), new) {
        Some(replaced) => {
            *source = replaced;
            true
        },
        None => false,
    }
}

/// Calls `Bytes::from` on a vector: the buffer holds its bytes.
#[verifier::external_body]
pub(crate) fn new_bytes(data: Vec<u8>) -> (bytes: Bytes)
    ensures
        buffer(bytes) == data@,
{
    Bytes::from(data)
}

/// `Bytes::clone`: the copy holds the same bytes.
pub assume_specification[ <Bytes as Clone>::clone ](bytes: &Bytes) -> (copy: Bytes)
    ensures
        buffer(copy) == buffer(*bytes),
;

/// Calls `String::from_utf8`: a text comes out if and only if the bytes are valid
/// UTF-8, and is the one that they encode.
#[verifier::external_body]
pub(crate) fn text_from_utf8(bytes: Vec<u8>) -> (text: Option<String>)
    ensures
        text is Some <==> valid_utf8(bytes@),
        text matches Some(text) ==> text@ == decode_utf8(bytes@),
{
    String::from_utf8(bytes).ok()
}

} // verus!
