//! Finding the sources and files of a project.
use crate::operations::FileTarget;
use crate::paths::rooted_path;
use crate::project::{
    distinct, find_file, first_at, fresh_file, fresh_files, law_added_file_is_found,
    law_removed_paths_are_gone, lemma_first_is_somewhere, listed, paths_of, with_added, without_paths, FileView, Project,
    ProjectFilePathAndFd, ProjectView,
};
use crate::sources::{
    buffer, file_path, new_file_id, path_of, source_id, source_text, source_view, text_of,
    SourceView,
};
use crate::update::main_path;
use crate::world::SomeWorld;
use typst::foundations::Bytes;
use typst::syntax::{FileId, Source};
use vstd::prelude::*;

verus! {

/// What is known of a file before anything is read. `T` is what is looked for
/// and `P` a text, or what contracts take them for.
#[allow(inconsistent_fields)]
pub enum Lookup<T, P> {
    /// It is remembered.
    Found { value: T },
    /// It has to be read from this file of the project, which is at this path.
    Unread { target: FileTarget, path: P },
    /// The project has no file at this path, which is given if it is text.
    Missing { path: Option<P> },
}

pub type SourceLookup = Lookup<SourceView, Seq<char>>;

pub type BytesLookup = Lookup<Seq<u8>, Seq<char>>;

pub type TextLookup = Lookup<Seq<char>, Seq<char>>;

impl View for Lookup<Source, String> {
    type V = SourceLookup;

    open spec fn view(&self) -> SourceLookup {
        match *self {
            Lookup::Found { value } => Lookup::Found { value: source_view(value) },
            Lookup::Unread { target, path } => Lookup::Unread { target, path: path@ },
            Lookup::Missing { path: Some(path) } => Lookup::Missing { path: Some(path@) },
            Lookup::Missing { path: None } => Lookup::Missing { path: None },
        }
    }
}

impl View for Lookup<Bytes, String> {
    type V = BytesLookup;

    open spec fn view(&self) -> BytesLookup {
        match *self {
            Lookup::Found { value } => Lookup::Found { value: buffer(value) },
            Lookup::Unread { target, path } => Lookup::Unread { target, path: path@ },
            Lookup::Missing { path: Some(path) } => Lookup::Missing { path: Some(path@) },
            Lookup::Missing { path: None } => Lookup::Missing { path: None },
        }
    }
}

impl View for Lookup<String, String> {
    type V = TextLookup;

    open spec fn view(&self) -> TextLookup {
        match *self {
            Lookup::Found { value } => Lookup::Found { value: value@ },
            Lookup::Unread { target, path } => Lookup::Unread { target, path: path@ },
            Lookup::Missing { path: Some(path) } => Lookup::Missing { path: Some(path@) },
            Lookup::Missing { path: None } => Lookup::Missing { path: None },
        }
    }
}

/// What is known of the main source.
pub open spec fn look_up_main<F>(main: FileView<F>) -> SourceLookup {
    match main.source {
        Some(source) => Lookup::Found { value: source },
        None => Lookup::Unread { target: FileTarget::Main, path: main.path },
    }
}

/// What is known of the source at a path: it is that of the first file there.
pub open spec fn look_up_source<F>(files: Seq<FileView<F>>, path: Seq<char>) -> SourceLookup {
    if listed(paths_of(files), path) {
        let index = choose|i: int| first_at(files, path, i);
        match files[index].source {
            Some(source) => Lookup::Found { value: source },
            None => Lookup::Unread {
                target: FileTarget::Listed { index: index as usize },
                path,
            },
        }
    } else {
        Lookup::Missing { path: Some(path) }
    }
}

/// What is known of the bytes at a path: they are those of the first file there.
pub open spec fn look_up_bytes<F>(files: Seq<FileView<F>>, path: Seq<char>) -> BytesLookup {
    if listed(paths_of(files), path) {
        let index = choose|i: int| first_at(files, path, i);
        match files[index].bytes {
            Some(bytes) => Lookup::Found { value: bytes },
            None => Lookup::Unread {
                target: FileTarget::Listed { index: index as usize },
                path,
            },
        }
    } else {
        Lookup::Missing { path: Some(path) }
    }
}

/// The text of what is known of a source.
pub open spec fn only_text(lookup: SourceLookup) -> TextLookup {
    match lookup {
        Lookup::Found { value } => Lookup::Found { value: value.text },
        Lookup::Unread { target, path } => Lookup::Unread { target, path },
        Lookup::Missing { path } => Lookup::Missing { path },
    }
}

/// What is known of the text at a path.
pub open spec fn look_up_text<F>(project: ProjectView<F>, path: Seq<char>) -> TextLookup {
    if path == main_path() {
        only_text(look_up_main(project.main->0))
    } else {
        only_text(look_up_source(project.files, rooted_path(path)))
    }
}

impl SomeWorld {
    /// Access the main source file.
    pub fn main<F>(&self, project: &Project<F>) -> (lookup: Lookup<Source, String>)
        requires
            project@.main is Some,
        ensures
            lookup@ == look_up_main(project@.main->0),
            project.main_project_file matches Some(main) && match main.source {
                Some(source) => lookup matches (Lookup::Found { value }) && source_id(value)
                    == source_id(source) && source_text(value) == source_text(source),
                None => lookup matches (Lookup::Unread { target, path }) && target is Main && path@
                    == main.path@,
            },
    {
        let main_project_file = project.main_project_file.as_ref().unwrap();
        match &main_project_file.source {
            Some(source) => Lookup::Found { value: source.clone() },
            None => Lookup::Unread {
                target: FileTarget::Main,
                path: main_project_file.path.clone(),
            },
        }
    }

    /// Try to access the specified source file.
    pub fn source<F>(&self, project: &Project<F>, id: FileId) -> (lookup: Lookup<Source, String>)
        requires
            file_path(id) is Some || project@.files.len() == 0,
        ensures
            match file_path(id) {
                Some(path) => lookup@ == look_up_source(project@.files, path),
                None => lookup@ == (Lookup::<SourceView, Seq<char>>::Missing { path: None }),
            },
            forall|i: int|
                0 <= i < project.project_files.len() && file_path(id) == Some(
                    (#[trigger] project.project_files[i]).path@,
                ) && (forall|k: int|
                    0 <= k < i ==> (#[trigger] project.project_files[k]).path@
                        != project.project_files[i].path@)
                    ==> match project.project_files[i].source {
                    Some(source) => lookup matches (Lookup::Found { value }) && source_id(value)
                        == source_id(source) && source_text(value) == source_text(source),
                    None => lookup matches (Lookup::Unread { target, path }) && target == (
                    FileTarget::Listed { index: i as usize }) && path@
                        == project.project_files[i].path@,
                },
            (forall|i: int|
                0 <= i < project.project_files.len() ==> file_path(id) != Some(
                    (#[trigger] project.project_files[i]).path@,
                )) ==> (lookup matches Lookup::Missing { path } && match file_path(id) {
                Some(at) => path matches Some(path) && path@ == at,
                None => path is None,
            }),
    {
        let path: String = match path_of(id) {
            Some(path) => path,
            None => return Lookup::Missing { path: None },
        };
        match find_file(&project.project_files, &path) {
            Some(index) => {
                proof {
                    assert(first_at(project@.files, path@, index as int));
                    assert(paths_of(project@.files)[index as int] == path@);
                }
                match &project.project_files[index].source {
                    Some(source) => Lookup::Found { value: source.clone() },
                    None => Lookup::Unread { target: FileTarget::Listed { index }, path },
                }
            },
            None => Lookup::Missing { path: Some(path) },
        }
    }

    /// Try to access the specified file.
    pub fn file<F>(&self, project: &Project<F>, id: FileId) -> (lookup: Lookup<Bytes, String>)
        requires
            file_path(id) is Some || project@.files.len() == 0,
        ensures
            match file_path(id) {
                Some(path) => lookup@ == look_up_bytes(project@.files, path),
                None => lookup@ == (Lookup::<Seq<u8>, Seq<char>>::Missing { path: None }),
            },
            forall|i: int|
                0 <= i < project.project_files.len() && file_path(id) == Some(
                    (#[trigger] project.project_files[i]).path@,
                ) && (forall|k: int|
                    0 <= k < i ==> (#[trigger] project.project_files[k]).path@
                        != project.project_files[i].path@)
                    ==> match project.project_files[i].bytes {
                    Some(bytes) => lookup matches (Lookup::Found { value }) && buffer(value) == buffer(
                        bytes,
                    ),
                    None => lookup matches (Lookup::Unread { target, path }) && target == (
                    FileTarget::Listed { index: i as usize }) && path@
                        == project.project_files[i].path@,
                },
            (forall|i: int|
                0 <= i < project.project_files.len() ==> file_path(id) != Some(
                    (#[trigger] project.project_files[i]).path@,
                )) ==> (lookup matches Lookup::Missing { path } && match file_path(id) {
                Some(at) => path matches Some(path) && path@ == at,
                None => path is None,
            }),
    {
        let path: String = match path_of(id) {
            Some(path) => path,
            None => return Lookup::Missing { path: None },
        };
        match find_file(&project.project_files, &path) {
            Some(index) => {
                proof {
                    assert(first_at(project@.files, path@, index as int));
                    assert(paths_of(project@.files)[index as int] == path@);
                }
                match &project.project_files[index].bytes {
                    Some(bytes) => Lookup::Found { value: bytes.clone() },
                    None => Lookup::Unread { target: FileTarget::Listed { index }, path },
                }
            },
            None => Lookup::Missing { path: Some(path) },
        }
    }
}

/// The text of the file at `path`, as far as it is known before reading.
pub fn get_project_file_text<F>(world: &SomeWorld, project: &Project<F>, path: String) -> (lookup:
    Lookup<String, String>)
    requires
        path@ == main_path() ==> project@.main is Some,
    ensures
        lookup@ == look_up_text(project@, path@),
        path@ == "/main.typ"@ ==> (project.main_project_file matches Some(main)
            && match main.source {
            Some(source) => lookup matches (Lookup::Found { value }) && value@ == source_text(
                source,
            ),
            None => lookup matches (Lookup::Unread { target, path: at }) && target is Main && at@
                == main.path@,
        }),
        path@ != "/main.typ"@ ==> forall|i: int|
            0 <= i < project.project_files.len() && (#[trigger] project.project_files[i]).path@
                == rooted_path(path@) && (forall|k: int|
                0 <= k < i ==> (#[trigger] project.project_files[k]).path@ != rooted_path(path@))
                ==> match project.project_files[i].source {
                Some(source) => lookup matches (Lookup::Found { value }) && value@ == source_text(
                    source,
                ),
                None => lookup matches (Lookup::Unread { target, path: at }) && target == (
                FileTarget::Listed { index: i as usize }) && at@ == rooted_path(path@),
            },
        path@ != "/main.typ"@ && (forall|i: int|
            0 <= i < project.project_files.len() ==> (#[trigger] project.project_files[i]).path@
                != rooted_path(path@)) ==> (lookup matches Lookup::Missing { path: Some(at) } && at@
            == rooted_path(path@)),
{
    let lookup = if path == "/main.typ".to_owned() {
        world.main(project)
    } else {
        world.source(project, new_file_id(path.as_str()))
    };
    match lookup {
        Lookup::Found { value } => Lookup::Found { value: text_of(&value) },
        Lookup::Unread { target, path } => Lookup::Unread { target, path },
        Lookup::Missing { path } => Lookup::Missing { path },
    }
}

/// What is looked up at a path is what is remembered of the first file there, source
/// and bytes each for itself; where nothing is remembered of that file, it has to be
/// read from that very file. What is remembered of any other file, or of the other
/// kind, plays no part.
pub proof fn law_first_file_is_looked_up<F>(
    files: Seq<FileView<F>>,
    path: Seq<char>,
    index: usize,
)
    requires
        index < files.len(),
        files[index as int].path == path,
        forall|k: int| 0 <= k < index ==> (#[trigger] files[k]).path != path,
    ensures
        files[index as int].source matches Some(source) ==> look_up_source(files, path) == (
        Lookup::<SourceView, Seq<char>>::Found { value: source }),
        files[index as int].source is None ==> look_up_source(files, path) == (Lookup::<
            SourceView,
            Seq<char>,
        >::Unread { target: FileTarget::Listed { index }, path }),
        files[index as int].bytes matches Some(bytes) ==> look_up_bytes(files, path) == (Lookup::<
            Seq<u8>,
            Seq<char>,
        >::Found { value: bytes }),
        files[index as int].bytes is None ==> look_up_bytes(files, path) == (Lookup::<
            Seq<u8>,
            Seq<char>,
        >::Unread { target: FileTarget::Listed { index }, path }),
{
    assert(paths_of(files)[index as int] == path);
    assert(first_at(files, path, index as int));
    lemma_first_is_somewhere(files, path);
}

/// Nothing is missing at a path but where no file has it, for sources as for bytes.
pub proof fn law_missing_is_nowhere<F>(files: Seq<FileView<F>>, path: Seq<char>)
    ensures
        look_up_source(files, path) is Missing <==> forall|k: int|
            0 <= k < files.len() ==> (#[trigger] files[k]).path != path,
        look_up_bytes(files, path) is Missing <==> forall|k: int|
            0 <= k < files.len() ==> (#[trigger] files[k]).path != path,
        look_up_source(files, path) matches Lookup::Missing { path: at } ==> at == Some(path),
        look_up_bytes(files, path) matches Lookup::Missing { path: at } ==> at == Some(path),
{
    if listed(paths_of(files), path) {
        let k = choose|k: int| 0 <= k < paths_of(files).len() && #[trigger] paths_of(files)[k] == path;
        assert(files[k].path == path);
    }
    if exists|k: int| 0 <= k < files.len() && (#[trigger] files[k]).path == path {
        let k = choose|k: int| 0 <= k < files.len() && (#[trigger] files[k]).path == path;
        assert(paths_of(files)[k] == path);
    }
}

/// The text that is got at a path is the whole text that is remembered of the file
/// there: of the main file at its own path, and elsewhere of the first file at the
/// rooted path. Where none is remembered, that very file has to be read.
pub proof fn law_remembered_text_is_got<F>(
    project: ProjectView<F>,
    path: Seq<char>,
    index: usize,
)
    ensures
        path == "/main.typ"@ && project.main is Some ==> match project.main->0.source {
            Some(source) => look_up_text(project, path) == (Lookup::<Seq<char>, Seq<char>>::Found {
                value: source.text,
            }),
            None => look_up_text(project, path) == (Lookup::<Seq<char>, Seq<char>>::Unread {
                target: FileTarget::Main,
                path: project.main->0.path,
            }),
        },
        path != "/main.typ"@ && index < project.files.len() && project.files[index as int].path
            == rooted_path(path) && (forall|k: int|
            0 <= k < index ==> (#[trigger] project.files[k]).path != rooted_path(path))
            ==> match project.files[index as int].source {
            Some(source) => look_up_text(project, path) == (Lookup::<Seq<char>, Seq<char>>::Found {
                value: source.text,
            }),
            None => look_up_text(project, path) == (Lookup::<Seq<char>, Seq<char>>::Unread {
                target: FileTarget::Listed { index },
                path: rooted_path(path),
            }),
        },
        path != "/main.typ"@ && (forall|k: int|
            0 <= k < project.files.len() ==> (#[trigger] project.files[k]).path != rooted_path(path))
            ==> look_up_text(project, path) == (Lookup::<Seq<char>, Seq<char>>::Missing {
            path: Some(rooted_path(path)),
        }),
{
    let rooted = rooted_path(path);
    law_missing_is_nowhere(project.files, rooted);
    if index < project.files.len() && project.files[index as int].path == rooted && (forall|k: int|
        0 <= k < index ==> (#[trigger] project.files[k]).path != rooted) {
        law_first_file_is_looked_up(project.files, rooted, index);
    }
}

/// After files are removed, none of them is found.
pub proof fn law_removed_file_is_missing<F>(
    files: Seq<FileView<F>>,
    paths: Seq<Seq<char>>,
    path: Seq<char>,
)
    requires
        listed(paths, path),
    ensures
        look_up_source(without_paths(files, paths), path) == (Lookup::<
            SourceView,
            Seq<char>,
        >::Missing { path: Some(path) }),
        look_up_bytes(without_paths(files, paths), path) == (Lookup::<
            Seq<u8>,
            Seq<char>,
        >::Missing { path: Some(path) }),
{
    law_removed_paths_are_gone(files, paths);
}

/// A file that was added is found and has to be read, whatever was remembered of a
/// file at its path before, where no two of the new files share a path.
pub proof fn law_added_file_is_unread<F>(
    files: Seq<FileView<F>>,
    new_files: Seq<(ProjectFilePathAndFd, F)>,
    i: int,
)
    requires
        distinct(fresh_files(new_files)),
        0 <= i < new_files.len(),
    ensures
        ({
            let path = new_files[i].0.path@;
            let index = without_paths(files, paths_of(fresh_files(new_files))).len() + i;
            let target = FileTarget::Listed { index: index as usize };
            let added = with_added(files, fresh_files(new_files));
            &&& added[index] == fresh_file(path, new_files[i].1)
            &&& look_up_source(added, path) == (Lookup::<SourceView, Seq<char>>::Unread {
                target,
                path,
            })
            &&& look_up_bytes(added, path) == (Lookup::<Seq<u8>, Seq<char>>::Unread {
                target,
                path,
            })
        }),
{
    let fresh = fresh_files(new_files);
    let path = new_files[i].0.path@;
    let index = without_paths(files, paths_of(fresh)).len() + i;
    law_added_file_is_found(files, fresh, i);
    assert(paths_of(with_added(files, fresh))[index] == path);
}

} // verus!
