//! The files of a project: the main file and the others, each with the handle
//! through which it is read and written.
use crate::sources::{buffer, source_view, SourceView};
use typst::foundations::Bytes;
use typst::syntax::Source;
use vstd::prelude::*;

verus! {

/// A path in the project, and the descriptor of the file that is open for it.
#[derive(PartialEq)]
pub struct ProjectFilePathAndFd {
    /// The path in the project.
    pub path: String,
    /// The open file's descriptor.
    pub fd: libc::c_int,
}

/// A project file: its path, the handle `F` of the open file, and what is
/// remembered of its contents.
pub struct ProjectFilePathAndFile<F> {
    /// The path in the project.
    pub path: String,
    /// The handle of the open file.
    pub file: F,
    /// The parsed text, once the file was edited.
    pub source: Option<Source>,
    /// The contents, where they are remembered.
    pub bytes: Option<Bytes>,
}

/// A project file as contracts speak of it.
#[verifier::ext_equal]
pub struct FileView<F> {
    pub path: Seq<char>,
    pub file: F,
    pub source: Option<SourceView>,
    pub bytes: Option<Seq<u8>>,
}

impl<F> View for ProjectFilePathAndFile<F> {
    type V = FileView<F>;

    open spec fn view(&self) -> FileView<F> {
        FileView {
            path: self.path@,
            file: self.file,
            source: match self.source {
                Some(source) => Some(source_view(source)),
                None => None,
            },
            bytes: match self.bytes {
                Some(bytes) => Some(buffer(bytes)),
                None => None,
            },
        }
    }
}

/// A file of which nothing is remembered yet.
pub open spec fn fresh_file<F>(path: Seq<char>, file: F) -> FileView<F> {
    FileView { path, file, source: None, bytes: None }
}

impl<F> ProjectFilePathAndFile<F> {
    /// A project file of which nothing is remembered yet.
    pub fn new(path: String, file: F) -> (project_file: Self)
        ensures
            project_file@ == fresh_file(path@, file),
            project_file.path == path,
            project_file.file == file,
            project_file.source is None,
            project_file.bytes is None,
    {
        ProjectFilePathAndFile { path, file, source: None, bytes: None }
    }

    /// A project file at the path of `project_file_path_and_fd`, read and written
    /// through `file`, the handle of its descriptor.
    pub fn from_project_file_path_and_fd(
        project_file_path_and_fd: &ProjectFilePathAndFd,
        file: F,
    ) -> (project_file: Self)
        ensures
            project_file@ == fresh_file(project_file_path_and_fd.path@, file),
            project_file.path@ == project_file_path_and_fd.path@,
            project_file.file == file,
            project_file.source is None,
            project_file.bytes is None,
    {
        ProjectFilePathAndFile {
            path: project_file_path_and_fd.path.clone(),
            file,
            source: None,
            bytes: None,
        }
    }
}

/// The files of a project.
pub struct Project<F> {
    /// The file that the document starts from.
    pub main_project_file: Option<ProjectFilePathAndFile<F>>,
    /// The other files, in the order in which they came.
    pub project_files: Vec<ProjectFilePathAndFile<F>>,
}

/// The files of a project as contracts speak of them.
#[verifier::ext_equal]
pub struct ProjectView<F> {
    pub main: Option<FileView<F>>,
    pub files: Seq<FileView<F>>,
}

impl<F> View for Project<F> {
    type V = ProjectView<F>;

    open spec fn view(&self) -> ProjectView<F> {
        ProjectView {
            main: match self.main_project_file {
                Some(file) => Some(file@),
                None => None,
            },
            files: self.project_files@.map_values(|file: ProjectFilePathAndFile<F>| file@),
        }
    }
}

/// Whether `path` is one of `paths`.
pub open spec fn listed(paths: Seq<Seq<char>>, path: Seq<char>) -> bool {
    exists|i: int| 0 <= i < paths.len() && #[trigger] paths[i] == path
}

/// The files whose path is not one of `paths`, in their order.
pub open spec fn without_paths<F>(files: Seq<FileView<F>>, paths: Seq<Seq<char>>) -> Seq<
    FileView<F>,
> {
    files.filter(|file: FileView<F>| !listed(paths, file.path))
}

/// Whether a file's path is not one of `paths`.
pub open spec fn stays<F>(paths: Seq<Seq<char>>) -> spec_fn(ProjectFilePathAndFile<F>) -> bool {
    |file: ProjectFilePathAndFile<F>| !listed(paths, file.path@)
}

/// The texts of a vector of strings.
pub open spec fn texts(strings: Seq<String>) -> Seq<Seq<char>> {
    strings.map_values(|string: String| string@)
}

/// The files that a list of paths, descriptors and handles stands for.
pub open spec fn fresh_files<F>(new_files: Seq<(ProjectFilePathAndFd, F)>) -> Seq<FileView<F>> {
    new_files.map_values(|new_file: (ProjectFilePathAndFd, F)| fresh_file(new_file.0.path@, new_file.1))
}

/// The paths of some files.
pub open spec fn paths_of<F>(files: Seq<FileView<F>>) -> Seq<Seq<char>> {
    files.map_values(|file: FileView<F>| file.path)
}

impl<F> Project<F> {
    /// A project without files.
    pub fn new() -> (project: Self)
        ensures
            project@ == (ProjectView::<F> { main: None, files: Seq::empty() }),
            project.main_project_file is None,
            project.project_files@.len() == 0,
    {
        let project = Project { main_project_file: None, project_files: Vec::new() };
        assert(project@.files =~= Seq::empty());
        project
    }
}

/// Makes a file the main one, in the place of any that was.
pub fn set_main_project_file<F>(
    project: &mut Project<F>,
    main_project_file_path_and_fd: ProjectFilePathAndFd,
    file: F,
)
    ensures
        final(project)@ == (ProjectView {
            main: Some(fresh_file(main_project_file_path_and_fd.path@, file)),
            files: old(project)@.files,
        }),
        final(project).project_files == old(project).project_files,
        final(project).main_project_file matches Some(main) && main.path@
            == main_project_file_path_and_fd.path@ && main.file == file && main.source is None
            && main.bytes is None,
{
    project.main_project_file = Some(
        ProjectFilePathAndFile::from_project_file_path_and_fd(
            &main_project_file_path_and_fd,
            file,
        ),
    );
}

/// Whether `path` is one of `paths`.
fn is_listed(paths: &Vec<String>, path: &String) -> (found: bool)
    ensures
        found == listed(texts(paths@), path@),
{
    let mut i: usize = 0;
    while i < paths.len()
        invariant
            i <= paths.len(),
            forall|k: int| 0 <= k < i ==> #[trigger] texts(paths@)[k] != path@,
        decreases paths.len() - i,
    {
        if paths[i] == *path {
            assert(texts(paths@)[i as int] == path@);
            return true;
        }
        i += 1;
    }
    false
}

/// Forgets the files with the given paths. The others stay as they are, in their
/// order.
pub fn remove_project_files<F>(
    project: &mut Project<F>,
    project_files_paths_to_remove: Vec<String>,
)
    ensures
        final(project)@ == (ProjectView {
            main: old(project)@.main,
            files: without_paths(old(project)@.files, texts(project_files_paths_to_remove@)),
        }),
        final(project).main_project_file == old(project).main_project_file,
        final(project).project_files@ == old(project).project_files@.filter(
            stays(texts(project_files_paths_to_remove@)),
        ),
        final(project).project_files@ == old(project).project_files@.filter(
            |file: ProjectFilePathAndFile<F>|
                forall|i: int|
                    0 <= i < project_files_paths_to_remove.len()
                        ==> (#[trigger] project_files_paths_to_remove[i])@ != file.path@,
        ),
{
    let ghost files = project.project_files@;
    let ghost views = project@.files;
    let ghost paths = texts(project_files_paths_to_remove@);
    let mut project_files: Vec<ProjectFilePathAndFile<F>> = Vec::new();
    std::mem::swap(&mut project_files, &mut project.project_files);
    for project_file in it: project_files.into_iter()
        invariant
            paths == texts(project_files_paths_to_remove@),
            it.seq() == files,
            views == files.map_values(|file: ProjectFilePathAndFile<F>| file@),
            project.main_project_file == old(project).main_project_file,
            project.project_files@ == files.take(it.index() as int).filter(stays(paths)),
            project@.files == without_paths(views.take(it.index() as int), paths),
    {
        let ghost before = project@.files;
        let ghost n = it.index() as int;
        proof {
            reveal(Seq::filter);
            assert(files.take(n + 1).drop_last() =~= files.take(n));
            assert(views.take(n + 1).drop_last() =~= views.take(n));
            assert(views.take(n + 1).last() == project_file@);
        }
        if !is_listed(&project_files_paths_to_remove, &project_file.path) {
            project.project_files.push(project_file);
            assert(project@.files =~= before.push(project_file@));
        }
    }
    assert(files.take(files.len() as int) =~= files);
    assert(views.take(views.len() as int) =~= views);
    proof {
        lemma_stays::<F>(project_files_paths_to_remove@);
    }
}

/// A file stays where its path is none of some strings.
proof fn lemma_stays<F>(strings: Seq<String>)
    ensures
        stays::<F>(texts(strings)) == (|file: ProjectFilePathAndFile<F>|
            forall|i: int| 0 <= i < strings.len() ==> (#[trigger] strings[i])@ != file.path@),
{
    let plain = |file: ProjectFilePathAndFile<F>|
        forall|i: int| 0 <= i < strings.len() ==> (#[trigger] strings[i])@ != file.path@;
    assert forall|file: ProjectFilePathAndFile<F>|
        stays::<F>(texts(strings))(file) == #[trigger] plain(file) by {
        if !plain(file) {
            let i = choose|i: int| 0 <= i < strings.len() && (#[trigger] strings[i])@ == file.path@;
            assert(texts(strings)[i] == file.path@);
        }
        if listed(texts(strings), file.path@) {
            let i = choose|i: int|
                0 <= i < texts(strings).len() && #[trigger] texts(strings)[i] == file.path@;
            assert(strings[i]@ == file.path@);
        }
    }
    assert(stays::<F>(texts(strings)) =~= plain);
}

/// Adds files to the project, behind those that it has. A file that was there
/// under one of the new paths makes way, so that no path gets a second file.
pub fn add_project_files<F>(
    project: &mut Project<F>,
    new_project_files: Vec<(ProjectFilePathAndFd, F)>,
)
    ensures
        final(project)@ == (ProjectView {
            main: old(project)@.main,
            files: with_added(old(project)@.files, fresh_files(new_project_files@)),
        }),
        final(project).main_project_file == old(project).main_project_file,
        final(project).project_files@.take(
            final(project).project_files@.len() - new_project_files@.len(),
        ) == old(project).project_files@.filter(stays(paths_of(fresh_files(new_project_files@)))),
        final(project).project_files@.take(
            final(project).project_files@.len() - new_project_files@.len(),
        ) == old(project).project_files@.filter(
            |file: ProjectFilePathAndFile<F>|
                forall|i: int|
                    0 <= i < new_project_files.len() ==> (#[trigger] new_project_files[i]).0.path@
                        != file.path@,
        ),
        final(project).project_files@.len() >= new_project_files@.len(),
        forall|i: int|
            0 <= i < new_project_files.len() ==> {
                let added = final(project).project_files@[final(project).project_files@.len()
                    - new_project_files@.len() + i];
                &&& added.path@ == (#[trigger] new_project_files[i]).0.path@
                &&& added.file == new_project_files[i].1
                &&& added.source is None
                &&& added.bytes is None
            },
{
    let ghost new_files = new_project_files@;
    let mut new_project_files_paths: Vec<String> = Vec::new();
    let mut i: usize = 0;
    while i < new_project_files.len()
        invariant
            i <= new_project_files.len(),
            new_project_files@ == new_files,
            texts(new_project_files_paths@) == paths_of(fresh_files(new_files)).take(i as int),
        decreases new_project_files.len() - i,
    {
        let ghost before = new_project_files_paths@;
        new_project_files_paths.push(new_project_files[i].0.path.clone());
        i += 1;
        assert(texts(new_project_files_paths@) =~= texts(before).push(
            new_files[i - 1].0.path@,
        ));
    }
    assert(texts(new_project_files_paths@) =~= paths_of(fresh_files(new_files)));
    remove_project_files(project, new_project_files_paths);
    let ghost kept_files = project.project_files@;
    let ghost kept = project@.files;
    for new_project_file in it: new_project_files.into_iter()
        invariant
            it.seq() == new_files,
            project.main_project_file == old(project).main_project_file,
            kept_files.len() == kept.len(),
            project.project_files@.len() == kept.len() + it.index(),
            project.project_files@.take(kept_files.len() as int) == kept_files,
            project@.files == kept + fresh_files(new_files).take(it.index() as int),
            forall|i: int|
                0 <= i < it.index() ==> {
                    let added = project.project_files@[kept_files.len() + i];
                    &&& added.path@ == (#[trigger] new_files[i]).0.path@
                    &&& added.file == new_files[i].1
                    &&& added.source is None
                    &&& added.bytes is None
                },
    {
        let ghost before = project@.files;
        let ghost before_files = project.project_files@;
        let ghost n = it.index() as int;
        let (project_file_path_and_fd, file) = new_project_file;
        let project_file = ProjectFilePathAndFile::from_project_file_path_and_fd(
            &project_file_path_and_fd,
            file,
        );
        project.project_files.push(project_file);
        assert(project@.files =~= before.push(project_file@));
        assert forall|i: int| 0 <= i < n + 1 implies {
            let added = project.project_files@[kept_files.len() + i];
            &&& added.path@ == (#[trigger] new_files[i]).0.path@
            &&& added.file == new_files[i].1
            &&& added.source is None
            &&& added.bytes is None
        } by {
            if i < n {
                assert(project.project_files@[kept_files.len() + i] == before_files[kept_files.len()
                    + i]);
            } else {
                assert(project.project_files@[kept_files.len() + n] == project_file);
            }
        }
    }
    assert(fresh_files(new_files).take(new_files.len() as int) =~= fresh_files(new_files));
    proof {
        lemma_makes_way(new_files);
    }
}

/// A file does not make way for new ones where its path is none of theirs.
proof fn lemma_makes_way<F>(new_files: Seq<(ProjectFilePathAndFd, F)>)
    ensures
        stays::<F>(paths_of(fresh_files(new_files))) == (|file: ProjectFilePathAndFile<F>|
            forall|i: int|
                0 <= i < new_files.len() ==> (#[trigger] new_files[i]).0.path@ != file.path@),
{
    let paths = paths_of(fresh_files(new_files));
    let plain = |file: ProjectFilePathAndFile<F>|
        forall|i: int| 0 <= i < new_files.len() ==> (#[trigger] new_files[i]).0.path@ != file.path@;
    assert forall|file: ProjectFilePathAndFile<F>|
        stays::<F>(paths)(file) == #[trigger] plain(file) by {
        if !plain(file) {
            let i = choose|i: int|
                0 <= i < new_files.len() && (#[trigger] new_files[i]).0.path@ == file.path@;
            assert(paths[i] == file.path@);
        }
        if listed(paths, file.path@) {
            let i = choose|i: int| 0 <= i < paths.len() && #[trigger] paths[i] == file.path@;
            assert(new_files[i].0.path@ == file.path@);
        }
    }
    assert(stays::<F>(paths) =~= plain);
}

/// Forgets all files, the main one too.
pub fn clear_project_files<F>(project: &mut Project<F>)
    ensures
        final(project)@ == (ProjectView::<F> { main: None, files: Seq::empty() }),
        final(project).main_project_file is None,
        final(project).project_files@.len() == 0,
{
    project.project_files = Vec::new();
    project.main_project_file = None;
    assert(project@.files =~= Seq::empty());
}

/// Whether the `i`-th of `files` is the first with the given path.
pub open spec fn first_at<F>(files: Seq<FileView<F>>, path: Seq<char>, i: int) -> bool {
    &&& 0 <= i < files.len()
    &&& files[i].path == path
    &&& forall|k: int| 0 <= k < i ==> #[trigger] files[k].path != path
}

/// Where a path is listed, there is a first file with it, and no other first one.
pub proof fn lemma_first_is_somewhere<F>(files: Seq<FileView<F>>, path: Seq<char>)
    requires
        listed(paths_of(files), path),
    ensures
        exists|i: int| first_at(files, path, i),
        forall|i: int, j: int| first_at(files, path, i) && first_at(files, path, j) ==> i == j,
    decreases files.len(),
{
    let n = choose|n: int| 0 <= n < paths_of(files).len() && #[trigger] paths_of(files)[n] == path;
    let head = files.take(n);
    if listed(paths_of(head), path) {
        lemma_first_is_somewhere(head, path);
        let i = choose|i: int| first_at(head, path, i);
        assert forall|k: int| 0 <= k < i implies #[trigger] files[k].path != path by {
            assert(head[k].path != path);
        }
        assert(first_at(files, path, i));
    } else {
        assert forall|k: int| 0 <= k < n implies #[trigger] files[k].path != path by {
            assert(paths_of(head)[k] == files[k].path);
        }
        assert(first_at(files, path, n));
    }
}

/// Finds the first file with the given path.
pub(crate) fn find_file<F>(project_files: &Vec<ProjectFilePathAndFile<F>>, path: &String) -> (found:
    Option<usize>)
    ensures
        ({
            let files = project_files@.map_values(|file: ProjectFilePathAndFile<F>| file@);
            match found {
                Some(i) => first_at(files, path@, i as int),
                None => !listed(paths_of(files), path@),
            }
        }),
        match found {
            Some(i) => i < project_files.len() && project_files[i as int].path@ == path@
                && forall|k: int| 0 <= k < i ==> (#[trigger] project_files[k]).path@ != path@,
            None => forall|k: int|
                0 <= k < project_files.len() ==> (#[trigger] project_files[k]).path@ != path@,
        },
{
    let ghost files = project_files@.map_values(|file: ProjectFilePathAndFile<F>| file@);
    let mut i: usize = 0;
    while i < project_files.len()
        invariant
            i <= project_files.len(),
            files == project_files@.map_values(|file: ProjectFilePathAndFile<F>| file@),
            forall|k: int| 0 <= k < i ==> #[trigger] files[k].path != path@,
            forall|k: int| 0 <= k < i ==> (#[trigger] project_files[k]).path@ != path@,
        decreases project_files.len() - i,
    {
        assert(files[i as int].path == project_files[i as int].path@);
        if project_files[i].path == *path {
            return Some(i);
        }
        i += 1;
    }
    assert forall|k: int| 0 <= k < files.len() implies #[trigger] paths_of(files)[k] != path@ by {
        assert(files[k].path != path@);
    }
    None
}

/// Whether no two files have the same path.
pub open spec fn distinct<F>(files: Seq<FileView<F>>) -> bool {
    forall|i: int, j: int|
        0 <= i < j < files.len() ==> #[trigger] files[i].path != #[trigger] files[j].path
}

/// The files with one given path, in their order.
pub open spec fn at_path<F>(files: Seq<FileView<F>>, path: Seq<char>) -> Seq<FileView<F>> {
    files.filter(|file: FileView<F>| file.path == path)
}

/// The files after a list of new ones was added.
pub open spec fn with_added<F>(files: Seq<FileView<F>>, new_files: Seq<FileView<F>>) -> Seq<
    FileView<F>,
> {
    without_paths(files, paths_of(new_files)) + new_files
}

/// Removing files keeps those whose path is none of the named ones, all of them, as
/// they are and in their order. Adding files does so with the paths of the new ones,
/// and puts the new ones behind.
pub proof fn law_files_are_kept_by_path<F>(
    files: Seq<FileView<F>>,
    paths: Seq<Seq<char>>,
    new_files: Seq<FileView<F>>,
)
    ensures
        without_paths(files, paths) == files.filter(
            |file: FileView<F>|
                forall|i: int| 0 <= i < paths.len() ==> #[trigger] paths[i] != file.path,
        ),
        with_added(files, new_files) == files.filter(
            |file: FileView<F>|
                forall|i: int|
                    0 <= i < new_files.len() ==> (#[trigger] new_files[i]).path != file.path,
        ) + new_files,
{
    let unnamed = |file: FileView<F>|
        forall|i: int| 0 <= i < paths.len() ==> #[trigger] paths[i] != file.path;
    assert((|file: FileView<F>| !listed(paths, file.path)) =~= unnamed);
    let others = |file: FileView<F>|
        forall|i: int| 0 <= i < new_files.len() ==> (#[trigger] new_files[i]).path != file.path;
    let stay = |file: FileView<F>| !listed(paths_of(new_files), file.path);
    assert forall|file: FileView<F>| stay(file) == #[trigger] others(file) by {
        if !others(file) {
            let i = choose|i: int|
                0 <= i < new_files.len() && (#[trigger] new_files[i]).path == file.path;
            assert(paths_of(new_files)[i] == file.path);
        }
        if !stay(file) {
            let i = choose|i: int|
                0 <= i < paths_of(new_files).len() && #[trigger] paths_of(new_files)[i]
                    == file.path;
            assert(new_files[i].path == file.path);
        }
    }
    assert(stay =~= others);
}

/// After files are removed, none is left at any of the paths that were named.
pub proof fn law_removed_paths_are_gone<F>(files: Seq<FileView<F>>, paths: Seq<Seq<char>>)
    ensures
        forall|path: Seq<char>|
            listed(paths, path) ==> !#[trigger] listed(
                paths_of(without_paths(files, paths)),
                path,
            ),
{
    let left = without_paths(files, paths);
    assert forall|path: Seq<char>| listed(paths, path) implies !#[trigger] listed(
        paths_of(left),
        path,
    ) by {
        if listed(paths_of(left), path) {
            let i = choose|i: int| 0 <= i < paths_of(left).len() && #[trigger] paths_of(left)[i] == path;
            files.lemma_filter_pred(|file: FileView<F>| !listed(paths, file.path), i);
        }
    }
}

/// Removing files changes nothing at any other path.
pub proof fn law_removal_spares_other_paths<F>(
    files: Seq<FileView<F>>,
    paths: Seq<Seq<char>>,
    path: Seq<char>,
)
    requires
        !listed(paths, path),
    ensures
        at_path(without_paths(files, paths), path) == at_path(files, path),
    decreases files.len(),
{
    reveal(Seq::filter);
    if files.len() > 0 {
        law_removal_spares_other_paths(files.drop_last(), paths, path);
        let kept = without_paths(files.drop_last(), paths);
        if !listed(paths, files.last().path) {
            assert(kept.push(files.last()).drop_last() =~= kept);
        }
    }
}

/// Removing the same paths again changes nothing.
pub proof fn law_removal_is_idempotent<F>(files: Seq<FileView<F>>, paths: Seq<Seq<char>>)
    ensures
        without_paths(without_paths(files, paths), paths) == without_paths(files, paths),
    decreases files.len(),
{
    reveal(Seq::filter);
    if files.len() > 0 {
        law_removal_is_idempotent(files.drop_last(), paths);
        let kept = without_paths(files.drop_last(), paths);
        if !listed(paths, files.last().path) {
            assert(kept.push(files.last()).drop_last() =~= kept);
        }
    }
}

/// Removing some paths and then others is removing them all at once.
pub proof fn law_removals_add_up<F>(
    files: Seq<FileView<F>>,
    first: Seq<Seq<char>>,
    second: Seq<Seq<char>>,
)
    ensures
        without_paths(without_paths(files, first), second) == without_paths(files, first + second),
    decreases files.len(),
{
    reveal(Seq::filter);
    if files.len() > 0 {
        law_removals_add_up(files.drop_last(), first, second);
        let path = files.last().path;
        lemma_listed_in_both(first, second, path);
        let kept = without_paths(files.drop_last(), first);
        if !listed(first, path) {
            assert(kept.push(files.last()).drop_last() =~= kept);
        }
    }
}

/// What one of two lists holds is what the two together hold.
proof fn lemma_listed_in_both(first: Seq<Seq<char>>, second: Seq<Seq<char>>, path: Seq<char>)
    ensures
        listed(first + second, path) <==> listed(first, path) || listed(second, path),
{
    let both = first + second;
    if listed(first, path) {
        let i = choose|i: int| 0 <= i < first.len() && #[trigger] first[i] == path;
        assert(both[i] == path);
    }
    if listed(second, path) {
        let i = choose|i: int| 0 <= i < second.len() && #[trigger] second[i] == path;
        assert(both[first.len() + i] == path);
    }
    if listed(both, path) {
        let i = choose|i: int| 0 <= i < both.len() && #[trigger] both[i] == path;
        if i < first.len() {
            assert(first[i] == path);
        } else {
            assert(second[i - first.len()] == path);
        }
    }
}

/// Removing files leaves the paths that were not named.
pub proof fn law_removal_leaves_other_paths<F>(
    files: Seq<FileView<F>>,
    paths: Seq<Seq<char>>,
    path: Seq<char>,
)
    ensures
        listed(paths_of(without_paths(files, paths)), path) <==> listed(paths_of(files), path)
            && !listed(paths, path),
    decreases files.len(),
{
    reveal(Seq::filter);
    if files.len() > 0 {
        let before = files.drop_last();
        let last = files.last();
        law_removal_leaves_other_paths(before, paths, path);
        assert(paths_of(files) =~= paths_of(before) + seq![last.path]);
        lemma_listed_in_both(paths_of(before), seq![last.path], path);
        assert(seq![last.path][0] == last.path);
        if !listed(paths, last.path) {
            let kept = without_paths(before, paths);
            assert(paths_of(kept.push(last)) =~= paths_of(kept) + seq![last.path]);
            lemma_listed_in_both(paths_of(kept), seq![last.path], path);
        }
    }
}

/// After files are added, the paths are those that there were and the new ones.
pub proof fn law_addition_unites_paths<F>(
    files: Seq<FileView<F>>,
    new_files: Seq<FileView<F>>,
    path: Seq<char>,
)
    ensures
        listed(paths_of(with_added(files, new_files)), path) <==> listed(paths_of(files), path)
            || listed(paths_of(new_files), path),
{
    let kept = without_paths(files, paths_of(new_files));
    law_removal_leaves_other_paths(files, paths_of(new_files), path);
    assert(paths_of(with_added(files, new_files)) =~= paths_of(kept) + paths_of(new_files));
    lemma_listed_in_both(paths_of(kept), paths_of(new_files), path);
}

/// Removing files keeps paths distinct.
pub proof fn law_removal_keeps_paths_distinct<F>(files: Seq<FileView<F>>, paths: Seq<Seq<char>>)
    requires
        distinct(files),
    ensures
        distinct(without_paths(files, paths)),
    decreases files.len(),
{
    reveal(Seq::filter);
    if files.len() > 0 {
        let head = files.drop_last();
        assert forall|i: int, j: int| 0 <= i < j < head.len() implies #[trigger] head[i].path
            != #[trigger] head[j].path by {
            assert(files[i].path != files[j].path);
        }
        law_removal_keeps_paths_distinct(head, paths);
        let kept = without_paths(head, paths);
        assert forall|i: int| 0 <= i < kept.len() implies #[trigger] kept[i].path
            != files.last().path by {
            head.lemma_filter_contains_rev(
                |file: FileView<F>| !listed(paths, file.path),
                kept[i],
            );
            let k = head.index_of(kept[i]);
            assert(files[k].path != files[files.len() - 1].path);
        }
    }
}

/// Adding files keeps paths distinct, where the new files do not share a path
/// among themselves.
pub proof fn law_addition_keeps_paths_distinct<F>(
    files: Seq<FileView<F>>,
    new_files: Seq<FileView<F>>,
)
    requires
        distinct(files),
        distinct(new_files),
    ensures
        distinct(with_added(files, new_files)),
{
    let paths = paths_of(new_files);
    let kept = without_paths(files, paths);
    let all = with_added(files, new_files);
    law_removal_keeps_paths_distinct(files, paths);
    law_removed_paths_are_gone(files, paths);
    assert forall|i: int, j: int| 0 <= i < j < all.len() implies #[trigger] all[i].path
        != #[trigger] all[j].path by {
        if i < kept.len() && kept.len() <= j {
            let path = new_files[j - kept.len()].path;
            assert(paths[j - kept.len()] == path);
            assert(listed(paths, path));
            assert(!listed(paths_of(kept), path));
            assert(paths_of(kept)[i] == kept[i].path);
        }
    }
}

/// A file that was added is the one that is found at its path, where no two of
/// the new files share a path.
pub proof fn law_added_file_is_found<F>(
    files: Seq<FileView<F>>,
    new_files: Seq<FileView<F>>,
    i: int,
)
    requires
        distinct(new_files),
        0 <= i < new_files.len(),
    ensures
        first_at(
            with_added(files, new_files),
            new_files[i].path,
            without_paths(files, paths_of(new_files)).len() + i,
        ),
        with_added(files, new_files)[without_paths(files, paths_of(new_files)).len() + i]
            == new_files[i],
{
    let paths = paths_of(new_files);
    let kept = without_paths(files, paths);
    let path = new_files[i].path;
    law_removed_paths_are_gone(files, paths);
    assert(paths[i] == path);
    assert(listed(paths, path));
    assert(!listed(paths_of(kept), path));
    assert forall|k: int| 0 <= k < kept.len() + i implies #[trigger] with_added(
        files,
        new_files,
    )[k].path != path by {
        if k < kept.len() {
            assert(paths_of(kept)[k] == kept[k].path);
        } else {
            assert(new_files[k - kept.len()].path != new_files[i].path);
        }
    }
}

/// Removing what was added leaves the files that were at other paths before.
pub proof fn law_removal_undoes_addition<F>(files: Seq<FileView<F>>, new_files: Seq<FileView<F>>)
    ensures
        without_paths(with_added(files, new_files), paths_of(new_files)) == without_paths(
            files,
            paths_of(new_files),
        ),
{
    let paths = paths_of(new_files);
    let kept = without_paths(files, paths);
    let pred = |file: FileView<F>| !listed(paths, file.path);
    Seq::filter_distributes_over_add(kept, new_files, pred);
    law_removal_is_idempotent(files, paths);
    assert(new_files.all(|file: FileView<F>| !pred(file))) by {
        assert forall|k: int| 0 <= k < new_files.len() implies !pred(#[trigger] new_files[k]) by {
            assert(paths[k] == new_files[k].path);
        }
    }
    new_files.lemma_all_neg_filter_empty(pred);
    assert(without_paths(with_added(files, new_files), paths) =~= kept);
}

} // verus!
