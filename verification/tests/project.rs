use beautyxt_rs::project::{
    add_project_files, clear_project_files, remove_project_files, set_main_project_file, Project,
    ProjectFilePathAndFd, ProjectFilePathAndFile,
};

fn entry(path: &str, fd: i32) -> (ProjectFilePathAndFd, i32) {
    (ProjectFilePathAndFd { path: path.to_owned(), fd }, fd)
}

fn listing(project: &Project<i32>) -> Vec<(String, i32)> {
    project.project_files.iter().map(|file| (file.path.clone(), file.file)).collect()
}

fn names(entries: &[(&str, i32)]) -> Vec<(String, i32)> {
    entries.iter().map(|(path, fd)| ((*path).to_owned(), *fd)).collect()
}

#[test]
fn a_new_file_remembers_nothing() {
    let file = ProjectFilePathAndFile::new("/a.typ".to_owned(), 7);
    assert_eq!(file.path, "/a.typ");
    assert_eq!(file.file, 7);
    assert!(file.source.is_none());
    assert!(file.bytes.is_none());
    let (path_and_fd, fd) = entry("/b.typ", 8);
    let file = ProjectFilePathAndFile::from_project_file_path_and_fd(&path_and_fd, fd);
    assert_eq!(file.path, "/b.typ");
    assert_eq!(file.file, 8);
    assert!(file.source.is_none());
    assert!(file.bytes.is_none());
}

#[test]
fn the_main_file_is_replaced() {
    let mut project: Project<i32> = Project::new();
    assert!(project.main_project_file.is_none());
    let (first, fd) = entry("/main.typ", 3);
    set_main_project_file(&mut project, first, fd);
    let (second, fd) = entry("/other.typ", 4);
    set_main_project_file(&mut project, second, fd);
    let main = project.main_project_file.as_ref().unwrap();
    assert_eq!(main.path, "/other.typ");
    assert_eq!(main.file, 4);
    assert!(project.project_files.is_empty());
}

#[test]
fn files_are_added_in_order() {
    let mut project: Project<i32> = Project::new();
    add_project_files(&mut project, vec![entry("/a", 1), entry("/b", 2)]);
    add_project_files(&mut project, vec![entry("/c", 3)]);
    assert_eq!(listing(&project), names(&[("/a", 1), ("/b", 2), ("/c", 3)]));
}

#[test]
fn an_added_file_takes_the_place_of_one_at_its_path() {
    let mut project: Project<i32> = Project::new();
    add_project_files(&mut project, vec![entry("/a", 1), entry("/b", 2), entry("/c", 3)]);
    add_project_files(&mut project, vec![entry("/b", 4), entry("/d", 5)]);
    assert_eq!(listing(&project), names(&[("/a", 1), ("/c", 3), ("/b", 4), ("/d", 5)]));
}

#[test]
fn new_files_that_share_a_path_are_both_added() {
    let mut project: Project<i32> = Project::new();
    add_project_files(&mut project, vec![entry("/a", 1), entry("/a", 2)]);
    assert_eq!(listing(&project), names(&[("/a", 1), ("/a", 2)]));
}

#[test]
fn files_are_removed_by_path() {
    let mut project: Project<i32> = Project::new();
    add_project_files(&mut project, vec![entry("/a", 1), entry("/b", 2), entry("/c", 3)]);
    remove_project_files(&mut project, vec!["/c".to_owned(), "/x".to_owned(), "/a".to_owned()]);
    assert_eq!(listing(&project), names(&[("/b", 2)]));
    remove_project_files(&mut project, vec!["/a".to_owned()]);
    assert_eq!(listing(&project), names(&[("/b", 2)]));
    remove_project_files(&mut project, vec![]);
    assert_eq!(listing(&project), names(&[("/b", 2)]));
}

#[test]
fn removing_what_was_added_leaves_the_rest() {
    let mut project: Project<i32> = Project::new();
    add_project_files(&mut project, vec![entry("/a", 1), entry("/b", 2)]);
    add_project_files(&mut project, vec![entry("/b", 3), entry("/c", 4)]);
    remove_project_files(&mut project, vec!["/b".to_owned(), "/c".to_owned()]);
    assert_eq!(listing(&project), names(&[("/a", 1)]));
}

#[test]
fn clearing_forgets_everything() {
    let mut project: Project<i32> = Project::new();
    let (main, fd) = entry("/main.typ", 1);
    set_main_project_file(&mut project, main, fd);
    add_project_files(&mut project, vec![entry("/a", 2)]);
    clear_project_files(&mut project);
    assert!(project.main_project_file.is_none());
    assert!(project.project_files.is_empty());
    assert_eq!(project.project_files.capacity(), 0);
}

#[test]
fn removals_add_up() {
    let all = || {
        let mut project: Project<i32> = Project::new();
        let files = vec![entry("/a", 1), entry("/b", 2), entry("/c", 3), entry("/d", 4)];
        add_project_files(&mut project, files);
        project
    };
    let mut twice = all();
    remove_project_files(&mut twice, vec!["/a".to_owned(), "/c".to_owned()]);
    remove_project_files(&mut twice, vec!["/c".to_owned(), "/d".to_owned()]);
    let mut once = all();
    let paths = ["/a", "/c", "/c", "/d"].iter().map(|path| (*path).to_owned()).collect();
    remove_project_files(&mut once, paths);
    assert_eq!(listing(&twice), names(&[("/b", 2)]));
    assert_eq!(listing(&once), listing(&twice));
}
