use beautyxt_rs::fonts::{build_font_book, can_count, font_file, load_font, FONT_COUNT};
use beautyxt_rs::lookup::{get_project_file_text, Lookup};
use beautyxt_rs::operations::{FileTarget, IoFailure};
use beautyxt_rs::project::{
    add_project_files, set_main_project_file, Project, ProjectFilePathAndFd, ProjectFilePathAndFile,
};
use beautyxt_rs::reading::{
    read_file, read_source, read_source_at, read_text_at, FileAccessError,
};
use beautyxt_rs::sources::has_text_path;
use beautyxt_rs::world::{initialize_world, SomeWorld};
use typst::foundations::Bytes;
use typst::syntax::{FileId, Source, VirtualPath};
use typst::text::FontInfo;

fn font_data() -> Vec<Vec<u8>> {
    typst_assets::fonts().take(FONT_COUNT).map(|font| font.to_vec()).collect()
}

fn world() -> SomeWorld {
    SomeWorld::new(font_data()).unwrap()
}

fn id(path: &str) -> FileId {
    FileId::new(None, VirtualPath::new(path))
}

fn project_of(paths: &[&str]) -> Project<usize> {
    let mut project = Project::new();
    let main = ProjectFilePathAndFd { path: "/main.typ".to_owned(), fd: 0 };
    set_main_project_file(&mut project, main, 0);
    let files = paths
        .iter()
        .enumerate()
        .map(|(i, path)| (ProjectFilePathAndFd { path: (*path).to_owned(), fd: 0 }, i + 1))
        .collect();
    add_project_files(&mut project, files);
    project
}

#[test]
fn the_book_lists_the_fonts_in_order() {
    let world = world();
    for (i, data) in font_data().iter().enumerate() {
        let info = FontInfo::new(data, 0).unwrap();
        assert_eq!(world.book().info(i), Some(&info));
        let font = world.font(i).unwrap();
        assert_eq!(font.info(), &info);
        assert_eq!(font.data().as_slice(), data.as_slice());
        assert_eq!(font.index(), 0);
    }
    assert!(world.book().info(FONT_COUNT).is_none());
}

#[test]
fn the_library_is_the_standard_one() {
    let world = world();
    assert!(world.library().global.scope().get("heading").is_some());
}

#[test]
fn data_without_a_font_makes_no_world() {
    let mut data = font_data();
    data[12] = b"no font".to_vec();
    assert!(build_font_book(&data).is_none());
    assert!(load_font(&data[12]).is_none());
    assert!(SomeWorld::new(data.clone()).is_none());
    let mut present = None;
    assert!(!initialize_world(&mut present, data));
    assert!(present.is_none());
    assert!(initialize_world(&mut present, font_data()));
    assert!(present.is_some());
}

#[test]
fn fonts_come_from_their_files() {
    assert_eq!(FONT_COUNT, 13);
    assert_eq!(font_file(0), "Noto_Serif/NotoSerif-Regular.ttf");
    assert_eq!(font_file(3), "Noto_Serif/NotoSerif-BoldItalic.ttf");
    assert_eq!(font_file(5), "Roboto/Roboto-Bold.ttf");
    assert_eq!(font_file(8), "STIX_Two/STIXTwoMath-Regular.ttf");
    assert_eq!(font_file(12), "STIX_Two/STIXTwoText-BoldItalic.ttf");
}

#[test]
fn the_main_source_is_looked_up() {
    let world = world();
    let mut project = project_of(&[]);
    match world.main(&project) {
        Lookup::Unread { target, path } => {
            assert_eq!(target, FileTarget::Main);
            assert_eq!(path, "/main.typ");
        }
        _ => panic!("not unread"),
    }
    project.main_project_file.as_mut().unwrap().source = Some(Source::detached("remembered"));
    match world.main(&project) {
        Lookup::Found { value } => {
            assert_eq!(value.text(), "remembered");
            assert_eq!(value.id(), Source::detached("").id());
        }
        _ => panic!("not found"),
    }
}

#[test]
fn a_source_is_looked_up_at_its_rooted_path() {
    let world = world();
    let mut project = project_of(&["/a.typ", "/lib/b.typ", "/lib/b.typ"]);
    for path in ["/lib/b.typ", "lib/b.typ", "lib/./x/../b.typ"] {
        match world.source(&project, id(path)) {
            Lookup::Unread { target, path } => {
                assert_eq!(target, FileTarget::Listed { index: 1 });
                assert_eq!(path, "/lib/b.typ");
            }
            _ => panic!("not unread"),
        }
    }
    match world.source(&project, id("c.typ")) {
        Lookup::Missing { path } => assert_eq!(path.as_deref(), Some("/c.typ")),
        _ => panic!("not missing"),
    }
    project.project_files[0].source = Some(Source::new(id("/a.typ"), "in a".to_owned()));
    match world.source(&project, id("/a.typ")) {
        Lookup::Found { value } => {
            assert_eq!(value.text(), "in a");
            assert_eq!(value.id(), id("/a.typ"));
        }
        _ => panic!("not found"),
    }
}

#[test]
fn a_file_is_looked_up_at_its_rooted_path() {
    let world = world();
    let mut project = project_of(&["/a.png", "/b.png"]);
    match world.file(&project, id("b.png")) {
        Lookup::Unread { target, path } => {
            assert_eq!(target, FileTarget::Listed { index: 1 });
            assert_eq!(path, "/b.png");
        }
        _ => panic!("not unread"),
    }
    match world.file(&project, id("/c.png")) {
        Lookup::Missing { path } => assert_eq!(path.as_deref(), Some("/c.png")),
        _ => panic!("not missing"),
    }
    project.project_files[0].bytes = Some(Bytes::from(vec![1, 2, 3]));
    match world.file(&project, id("/a.png")) {
        Lookup::Found { value } => assert_eq!(value.as_slice(), &[1, 2, 3]),
        _ => panic!("not found"),
    }
}

#[test]
fn a_path_that_is_not_rooted_is_never_found() {
    let world = world();
    let mut project: Project<usize> = Project::new();
    project.project_files.push(ProjectFilePathAndFile::new("a.typ".to_owned(), 0));
    match world.source(&project, id("a.typ")) {
        Lookup::Missing { path } => assert_eq!(path.as_deref(), Some("/a.typ")),
        _ => panic!("not missing"),
    }
}

#[test]
fn a_text_is_looked_up() {
    let world = world();
    let mut project = project_of(&["/a.typ"]);
    match get_project_file_text(&world, &project, "/main.typ".to_owned()) {
        Lookup::Unread { target, path } => {
            assert_eq!(target, FileTarget::Main);
            assert_eq!(path, "/main.typ");
        }
        _ => panic!("not unread"),
    }
    match get_project_file_text(&world, &project, "a.typ".to_owned()) {
        Lookup::Unread { target, path } => {
            assert_eq!(target, FileTarget::Listed { index: 0 });
            assert_eq!(path, "/a.typ");
        }
        _ => panic!("not unread"),
    }
    match get_project_file_text(&world, &project, "/b.typ".to_owned()) {
        Lookup::Missing { path } => assert_eq!(path.as_deref(), Some("/b.typ")),
        _ => panic!("not missing"),
    }
    project.project_files[0].source = Some(Source::detached("remembered"));
    match get_project_file_text(&world, &project, "/a.typ".to_owned()) {
        Lookup::Found { value } => assert_eq!(value, "remembered"),
        _ => panic!("not found"),
    }
}

#[test]
fn read_bytes_become_sources_and_files() {
    let source = read_source(id("/a.typ"), "Grüße".as_bytes().to_vec()).unwrap();
    assert_eq!(source.text(), "Grüße");
    assert_eq!(source.id(), id("/a.typ"));
    let source = read_source_at("x/../b.typ", b"text".to_vec()).unwrap();
    assert_eq!(source.text(), "text");
    assert_eq!(source.id(), id("/b.typ"));
    assert_eq!(read_text_at("/c.typ", b"in c".to_vec()).unwrap(), "in c");
    assert_eq!(read_file(vec![0, 255]).as_slice(), &[0, 255]);
    assert!(matches!(read_source(id("/a.typ"), vec![0xff]), Err(FileAccessError::InvalidUtf8)));
    assert!(matches!(read_source_at("/a.typ", vec![0xff]), Err(FileAccessError::InvalidUtf8)));
    assert!(matches!(read_text_at("/a.typ", vec![0xff]), Err(FileAccessError::InvalidUtf8)));
}

#[test]
fn failures_become_errors() {
    let from_io = |failure: IoFailure, message: &str| {
        FileAccessError::from_io(failure, message.to_owned(), "/a.typ".to_owned())
    };
    assert!(matches!(
        from_io(IoFailure::NotFound, "gone"),
        FileAccessError::NotFound { path } if path == "/a.typ"
    ));
    assert!(matches!(
        from_io(IoFailure::PermissionDenied, "no"),
        FileAccessError::AccessDenied
    ));
    assert!(matches!(
        from_io(IoFailure::InvalidData, "error: stream did not contain valid UTF-8!"),
        FileAccessError::InvalidUtf8
    ));
    assert!(matches!(
        from_io(IoFailure::InvalidData, "odd"),
        FileAccessError::Other { details: Some(details) } if details == "odd"
    ));
    assert!(matches!(
        from_io(IoFailure::Other, "stream did not contain valid UTF-8"),
        FileAccessError::Other { details: Some(details) }
            if details == "stream did not contain valid UTF-8"
    ));
}

#[test]
fn plain_paths_are_looked_up_as_they_are() {
    let paths = ["/a.typ", "/.a", "/..a/b..", "/a/.../c", "/ä/b c", "/\\a"];
    let world = world();
    let project = project_of(&paths);
    for (index, path) in paths.iter().enumerate() {
        assert!(has_text_path(id(path)));
        match get_project_file_text(&world, &project, (*path).to_owned()) {
            Lookup::Unread { target, path: found } => {
                assert_eq!(target, FileTarget::Listed { index });
                assert_eq!(found, *path);
            }
            _ => panic!("another outcome"),
        }
    }
}

#[test]
fn a_remembered_source_keeps_its_own_id() {
    let world = world();
    let mut project = project_of(&["/a.typ"]);
    project.project_files[0].source = Some(Source::new(id("/elsewhere.typ"), "in a".to_owned()));
    match world.source(&project, id("/a.typ")) {
        Lookup::Found { value } => assert_eq!(value.id(), id("/elsewhere.typ")),
        _ => panic!("not found"),
    }
}

#[test]
fn paths_are_rooted() {
    let rooted = [
        ("", "/"),
        ("/", "/"),
        ("//", "/"),
        (".", "/"),
        ("..", "/.."),
        ("a.typ", "/a.typ"),
        ("a/b", "/a/b"),
        ("a//b/", "/a/b"),
        ("./a/./b/.", "/a/b"),
        ("../a", "/../a"),
        ("a/..", "/"),
        ("a/../../b", "/../b"),
        ("../../a/..", "/../.."),
        ("/../x/..y/...", "/../x/..y/..."),
        ("a/b/../../c", "/c"),
    ];
    for (path, expected) in rooted {
        let source = read_source_at(path, vec![]).unwrap();
        assert_eq!(source.id().vpath().as_rooted_path().to_str(), Some(expected));
        assert!(source.id().package().is_none());
        let again = read_source_at(expected, vec![]).unwrap();
        assert_eq!(again.id(), source.id());
    }
}

/// Reads a number of `len` bytes.
fn number(data: &[u8], at: usize, len: usize) -> usize {
    data[at..at + len].iter().fold(0, |number, byte| number << 8 | *byte as usize)
}

/// Where the table of a font's character maps starts.
fn map_table(data: &[u8]) -> Option<usize> {
    let tables = number(data, 4, 2);
    let mut records = (0..tables).map(|i| 12 + 16 * i);
    let record = records.find(|at| &data[*at..*at + 4] == b"cmap")?;
    Some(number(data, record + 8, 4))
}

/// Where the last group of the first segmented character map of a font starts.
fn last_group(data: &[u8]) -> Option<usize> {
    let table = map_table(data)?;
    let maps = number(data, table + 2, 2);
    let map = (0..maps)
        .map(|i| table + number(data, table + 4 + 8 * i + 4, 4))
        .find(|at| number(data, *at, 2) == 12)?;
    Some(map + 16 + 12 * (number(data, map + 12, 4) - 1))
}

#[test]
fn a_font_with_the_last_code_point_is_not_used() {
    let mut data = font_data();
    assert!(data.iter().all(|data| can_count(data, 0)));
    let (i, group) =
        data.iter().enumerate().find_map(|(i, data)| Some((i, last_group(data)?))).unwrap();
    data[i][group..group + 8].copy_from_slice(&[0xff; 8]);
    assert!(!can_count(&data[i], 0));
    assert!(load_font(&data[i]).is_none());
    assert!(build_font_book(&data).is_none());
    assert!(SomeWorld::new(data.clone()).is_none());
    data[i][group + 7] = 0xfe;
    data[i][group + 3] = 0xfe;
    assert!(can_count(&data[i], 0));
    assert!(load_font(&data[i]).is_some());
    assert!(SomeWorld::new(data).is_some());
}

#[test]
fn maps_that_are_not_of_unicode_do_not_count() {
    let mut data = font_data();
    let (i, group) =
        data.iter().enumerate().find_map(|(i, data)| Some((i, last_group(data)?))).unwrap();
    let font = &mut data[i];
    font[group..group + 8].copy_from_slice(&[0xff; 8]);
    assert!(!can_count(font, 0));
    // Make every map one of the Macintosh platform.
    let table = map_table(font).unwrap();
    for map in 0..number(font, table + 2, 2) {
        font[table + 4 + 8 * map..table + 6 + 8 * map].copy_from_slice(&[0, 1]);
    }
    assert!(can_count(font, 0));
    assert!(load_font(font).is_some());
}
