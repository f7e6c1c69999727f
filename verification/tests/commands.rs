use joshuto::commands::change_directory::ChangeDirectory;
use joshuto::commands::collect_selected_paths;
use joshuto::commands::delete_files::DeleteFiles;
use joshuto::commands::delete_files::Removal;
use joshuto::commands::open_file::OpenFile;
use joshuto::commands::open_file::OpenFileWith;
use joshuto::commands::open_file::OpenTarget;
use joshuto::keymap::ENTER;
use joshuto::context::JoshutoConfig;
use joshuto::context::JoshutoContext;
use joshuto::fs::DirReads;
use joshuto::path::JoshutoPath;
use joshuto::path_map::PathMap;
use joshuto::structs::FileType;
use joshuto::structs::JoshutoDirEntry;
use joshuto::structs::JoshutoDirList;
use joshuto::structs::JoshutoMetadata;
use joshuto::tab::JoshutoTab;
use joshuto::tab::NavError;
use joshuto::utils::search_directories;
use joshuto::utils::Point;
use joshuto::utils::Rectangle;

fn cmd_path(names: &[&str]) -> JoshutoPath {
    JoshutoPath::new(names.iter().map(|s| s.to_string()).collect())
}

fn cmd_entries(dir: &JoshutoPath, names: &[&str]) -> Vec<JoshutoDirEntry> {
    let metadata =
        JoshutoMetadata { len: 1, modified: 0, mode: 0o644, file_type: FileType::Regular };
    names.iter().map(|n| JoshutoDirEntry::new(n.to_string(), dir.join(n), metadata)).collect()
}

#[test]
fn command_words() {
    assert_eq!("cd", ChangeDirectory::command());
    assert_eq!("delete_files", DeleteFiles::command());
    assert_eq!("open_file", OpenFile::command());
    assert_eq!("open_file_with", OpenFileWith::command());
    let _ = DeleteFiles::new();
    let _ = OpenFile::new();
    let _ = OpenFileWith::new();
    let cd = ChangeDirectory::new(cmd_path(&["srv"]));
    assert_eq!(&cmd_path(&["srv"]), cd.target());
}

#[test]
fn change_directory_moves_the_tab_on_show() {
    let root = JoshutoPath::root();
    let srv = cmd_path(&["srv"]);
    let etc = cmd_path(&["etc"]);
    let config = JoshutoConfig { scroll_offset: 6, tilde_in_titlebar: false, column_ratio: (1, 3, 4) };
    let mut context = JoshutoContext::new(config, "u".to_string(), "h".to_string());
    for dir in [&srv, &etc] {
        let mut reads: DirReads = PathMap::new();
        reads.insert(root.clone(), Ok(cmd_entries(&root, &["etc", "srv"])));
        reads.insert(dir.clone(), Ok(cmd_entries(dir, &["x"])));
        context.add_tab(JoshutoTab::new(dir.clone(), reads).unwrap());
    }
    let mut none: DirReads = PathMap::new();
    let r = ChangeDirectory::change_directory(&root, &mut context, true, Ok(()), &mut none);
    assert_eq!(Ok(()), r);
    assert_eq!(&root, context.tabs()[1].curr_path());
    assert_eq!(&srv, context.tabs()[0].curr_path());
    let r = ChangeDirectory::change_directory(&srv, &mut context, false, Ok(()), &mut none);
    assert_eq!(Err(NavError::TargetMissing), r);
    assert_eq!(&root, context.tabs()[1].curr_path());
}

#[test]
fn delete_is_confirmed_by_y_or_enter() {
    assert!(DeleteFiles::confirmed('y' as i32));
    assert!(DeleteFiles::confirmed(ENTER));
    assert!(DeleteFiles::confirmed('\n' as i32));
    assert!(!DeleteFiles::confirmed('n' as i32));
    assert!(!DeleteFiles::confirmed('Y' as i32));
    assert!(!DeleteFiles::confirmed(27));
}

#[test]
fn removal_goes_by_the_kind_of_file() {
    assert_eq!(Removal::Skip, DeleteFiles::removal(None));
    assert_eq!(Removal::Tree, DeleteFiles::removal(Some(FileType::Directory)));
    assert_eq!(Removal::File, DeleteFiles::removal(Some(FileType::Regular)));
    assert_eq!(Removal::File, DeleteFiles::removal(Some(FileType::Symlink)));
    assert_eq!(Removal::File, DeleteFiles::removal(Some(FileType::Fifo)));
}

#[test]
fn selected_paths_are_the_marked_or_the_current() {
    let dir = cmd_path(&["srv"]);
    let mut list = JoshutoDirList::new(dir.clone(), cmd_entries(&dir, &["a", "b", "c", "d"]));
    assert!(list.select(2));
    assert_eq!(Some(vec![dir.join("c")]), collect_selected_paths(&list));
    assert!(list.set_selected(3, true));
    assert!(list.set_selected(0, true));
    assert_eq!(Some(vec![dir.join("a"), dir.join("d")]), collect_selected_paths(&list));
    let empty = JoshutoDirList::new(dir.clone(), Vec::new());
    assert_eq!(None, collect_selected_paths(&empty));
}

#[test]
fn open_steps_into_a_directory_or_opens_files() {
    let dir = cmd_path(&["srv"]);
    let mut list = JoshutoDirList::new(dir.clone(), cmd_entries(&dir, &["a", "b", "c"]));
    assert!(list.select(1));
    assert!(list.set_selected(0, true));
    match OpenFile::target(&list, true) {
        OpenTarget::Directory(p) => assert_eq!(dir.join("b"), p),
        other => panic!("{:?}", other),
    }
    match OpenFile::target(&list, false) {
        OpenTarget::Files(paths) => assert_eq!(vec![dir.join("a")], paths),
        other => panic!("{:?}", other),
    }
    let empty = JoshutoDirList::new(dir.clone(), Vec::new());
    assert!(matches!(OpenFile::target(&empty, true), OpenTarget::Nothing));
    assert!(matches!(OpenFile::target(&empty, false), OpenTarget::Nothing));
}

#[test]
fn rectangle_spans() {
    let r = Rectangle::new(Point::new(2, 3), Point::new(12, 7));
    assert_eq!(10, r.width());
    assert_eq!(4, r.height());
    assert_eq!((0, 0), (Point::origin().x, Point::origin().y));
    let flat = Rectangle::new(Point::origin(), Point::origin());
    assert_eq!(0, flat.width());
    let wide = Rectangle::new(Point::new(i32::MIN, 0), Point::new(i32::MAX, 0));
    assert_eq!(u32::MAX, wide.width());
    let back = Rectangle::new(Point::new(1, 5), Point::new(0, 2));
    assert_eq!(u32::MAX, back.width());
    assert_eq!((-3i32) as u32, back.height());
}

#[test]
fn search_takes_the_first_directory_that_has_the_file() {
    let dirs = vec![cmd_path(&["home", "u", ".config"]), cmd_path(&["etc"]), cmd_path(&["usr"])];
    let found = search_directories("keymap.toml", &dirs, &vec![false, true, true]);
    assert_eq!(Some(cmd_path(&["etc", "keymap.toml"])), found);
    let found = search_directories("keymap.toml", &dirs, &vec![true, true, true]);
    assert_eq!(Some(cmd_path(&["home", "u", ".config", "keymap.toml"])), found);
    assert_eq!(None, search_directories("keymap.toml", &dirs, &vec![false, false, false]));
    assert_eq!(None, search_directories("keymap.toml", &dirs, &vec![false]));
    assert_eq!(None, search_directories("keymap.toml", &dirs, &vec![]));
    assert_eq!(None, search_directories("keymap.toml", &vec![], &vec![true]));
    let found = search_directories("x", &dirs, &vec![false, false, true, true]);
    assert_eq!(Some(cmd_path(&["usr", "x"])), found);
}

#[test]
fn options_for_the_extension_come_first() {
    let by_extension = vec!["vim", "code"];
    let by_mimetype = vec!["less"];
    assert_eq!(
        vec![&"vim", &"code", &"less"],
        OpenFile::get_options(Some(&by_extension), Some(&by_mimetype))
    );
    assert_eq!(vec![&"less"], OpenFile::get_options(None, Some(&by_mimetype)));
    assert_eq!(vec![&"vim", &"code"], OpenFile::get_options(Some(&by_extension), None));
    assert_eq!(Vec::<&&str>::new(), OpenFile::get_options::<&str>(None, None));
}
