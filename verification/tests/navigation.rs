use joshuto::fs::peek_read;
use joshuto::fs::take_read;
use joshuto::fs::DirReads;
use joshuto::fs::IoError;
use joshuto::history::DirHistory;
use joshuto::path::JoshutoPath;
use joshuto::path_map::PathMap;
use joshuto::structs::position;
use joshuto::structs::FileType;
use joshuto::structs::JoshutoDirEntry;
use joshuto::structs::JoshutoDirList;
use joshuto::structs::JoshutoMetadata;
use joshuto::tab::JoshutoTab;
use joshuto::tab::NavError;

fn path(names: &[&str]) -> JoshutoPath {
    JoshutoPath::new(names.iter().map(|s| s.to_string()).collect())
}

fn entry(dir: &JoshutoPath, name: &str, file_type: FileType) -> JoshutoDirEntry {
    let metadata = JoshutoMetadata { len: 10, modified: 1_500_000_000, mode: 0o644, file_type };
    JoshutoDirEntry::new(name.to_string(), dir.join(name), metadata)
}

fn entries(dir: &JoshutoPath, names: &[&str]) -> Vec<JoshutoDirEntry> {
    names.iter().map(|n| entry(dir, n, FileType::Regular)).collect()
}

fn names(list: &JoshutoDirList) -> Vec<String> {
    list.contents().iter().map(|e| e.file_name_as_string.clone()).collect()
}

fn reads_of(dirs: &[(&JoshutoPath, &[&str])]) -> DirReads {
    let mut reads: DirReads = PathMap::new();
    for (dir, children) in dirs {
        reads.insert((*dir).clone(), Ok(entries(dir, children)));
    }
    reads
}

#[test]
fn path_parent_and_ancestors() {
    let p = path(&["home", "user", "docs"]);
    assert_eq!(3, p.depth());
    assert!(!p.is_root());
    assert_eq!(Some(path(&["home", "user"])), p.parent());
    assert_eq!(Some(path(&[])), path(&["home"]).parent());
    assert_eq!(None, JoshutoPath::root().parent());
    assert!(JoshutoPath::root().is_root());
    assert_eq!(path(&["home"]), p.ancestor(1));
    assert_eq!(JoshutoPath::root(), p.ancestor(0));
    assert_eq!(p, p.ancestor(3));
    assert_eq!(Some(&"docs".to_string()), p.file_name());
    assert_eq!(None, JoshutoPath::root().file_name());
}

#[test]
fn path_join_and_compare() {
    let p = path(&["home", "user"]);
    let q = p.join("docs");
    assert_eq!(path(&["home", "user", "docs"]), q);
    assert!(q.starts_with(&p));
    assert!(q.starts_with(&q));
    assert!(q.starts_with(&JoshutoPath::root()));
    assert!(!p.starts_with(&q));
    assert!(!q.starts_with(&path(&["home", "other"])));
    assert!(p.same_as(&path(&["home", "user"])));
    assert!(!p.same_as(&q));
    assert!(!p.same_as(&path(&["home", "usex"])));
    assert!(p.clone().same_as(&p));
}

#[test]
fn path_map_holds_one_value_per_path() {
    let mut map: PathMap<u32> = PathMap::new();
    let a = path(&["a"]);
    let b = path(&["a", "b"]);
    assert!(!map.contains(&a));
    assert_eq!(None, map.insert(a.clone(), 1));
    assert_eq!(None, map.insert(b.clone(), 2));
    assert_eq!(Some(1), map.insert(a.clone(), 3));
    assert_eq!(Some(&3), map.get(&a));
    assert_eq!(Some(&2), map.get(&b));
    assert_eq!(Some(3), map.remove(&a));
    assert_eq!(None, map.remove(&a));
    assert!(!map.contains(&a));
    assert!(map.contains(&b));
}

#[test]
fn reads_keep_errors_and_hand_out_entries_once() {
    let dir = path(&["srv"]);
    let locked = path(&["root"]);
    let mut reads = reads_of(&[(&dir, &["a", "b"])]);
    reads.insert(locked.clone(), Err(IoError::PermissionDenied));
    assert_eq!(Ok(()), peek_read(&reads, &dir));
    assert_eq!(Err(IoError::PermissionDenied), peek_read(&reads, &locked));
    assert_eq!(Err(IoError::NotFound), peek_read(&reads, &path(&["nowhere"])));
    assert_eq!(2, take_read(&mut reads, &dir).unwrap().len());
    assert_eq!(Err(IoError::NotFound), take_read(&mut reads, &dir));
    assert_eq!(Err(IoError::PermissionDenied), take_read(&mut reads, &locked));
    assert_eq!(Err(IoError::PermissionDenied), take_read(&mut reads, &locked));
}

#[test]
fn new_listing_selects_first_entry() {
    let dir = path(&["srv"]);
    let list = JoshutoDirList::new(dir.clone(), entries(&dir, &["a", "b", "c"]));
    assert_eq!(Some(0), list.index());
    assert_eq!(3, list.len());
    assert_eq!(&dir, list.path());
    assert_eq!("a", list.get_curr_ref().unwrap().file_name_as_string);
    assert_eq!((0, 0), (list.pagestate().start, list.pagestate().end));
    let empty = JoshutoDirList::new(dir.clone(), Vec::new());
    assert_eq!(None, empty.index());
    assert!(empty.get_curr_ref().is_none());
}

#[test]
fn select_moves_only_inside_the_listing() {
    let dir = path(&["srv"]);
    let mut list = JoshutoDirList::new(dir.clone(), entries(&dir, &["a", "b", "c"]));
    assert!(list.select(2));
    assert_eq!(Some(2), list.index());
    assert!(!list.select(3));
    assert_eq!(Some(2), list.index());
    let mut empty = JoshutoDirList::new(dir.clone(), Vec::new());
    assert!(!empty.select(0));
    assert_eq!(None, empty.index());
}

#[test]
fn position_finds_first_entry_with_path() {
    let dir = path(&["srv"]);
    let contents = entries(&dir, &["a", "b", "a"]);
    assert_eq!(Some(0), position(&contents, &dir.join("a")));
    assert_eq!(Some(1), position(&contents, &dir.join("b")));
    assert_eq!(None, position(&contents, &dir.join("z")));
}

#[test]
fn reload_keeps_the_selection_on_its_entry() {
    let dir = path(&["srv"]);
    let mut list = JoshutoDirList::new(dir.clone(), entries(&dir, &["a", "b", "c", "d"]));
    assert!(list.select(2));
    list.update_contents(entries(&dir, &["0", "a", "b", "b2", "c", "d"]));
    assert_eq!(Some(4), list.index());
    assert_eq!("c", list.get_curr_ref().unwrap().file_name_as_string);
    assert_eq!(&dir, list.path());
}

#[test]
fn reload_clamps_the_selection_when_its_entry_is_gone() {
    let dir = path(&["srv"]);
    let mut list = JoshutoDirList::new(dir.clone(), entries(&dir, &["a", "b", "c", "d"]));
    assert!(list.select(3));
    list.update_contents(entries(&dir, &["a", "b"]));
    assert_eq!(Some(1), list.index());
    assert!(list.select(0));
    list.update_contents(entries(&dir, &["x", "y", "z"]));
    assert_eq!(Some(0), list.index());
    assert!(list.select(1));
    list.update_contents(entries(&dir, &["p", "q", "r"]));
    assert_eq!(Some(1), list.index());
    list.update_contents(Vec::new());
    assert_eq!(None, list.index());
    list.update_contents(entries(&dir, &["n"]));
    assert_eq!(Some(0), list.index());
}

#[test]
fn reload_cuts_the_window_to_the_new_length() {
    let dir = path(&["srv"]);
    let many: Vec<String> = (0..40).map(|i| format!("f{:02}", i)).collect();
    let many_refs: Vec<&str> = many.iter().map(|s| s.as_str()).collect();
    let mut list = JoshutoDirList::new(dir.clone(), entries(&dir, &many_refs));
    assert!(list.select(34));
    list.update_page_state(25, 6);
    assert_eq!((15, 40), (list.pagestate().start, list.pagestate().end));
    list.update_contents(entries(&dir, &many_refs[..20]));
    assert_eq!((15, 20), (list.pagestate().start, list.pagestate().end));
    assert_eq!(Some(19), list.index());
    list.update_contents(entries(&dir, &many_refs[..5]));
    assert_eq!((5, 5), (list.pagestate().start, list.pagestate().end));
    list.update_page_state(25, 6);
    assert_eq!((0, 5), (list.pagestate().start, list.pagestate().end));
}

#[test]
fn listing_without_selection_keeps_its_window() {
    let dir = path(&["srv"]);
    let mut list = JoshutoDirList::new(dir.clone(), Vec::new());
    list.update_page_state(25, 6);
    assert_eq!((0, 0), (list.pagestate().start, list.pagestate().end));
}

#[test]
fn marks_are_set_by_place() {
    let dir = path(&["srv"]);
    let mut list = JoshutoDirList::new(dir.clone(), entries(&dir, &["a", "b"]));
    assert!(list.set_selected(1, true));
    assert!(!list.set_selected(2, true));
    assert!(!list.contents()[0].selected);
    assert!(list.contents()[1].selected);
    assert!(list.set_selected(1, false));
    assert!(!list.contents()[1].selected);
    assert_eq!(Some(0), list.index());
}

#[test]
fn put_back_then_pop_is_a_cache_hit() {
    let dir = path(&["srv", "www"]);
    let mut listing = JoshutoDirList::new(dir.clone(), entries(&dir, &["a", "b", "c"]));
    assert!(listing.select(2));
    let mut history = DirHistory::new();
    history.put_back(Some(listing));
    assert!(history.contains(&dir));

    // what the disk holds by now differs from what was put back
    let mut reads = reads_of(&[(&dir, &["fresh"])]);
    let hit = history.pop_or_create(&dir, &mut reads).unwrap();
    assert_eq!(&dir, hit.path());
    assert_eq!(vec!["a", "b", "c"], names(&hit));
    assert_eq!(Some(2), hit.index());
    assert!(reads.contains(&dir));
    assert!(!history.contains(&dir));

    let miss = history.pop_or_create(&dir, &mut reads).unwrap();
    assert_eq!(&dir, miss.path());
    assert_eq!(vec!["fresh"], names(&miss));
    assert_eq!(Some(0), miss.index());
    assert!(!reads.contains(&dir));
    assert!(!history.contains(&dir));

    assert_eq!(Err(IoError::NotFound), history.pop_or_create(&dir, &mut reads).map(|l| l.len()));
}

#[test]
fn put_back_of_nothing_changes_nothing() {
    let dir = path(&["srv"]);
    let mut history = DirHistory::new();
    history.put_back(None);
    assert!(!history.contains(&dir));
    assert!(history.pop(&dir).is_none());
}

#[test]
fn put_back_replaces_a_listing_of_the_same_path() {
    let dir = path(&["srv"]);
    let mut history = DirHistory::new();
    history.put_back(Some(JoshutoDirList::new(dir.clone(), entries(&dir, &["old"]))));
    history.put_back(Some(JoshutoDirList::new(dir.clone(), entries(&dir, &["new", "er"]))));
    let got = history.pop(&dir).unwrap();
    assert_eq!(vec!["new", "er"], names(&got));
    assert!(history.pop(&dir).is_none());
}

#[test]
fn pop_or_create_reports_the_error_of_the_read() {
    let dir = path(&["root"]);
    let mut history = DirHistory::new();
    let mut reads: DirReads = PathMap::new();
    reads.insert(dir.clone(), Err(IoError::PermissionDenied));
    let r = history.pop_or_create(&dir, &mut reads);
    assert_eq!(Err(IoError::PermissionDenied), r.map(|l| l.len()));
    reads.insert(dir.clone(), Err(IoError::NotADirectory));
    let r = history.pop_or_create(&dir, &mut reads);
    assert_eq!(Err(IoError::NotADirectory), r.map(|l| l.len()));
    reads.insert(dir.clone(), Err(IoError::AlreadyExists));
    assert_eq!(Err(IoError::AlreadyExists), peek_read(&reads, &dir));
    reads.insert(dir.clone(), Err(IoError::Other));
    assert_eq!(Err(IoError::Other), peek_read(&reads, &dir));
}

#[test]
fn populate_to_root_fills_every_directory_above() {
    let root = JoshutoPath::root();
    let home = path(&["home"]);
    let user = path(&["home", "user"]);
    let docs = path(&["home", "user", "docs"]);
    let mut history = DirHistory::new();
    let mut kept = JoshutoDirList::new(home.clone(), entries(&home, &["stale", "user"]));
    assert!(kept.select(1));
    history.put_back(Some(kept));
    let mut reads = reads_of(&[
        (&root, &["home", "srv"]),
        (&home, &["user"]),
        (&docs, &["a.txt"]),
    ]);
    reads.insert(user.clone(), Err(IoError::PermissionDenied));
    history.populate_to_root(&docs, &mut reads);

    // a directory above that was read is in the stash, and its read is used up
    assert!(history.contains(&root));
    assert!(!reads.contains(&root));
    // a directory that the stash held keeps its listing, and its read is left
    assert!(reads.contains(&home));
    let home_list = history.pop(&home).unwrap();
    assert_eq!(vec!["stale", "user"], names(&home_list));
    assert_eq!(Some(1), home_list.index());
    // a directory whose read failed is left out, and the error stays recorded
    assert!(!history.contains(&user));
    assert_eq!(Err(IoError::PermissionDenied), peek_read(&reads, &user));
    // the directory itself is not populated
    assert!(!history.contains(&docs));
    assert!(reads.contains(&docs));
    let root_list = history.pop(&root).unwrap();
    assert_eq!(vec!["home", "srv"], names(&root_list));
}

#[test]
fn new_tab_shows_directory_and_parent() {
    let root = JoshutoPath::root();
    let home = path(&["home"]);
    let user = path(&["home", "user"]);
    let reads = reads_of(&[(&root, &["home"]), (&home, &["user"]), (&user, &["a", "b"])]);
    let tab = JoshutoTab::new(user.clone(), reads).unwrap();
    assert_eq!(&user, tab.curr_path());
    assert_eq!(vec!["a", "b"], names(tab.curr_list().unwrap()));
    assert_eq!(vec!["user"], names(tab.parent_list().unwrap()));
    assert_eq!(&home, tab.parent_list().unwrap().path());
    assert!(tab.history().contains(&root));
    assert!(!tab.history().contains(&home));
    assert!(!tab.history().contains(&user));
}

#[test]
fn new_tab_on_the_root_has_no_parent() {
    let root = JoshutoPath::root();
    let reads = reads_of(&[(&root, &["home"])]);
    let tab = JoshutoTab::new(root.clone(), reads).unwrap();
    assert!(tab.parent_list().is_none());
    assert_eq!(vec!["home"], names(tab.curr_list().unwrap()));
}

#[test]
fn new_tab_fails_when_a_read_fails() {
    let root = JoshutoPath::root();
    let home = path(&["home"]);
    let mut reads = reads_of(&[(&root, &["home"])]);
    reads.insert(home.clone(), Err(IoError::PermissionDenied));
    assert_eq!(Some(IoError::PermissionDenied), JoshutoTab::new(home.clone(), reads).err());

    let mut reads = reads_of(&[(&home, &["user"])]);
    reads.insert(root.clone(), Err(IoError::Other));
    assert_eq!(Some(IoError::Other), JoshutoTab::new(home.clone(), reads).err());

    let reads: DirReads = PathMap::new();
    assert_eq!(Some(IoError::NotFound), JoshutoTab::new(home.clone(), reads).err());
}

fn tab_at_user() -> JoshutoTab {
    let root = JoshutoPath::root();
    let home = path(&["home"]);
    let user = path(&["home", "user"]);
    let reads = reads_of(&[
        (&root, &["home", "srv"]),
        (&home, &["guest", "user"]),
        (&user, &["a", "b", "docs"]),
    ]);
    JoshutoTab::new(user, reads).unwrap()
}

#[test]
fn navigate_to_missing_path_changes_nothing() {
    let mut tab = tab_at_user();
    let user = path(&["home", "user"]);
    let gone = path(&["home", "gone"]);
    let mut reads = reads_of(&[(&gone, &["x"])]);
    let r = tab.navigate(&gone, false, Ok(()), &mut reads);
    assert_eq!(Err(NavError::TargetMissing), r);
    assert_eq!(&user, tab.curr_path());
    assert_eq!(vec!["a", "b", "docs"], names(tab.curr_list().unwrap()));
    assert_eq!(vec!["guest", "user"], names(tab.parent_list().unwrap()));
    assert!(tab.history().contains(&JoshutoPath::root()));
    assert!(!tab.history().contains(&user));
    assert!(reads.contains(&gone));
}

#[test]
fn navigate_reports_a_failed_change_of_directory() {
    let mut tab = tab_at_user();
    let user = path(&["home", "user"]);
    let srv = path(&["srv"]);
    let mut reads = reads_of(&[(&srv, &["x"])]);
    let r = tab.navigate(&srv, true, Err(IoError::PermissionDenied), &mut reads);
    assert_eq!(Err(NavError::ChangeDirFailed(IoError::PermissionDenied)), r);
    let r = tab.navigate(&srv, true, Err(IoError::NotADirectory), &mut reads);
    assert_eq!(Err(NavError::NotADirectory), r);
    assert_eq!(&user, tab.curr_path());
    assert_eq!(vec!["a", "b", "docs"], names(tab.curr_list().unwrap()));
    assert!(reads.contains(&srv));
}

#[test]
fn navigate_reports_a_failed_read() {
    let mut tab = tab_at_user();
    let user = path(&["home", "user"]);
    let srv = path(&["srv"]);
    let www = path(&["srv", "www"]);
    let mut reads: DirReads = PathMap::new();
    reads.insert(srv.clone(), Err(IoError::PermissionDenied));
    let r = tab.navigate(&srv, true, Ok(()), &mut reads);
    assert_eq!(Err(NavError::ReadFailed(IoError::PermissionDenied)), r);
    reads.insert(srv.clone(), Err(IoError::NotADirectory));
    let r = tab.navigate(&srv, true, Ok(()), &mut reads);
    assert_eq!(Err(NavError::NotADirectory), r);
    // the target can be read, its parent cannot
    reads.insert(www.clone(), Ok(entries(&www, &["index.html"])));
    let r = tab.navigate(&www, true, Ok(()), &mut reads);
    assert_eq!(Err(NavError::ReadFailed(IoError::NotADirectory)), r);
    assert!(reads.contains(&www));
    assert_eq!(&user, tab.curr_path());
    assert_eq!(vec!["a", "b", "docs"], names(tab.curr_list().unwrap()));
    assert_eq!(vec!["guest", "user"], names(tab.parent_list().unwrap()));
}

#[test]
fn navigate_moves_and_stashes_the_old_listings() {
    let mut tab = tab_at_user();
    let root = JoshutoPath::root();
    let home = path(&["home"]);
    let user = path(&["home", "user"]);
    let srv = path(&["srv"]);
    let www = path(&["srv", "www"]);
    let mut reads = reads_of(&[(&srv, &["www"]), (&www, &["index.html"])]);
    assert_eq!(Ok(()), tab.navigate(&www, true, Ok(()), &mut reads));
    assert_eq!(&www, tab.curr_path());
    assert_eq!(vec!["index.html"], names(tab.curr_list().unwrap()));
    assert_eq!(vec!["www"], names(tab.parent_list().unwrap()));
    assert!(tab.history().contains(&root));
    assert!(tab.history().contains(&home));
    assert!(tab.history().contains(&user));
    assert!(!tab.history().contains(&srv));
    assert!(!tab.history().contains(&www));
    assert!(!reads.contains(&srv));
    assert!(!reads.contains(&www));

    // the way back needs no read at all
    let mut none: DirReads = PathMap::new();
    assert_eq!(Ok(()), tab.navigate(&user, true, Ok(()), &mut none));
    assert_eq!(vec!["a", "b", "docs"], names(tab.curr_list().unwrap()));
    assert_eq!(vec!["guest", "user"], names(tab.parent_list().unwrap()));
    assert!(tab.history().contains(&www));
    assert!(tab.history().contains(&srv));
}

#[test]
fn navigate_up_takes_the_parent_from_the_stash() {
    let mut tab = tab_at_user();
    let root = JoshutoPath::root();
    let home = path(&["home"]);
    let mut none: DirReads = PathMap::new();
    assert_eq!(Ok(()), tab.navigate(&home, true, Ok(()), &mut none));
    assert_eq!(&home, tab.curr_path());
    assert_eq!(vec!["guest", "user"], names(tab.curr_list().unwrap()));
    assert_eq!(vec!["home", "srv"], names(tab.parent_list().unwrap()));
    assert_eq!(Ok(()), tab.navigate(&root, true, Ok(()), &mut none));
    assert!(tab.parent_list().is_none());
    assert_eq!(vec!["home", "srv"], names(tab.curr_list().unwrap()));
}

#[test]
fn into_directory_makes_the_current_listing_the_parent() {
    let mut tab = tab_at_user();
    let home = path(&["home"]);
    let user = path(&["home", "user"]);
    let docs = path(&["home", "user", "docs"]);
    let mut reads = reads_of(&[(&docs, &["cv.pdf"])]);
    assert_eq!(Ok(()), tab.into_directory(&docs, Ok(()), &mut reads));
    assert_eq!(&docs, tab.curr_path());
    assert_eq!(vec!["cv.pdf"], names(tab.curr_list().unwrap()));
    assert_eq!(vec!["a", "b", "docs"], names(tab.parent_list().unwrap()));
    assert!(tab.history().contains(&home));
    assert!(!tab.history().contains(&user));
    assert!(!tab.history().contains(&docs));
}

#[test]
fn into_directory_failure_changes_nothing() {
    let mut tab = tab_at_user();
    let user = path(&["home", "user"]);
    let docs = path(&["home", "user", "docs"]);
    let deep = path(&["home", "user", "docs", "old"]);
    let mut reads = reads_of(&[(&docs, &["cv.pdf"]), (&deep, &["x"])]);
    let r = tab.into_directory(&docs, Err(IoError::PermissionDenied), &mut reads);
    assert_eq!(Err(NavError::ChangeDirFailed(IoError::PermissionDenied)), r);
    let r = tab.into_directory(&deep, Ok(()), &mut reads);
    assert_eq!(Err(NavError::NotAChild), r);
    let r = tab.into_directory(&JoshutoPath::root(), Ok(()), &mut reads);
    assert_eq!(Err(NavError::NotAChild), r);
    let b = path(&["home", "user", "b"]);
    reads.insert(b.clone(), Err(IoError::NotADirectory));
    assert_eq!(Err(NavError::NotADirectory), tab.into_directory(&b, Ok(()), &mut reads));
    let a = path(&["home", "user", "a"]);
    assert_eq!(
        Err(NavError::ReadFailed(IoError::NotFound)),
        tab.into_directory(&a, Ok(()), &mut reads)
    );
    assert_eq!(&user, tab.curr_path());
    assert_eq!(vec!["a", "b", "docs"], names(tab.curr_list().unwrap()));
    assert_eq!(vec!["guest", "user"], names(tab.parent_list().unwrap()));
    assert!(reads.contains(&docs));
}

#[test]
fn reload_contents_reads_both_listings_anew() {
    let mut tab = tab_at_user();
    let home = path(&["home"]);
    let user = path(&["home", "user"]);
    let mut reads = reads_of(&[(&user, &["a", "docs", "new"]), (&home, &["user"])]);
    tab.reload_contents(&mut reads);
    assert_eq!(vec!["a", "docs", "new"], names(tab.curr_list().unwrap()));
    assert_eq!(vec!["user"], names(tab.parent_list().unwrap()));
    assert!(!reads.contains(&user));
    assert!(!reads.contains(&home));
}

#[test]
fn reload_contents_leaves_a_vanished_directory_as_it_was() {
    let mut tab = tab_at_user();
    let home = path(&["home"]);
    let user = path(&["home", "user"]);
    let mut reads = reads_of(&[(&home, &["guest"])]);
    reads.insert(user.clone(), Err(IoError::NotFound));
    tab.reload_contents(&mut reads);
    assert_eq!(vec!["a", "b", "docs"], names(tab.curr_list().unwrap()));
    assert_eq!(vec!["guest"], names(tab.parent_list().unwrap()));
    let mut none: DirReads = PathMap::new();
    tab.reload_contents(&mut none);
    assert_eq!(vec!["a", "b", "docs"], names(tab.curr_list().unwrap()));
    assert_eq!(vec!["guest"], names(tab.parent_list().unwrap()));
}
