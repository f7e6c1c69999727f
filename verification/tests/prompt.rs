use joshuto::commands::change_directory::ChangeDirectory;
use joshuto::commands::delete_files::DeleteFiles;
use joshuto::commands::open_file::OpenFile;
use joshuto::commands::open_file::OpenFileWith;
use joshuto::commands::open_file::OpenWith;
use joshuto::context::JoshutoConfig;
use joshuto::context::JoshutoContext;
use joshuto::fs::DirReads;
use joshuto::keymap::binding_index;
use joshuto::keymap::can_bind;
use joshuto::keymap::first_key;
use joshuto::keymap::insert_keycommand;
use joshuto::keymap::next_key;
use joshuto::keymap::resolve;
use joshuto::keymap::CommandKeybind;
use joshuto::keymap::KeyStep;
use joshuto::keymap::BACKSPACE;
use joshuto::keymap::ENTER;
use joshuto::keymap::ESCAPE;
use joshuto::keymap::TAB;
use joshuto::path::JoshutoPath;
use joshuto::path_map::PathMap;
use joshuto::structs::FileType;
use joshuto::structs::JoshutoDirEntry;
use joshuto::structs::JoshutoMetadata;
use joshuto::tab::FileStatus;
use joshuto::tab::JoshutoTab;
use joshuto::tab::TabDisplay;
use joshuto::textfield::EditStep;
use joshuto::textfield::JoshutoTextField;
use joshuto::textfield::LineEditor;
use joshuto::textfield::TermKey;
use joshuto::ui::titlebar_path;
use joshuto::utils::Point;
use joshuto::utils::Rectangle;
use joshuto::window::DirDisplay;
use joshuto::window::DrawRow;
use joshuto::window::JoshutoView;

fn text(editor: &LineEditor) -> String {
    editor.buffer().iter().collect()
}

fn type_text(editor: &mut LineEditor, typed: &str) {
    for c in typed.chars() {
        assert_eq!(EditStep::Continue, editor.handle_key(TermKey::Code(c as i32)));
    }
}

fn p(names: &[&str]) -> JoshutoPath {
    JoshutoPath::new(names.iter().map(|s| s.to_string()).collect())
}

fn children(dir: &JoshutoPath, names: &[&str]) -> Vec<JoshutoDirEntry> {
    let metadata =
        JoshutoMetadata { len: 1, modified: 0, mode: 0o644, file_type: FileType::Regular };
    names.iter().map(|n| JoshutoDirEntry::new(n.to_string(), dir.join(n), metadata)).collect()
}

#[test]
fn key_codes() {
    assert_eq!(0x7f, BACKSPACE);
    assert_eq!('\t' as i32, TAB);
    assert_eq!('\n' as i32, ENTER);
    assert_eq!(0x1b, ESCAPE);
}

#[test]
fn editor_starts_between_prefix_and_suffix() {
    let field = JoshutoTextField::new(
        Rectangle::new(Point::new(0, 0), Point::new(1, 80)),
        ":rename ".to_string(),
    );
    assert_eq!(":rename ", field.prompt);
    let editor = field.readline_with_initial("photo", ".jpg");
    assert_eq!("photo.jpg", text(&editor));
    assert_eq!(5, editor.curr_index());
    assert_eq!(5, editor.cursor_column());
    assert_eq!(9, editor.text_width());
    let empty = LineEditor::new();
    assert_eq!("", text(&empty));
    assert_eq!(0, empty.curr_index());
    assert_eq!(0, empty.cursor_column());
}

#[test]
fn editor_inserts_at_the_cursor() {
    let mut editor = LineEditor::with_initial("ac", "");
    assert_eq!(EditStep::Continue, editor.handle_key(TermKey::Left));
    type_text(&mut editor, "b");
    assert_eq!("abc", text(&editor));
    assert_eq!(2, editor.curr_index());
    assert_eq!(2, editor.cursor_column());
    type_text(&mut editor, "\u{65e5}");
    assert_eq!("ab\u{65e5}c", text(&editor));
    assert_eq!(3, editor.curr_index());
    assert_eq!(4, editor.cursor_column());
    assert_eq!(5, editor.text_width());
}

#[test]
fn editor_moves_the_cursor() {
    let mut editor = LineEditor::with_initial("a\u{65e5}b", "");
    assert_eq!(4, editor.cursor_column());
    editor.handle_key(TermKey::Right);
    assert_eq!(3, editor.curr_index());
    editor.handle_key(TermKey::Left);
    assert_eq!((2, 3), (editor.curr_index(), editor.cursor_column()));
    editor.handle_key(TermKey::Left);
    assert_eq!((1, 1), (editor.curr_index(), editor.cursor_column()));
    editor.handle_key(TermKey::Home);
    assert_eq!((0, 0), (editor.curr_index(), editor.cursor_column()));
    editor.handle_key(TermKey::Left);
    assert_eq!((0, 0), (editor.curr_index(), editor.cursor_column()));
    editor.handle_key(TermKey::End);
    assert_eq!((3, 4), (editor.curr_index(), editor.cursor_column()));
    editor.handle_key(TermKey::Right);
    assert_eq!("a\u{65e5}b", text(&editor));
}

#[test]
fn editor_deletes_before_and_under_the_cursor() {
    let mut editor = LineEditor::with_initial("ab\u{65e5}", "cd");
    assert_eq!(EditStep::Continue, editor.handle_key(TermKey::Code(BACKSPACE)));
    assert_eq!("abcd", text(&editor));
    assert_eq!((2, 2, 4), (editor.curr_index(), editor.cursor_column(), editor.text_width()));
    assert_eq!(EditStep::Continue, editor.handle_key(TermKey::Delete));
    assert_eq!("abd", text(&editor));
    assert_eq!((2, 2, 3), (editor.curr_index(), editor.cursor_column(), editor.text_width()));
    editor.handle_key(TermKey::Delete);
    editor.handle_key(TermKey::Delete);
    assert_eq!("ab", text(&editor));
    editor.handle_key(TermKey::Home);
    editor.handle_key(TermKey::Code(BACKSPACE));
    assert_eq!("ab", text(&editor));
    editor.handle_key(TermKey::Delete);
    editor.handle_key(TermKey::Delete);
    editor.handle_key(TermKey::Delete);
    editor.handle_key(TermKey::Code(BACKSPACE));
    assert_eq!("", text(&editor));
    assert_eq!((0, 0, 0), (editor.curr_index(), editor.cursor_column(), editor.text_width()));
}

#[test]
fn editor_ends_on_enter_and_escape() {
    let mut editor = LineEditor::with_initial("abc", "");
    assert_eq!(EditStep::Accept, editor.handle_key(TermKey::Code(ENTER)));
    assert_eq!(EditStep::Cancel, editor.handle_key(TermKey::Code(ESCAPE)));
    assert_eq!("abc", text(&editor));
    assert_eq!(3, editor.curr_index());
}

#[test]
fn editor_passes_over_codes_that_are_no_character() {
    let mut editor = LineEditor::with_initial("abc", "");
    assert_eq!(EditStep::Continue, editor.handle_key(TermKey::Code(-1)));
    assert_eq!(EditStep::Continue, editor.handle_key(TermKey::Code(0xD800)));
    assert_eq!(EditStep::Continue, editor.handle_key(TermKey::Code(0x110000)));
    assert_eq!("abc", text(&editor));
    // a control character is a character, and counts as one column
    assert_eq!(EditStep::Continue, editor.handle_key(TermKey::Code(TAB)));
    assert_eq!("abc\t", text(&editor));
    assert_eq!(4, editor.cursor_column());
    editor.handle_key(TermKey::Code(0x10FFFF));
    assert_eq!(5, editor.curr_index());
}

#[test]
fn open_with_parses_a_place() {
    assert_eq!(Some(0), OpenFileWith::parse_index("0"));
    assert_eq!(Some(12), OpenFileWith::parse_index("12"));
    assert_eq!(Some(7), OpenFileWith::parse_index("+007"));
    assert_eq!(Some(usize::MAX), OpenFileWith::parse_index(&usize::MAX.to_string()));
    assert_eq!(None, OpenFileWith::parse_index(&format!("{}0", usize::MAX)));
    assert_eq!(None, OpenFileWith::parse_index("340282366920938463463374607431768211456"));
    assert_eq!(None, OpenFileWith::parse_index(""));
    assert_eq!(None, OpenFileWith::parse_index("+"));
    assert_eq!(None, OpenFileWith::parse_index("-1"));
    assert_eq!(None, OpenFileWith::parse_index(" 1"));
    assert_eq!(None, OpenFileWith::parse_index("1 "));
    assert_eq!(None, OpenFileWith::parse_index("1+"));
    assert_eq!(None, OpenFileWith::parse_index("12a"));
    assert_eq!(None, OpenFileWith::parse_index("\u{0663}"));
    for text in ["5", "+5", "05", "x", "", "18446744073709551616", "99999999999999999999"] {
        assert_eq!(text.parse::<usize>().ok(), OpenFileWith::parse_index(text));
    }
}

#[test]
fn open_with_picks_an_entry_or_a_program() {
    assert_eq!(OpenWith::Nothing, OpenFileWith::open_with("", 3));
    assert_eq!(OpenWith::Entry(2), OpenFileWith::open_with("2", 3));
    assert_eq!(OpenWith::Entry(0), OpenFileWith::open_with("+0", 1));
    assert_eq!(OpenWith::Nothing, OpenFileWith::open_with("3", 3));
    assert_eq!(OpenWith::Nothing, OpenFileWith::open_with("0", 0));
    assert_eq!(
        OpenWith::Args(vec!["mpv".to_string(), "--loop".to_string()]),
        OpenFileWith::open_with("  mpv\t --loop ", 3)
    );
    assert_eq!(OpenWith::Args(vec!["-1".to_string()]), OpenFileWith::open_with("-1", 3));
    assert_eq!(OpenWith::Args(Vec::new()), OpenFileWith::open_with("   ", 3));
    assert_eq!(
        OpenWith::Args(vec!["99999999999999999999".to_string()]),
        OpenFileWith::open_with("99999999999999999999", 3)
    );
}

#[test]
fn commands_as_text() {
    assert_eq!("cd /", ChangeDirectory::new(JoshutoPath::root()).to_string());
    assert_eq!("cd /home/user", ChangeDirectory::new(p(&["home", "user"])).to_string());
    assert_eq!("delete_files", DeleteFiles::new().to_string());
    assert_eq!("open_file", OpenFile::new().to_string());
    assert_eq!("open_file_with", OpenFileWith::new().to_string());
    let cd = ChangeDirectory::new(p(&["srv"]));
    assert_eq!(cd.target(), cd.clone().target());
}

#[test]
fn path_as_text() {
    assert_eq!("/", JoshutoPath::root().display());
    assert_eq!("/home", p(&["home"]).display());
    assert_eq!("/home/user/my docs", p(&["home", "user", "my docs"]).display());
}

#[test]
fn titlebar_shows_home_as_tilde() {
    let docs = p(&["home", "user", "docs"]);
    assert_eq!("~/docs", titlebar_path(&docs, "user", true));
    assert_eq!("/home/user/docs", titlebar_path(&docs, "user", false));
    assert_eq!("/home/user/docs", titlebar_path(&docs, "root", true));
    assert_eq!("~", titlebar_path(&p(&["home", "user"]), "user", true));
    assert_eq!("/", titlebar_path(&JoshutoPath::root(), "user", true));
    assert_eq!("/mnt~/x", titlebar_path(&p(&["mnt", "home", "user", "x"]), "user", true));
    assert_eq!("~2", titlebar_path(&p(&["home", "user2"]), "user", true));
}

#[test]
fn keys_are_looked_up_in_the_bindings() {
    let inner = vec![
        (103, CommandKeybind::SimpleKeybind("top")),
        (27, CommandKeybind::SimpleKeybind("never")),
        (103, CommandKeybind::SimpleKeybind("shadowed")),
    ];
    let keymap = vec![
        (113, CommandKeybind::SimpleKeybind("quit")),
        (103, CommandKeybind::CompositeKeybind(inner)),
        (27, CommandKeybind::SimpleKeybind("escape")),
    ];
    assert!(matches!(first_key(&keymap, 113), KeyStep::Run(c) if *c == "quit"));
    assert!(matches!(first_key(&keymap, 27), KeyStep::Run(c) if *c == "escape"));
    assert!(matches!(first_key(&keymap, 120), KeyStep::Nothing));
    assert!(matches!(next_key(&keymap, 113), KeyStep::Run(c) if *c == "quit"));
    match first_key(&keymap, 103) {
        KeyStep::More(more) => {
            assert!(matches!(next_key(more, 103), KeyStep::Run(c) if *c == "top"));
            assert!(matches!(next_key(more, ESCAPE), KeyStep::Nothing));
            assert!(matches!(next_key(more, 113), KeyStep::Nothing));
        }
        other => panic!("{:?}", other),
    }
    let none: Vec<(i32, CommandKeybind<u8>)> = Vec::new();
    assert!(matches!(first_key(&none, 113), KeyStep::Nothing));
}

fn shown_tab() -> JoshutoTab {
    let root = JoshutoPath::root();
    let srv = p(&["srv"]);
    let many: Vec<String> = (0..30).map(|i| format!("f{:02}", i)).collect();
    let many: Vec<&str> = many.iter().map(|s| s.as_str()).collect();
    let mut reads: DirReads = PathMap::new();
    reads.insert(root.clone(), Ok(children(&root, &["srv"])));
    reads.insert(srv.clone(), Ok(children(&srv, &many)));
    JoshutoTab::new(srv, reads).unwrap()
}

#[test]
fn tab_shows_both_listings() {
    let mut tab = shown_tab();
    let view = JoshutoView::new((1, 3, 4), 80, 24);
    let config = JoshutoConfig { scroll_offset: 6, tilde_in_titlebar: true, column_ratio: (1, 3, 4) };
    let shown = tab.refresh(&view, &config);
    let row = |i: usize| DrawRow { index: i, point: Point::new(0, i as i32), standout: i == 0 };
    assert_eq!(
        TabDisplay {
            curr: Some(DirDisplay::List((0..22).map(row).collect())),
            parent: Some(DirDisplay::List(vec![row(0)])),
        },
        shown
    );
    assert_eq!((0, 22), {
        let w = tab.curr_list().unwrap().pagestate();
        (w.start, w.end)
    });
    assert_eq!(shown, tab.refresh_(&view, 6));
    assert_eq!(Some(FileStatus { position: 1, len: 30 }), tab.refresh_file_status());
    assert_eq!("/srv", tab.refresh_path_status("user", true));
}

#[test]
fn tab_without_parent_shows_one_listing() {
    let root = JoshutoPath::root();
    let mut reads: DirReads = PathMap::new();
    reads.insert(root.clone(), Ok(Vec::new()));
    let mut tab = JoshutoTab::new(root, reads).unwrap();
    let view = JoshutoView::new((1, 3, 4), 80, 24);
    assert_eq!(TabDisplay { curr: Some(DirDisplay::Empty), parent: None }, tab.refresh_(&view, 6));
    assert_eq!(None, tab.refresh_file_status());
    let narrow = JoshutoView::new((1, 3, 4), 16, 24);
    assert_eq!(Some(DirDisplay::TooNarrow), tab.refresh_curr(&narrow.window_mid, 6));
    assert_eq!(None, tab.refresh_parent(&narrow.window_left, 6));
}

#[test]
fn shown_tab_can_be_changed_in_place() {
    let config = JoshutoConfig { scroll_offset: 6, tilde_in_titlebar: true, column_ratio: (1, 3, 4) };
    let mut context = JoshutoContext::new(config, "u".to_string(), "h".to_string());
    context.add_tab(shown_tab());
    let srv = p(&["srv"]);
    let mut reads: DirReads = PathMap::new();
    reads.insert(srv.clone(), Ok(children(&srv, &["only"])));
    context.curr_tab_mut().reload_contents(&mut reads);
    assert_eq!(1, context.curr_tab_ref().curr_list().unwrap().len());
    assert_eq!(1, context.tabs()[0].curr_list().unwrap().len());
}

#[test]
fn key_sequences_are_walked() {
    let deepest = vec![(122, CommandKeybind::SimpleKeybind("deep"))];
    let inner = vec![
        (103, CommandKeybind::SimpleKeybind("top")),
        (27, CommandKeybind::SimpleKeybind("never")),
        (120, CommandKeybind::CompositeKeybind(deepest)),
    ];
    let keymap = vec![
        (113, CommandKeybind::SimpleKeybind("quit")),
        (103, CommandKeybind::CompositeKeybind(inner)),
        (27, CommandKeybind::SimpleKeybind("escape")),
    ];
    let walk = |keys: &[i32]| {
        let r = resolve(&keymap, &keys.to_vec());
        (r.command.copied(), r.used)
    };
    assert_eq!((Some("quit"), 1), walk(&[113]));
    assert_eq!((Some("quit"), 1), walk(&[113, 103]));
    assert_eq!((Some("escape"), 1), walk(&[27]));
    assert_eq!((Some("top"), 2), walk(&[103, 103]));
    assert_eq!((Some("deep"), 3), walk(&[103, 120, 122, 113]));
    assert_eq!((None, 2), walk(&[103, 27]));
    assert_eq!((None, 3), walk(&[103, 120, 27]));
    assert_eq!((None, 2), walk(&[103, 113]));
    assert_eq!((None, 1), walk(&[104, 103]));
    assert_eq!((None, 1), walk(&[103]));
    assert_eq!((None, 2), walk(&[103, 120]));
    assert_eq!((None, 0), walk(&[]));
}

#[test]
fn keys_are_bound_to_commands() {
    let mut keymap: Vec<(i32, CommandKeybind<&'static str>)> = Vec::new();
    fn walk(keymap: &Vec<(i32, CommandKeybind<&'static str>)>, keys: &[i32]) -> Option<&'static str> {
        resolve(keymap, &keys.to_vec()).command.copied()
    }
    assert_eq!(Ok(()), insert_keycommand(&mut keymap, "quit", &vec![113]));
    assert_eq!(Ok(()), insert_keycommand(&mut keymap, "top", &vec![103, 103]));
    assert_eq!(Ok(()), insert_keycommand(&mut keymap, "deep", &vec![103, 120, 122]));
    assert_eq!(Ok(()), insert_keycommand(&mut keymap, "long", &vec![100, 100, 100, 100]));
    assert_eq!(Some("quit"), walk(&keymap, &[113]));
    assert_eq!(Some("top"), walk(&keymap, &[103, 103]));
    assert_eq!(Some("deep"), walk(&keymap, &[103, 120, 122]));
    assert_eq!(Some("long"), walk(&keymap, &[100, 100, 100, 100]));
    assert_eq!(None, walk(&keymap, &[100, 100, 100]));
    assert_eq!(None, walk(&keymap, &[103, 120]));
    assert_eq!(Some(0), binding_index(&keymap, 113));
    assert_eq!(Some(1), binding_index(&keymap, 103));
    assert_eq!(Some(2), binding_index(&keymap, 100));
    assert_eq!(None, binding_index(&keymap, 27));

    // a key that runs a command cannot open further bindings
    assert!(!can_bind(&keymap, &vec![113, 97]));
    assert_eq!(Err("no"), insert_keycommand(&mut keymap, "no", &vec![113, 97]));
    // keys that are bound cannot be bound again
    assert_eq!(Err("no"), insert_keycommand(&mut keymap, "no", &vec![113]));
    assert_eq!(Err("no"), insert_keycommand(&mut keymap, "no", &vec![103, 103]));
    // keys that open bindings cannot run a command
    assert_eq!(Err("no"), insert_keycommand(&mut keymap, "no", &vec![103]));
    assert_eq!(Err("no"), insert_keycommand(&mut keymap, "no", &vec![103, 120]));
    // no keys bind nothing
    assert_eq!(Err("no"), insert_keycommand(&mut keymap, "no", &Vec::new()));
    assert_eq!(3, keymap.len());
    assert_eq!(Some("top"), walk(&keymap, &[103, 103]));
    assert_eq!(Some("deep"), walk(&keymap, &[103, 120, 122]));
    assert!(can_bind(&keymap, &vec![103, 120, 121]));
    assert!(can_bind(&keymap, &vec![97]));
}
