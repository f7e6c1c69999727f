use joshuto::path::JoshutoPath;
use joshuto::structs::FileType;
use joshuto::structs::JoshutoDirEntry;
use joshuto::structs::JoshutoDirList;
use joshuto::structs::JoshutoMetadata;
use joshuto::theme::JoshutoColorTheme;
use joshuto::theme::JoshutoTheme;
use joshuto::ui::char_widths;
use joshuto::ui::file_info;
use joshuto::ui::get_theme_attr;
use joshuto::ui::FileInfo;
use joshuto::ui::FileInfoTail;
use joshuto::ui::ThemeAttr;
use joshuto::ui::entry_plan;
use joshuto::ui::file_name_plan;
use joshuto::unix::is_executable;
use joshuto::unix::is_link_mode;
use joshuto::unix::stringify_mode;
use joshuto::unix::LINK_BITS;
use joshuto::ui::keep_count;
use joshuto::ui::last_dot;
use joshuto::ui::plan_file_name;
use joshuto::ui::theme_kind;
use joshuto::ui::EntryPlan;
use joshuto::ui::NamePlan;
use joshuto::ui::ThemeKind;
use joshuto::utils::Point;
use joshuto::utils::Rectangle;
use joshuto::window::DirDisplay;
use joshuto::window::DrawRow;
use joshuto::window::JoshutoPanel;
use joshuto::window::JoshutoView;

fn draw_entry(name: &str, file_type: FileType, mode: u32) -> JoshutoDirEntry {
    let dir = JoshutoPath::new(vec!["srv".to_string()]);
    let metadata = JoshutoMetadata { len: 1, modified: 0, mode, file_type };
    JoshutoDirEntry::new(name.to_string(), dir.join(name), metadata)
}

fn draw_list(n: usize) -> JoshutoDirList {
    let dir = JoshutoPath::new(vec!["srv".to_string()]);
    let contents = (0..n)
        .map(|i| draw_entry(&format!("f{:02}", i), FileType::Regular, 0o644))
        .collect();
    JoshutoDirList::new(dir, contents)
}

fn panel(width: i32, height: i32) -> JoshutoPanel {
    JoshutoPanel::new(Rectangle::new(Point::origin(), Point::new(width, height)))
}

#[test]
fn widths_of_characters() {
    let widths = char_widths("a\u{7}\u{e9}\u{65e5}~");
    assert_eq!(vec![Some(1), None, Some(1), Some(2), Some(1)], widths);
    assert_eq!(Vec::<Option<usize>>::new(), char_widths(""));
    assert_eq!(vec![None, None, Some(1)], char_widths("\u{7f}\u{9f}\u{a0}"));
}

#[test]
fn last_dot_of_a_name() {
    assert_eq!(Some(5), last_dot("hello.txt"));
    assert_eq!(Some(7), last_dot("a.b.tar.gz"));
    assert_eq!(Some(0), last_dot(".bashrc"));
    assert_eq!(None, last_dot("Makefile"));
    assert_eq!(None, last_dot(""));
    assert_eq!(Some(2), last_dot("\u{65e5}\u{672c}.x"));
}

#[test]
fn kept_characters_fill_the_space() {
    let ones = vec![Some(1); 5];
    assert_eq!(0, keep_count(&ones, 0));
    assert_eq!(3, keep_count(&ones, 3));
    assert_eq!(5, keep_count(&ones, 5));
    assert_eq!(5, keep_count(&ones, 9));
    assert_eq!(5, keep_count(&ones, usize::MAX));
    let mixed = vec![Some(2), None, Some(0), Some(3), Some(1)];
    assert_eq!(1, keep_count(&mixed, 1));
    assert_eq!(1, keep_count(&mixed, 2));
    assert_eq!(2, keep_count(&mixed, 3));
    assert_eq!(2, keep_count(&mixed, 4));
    assert_eq!(4, keep_count(&mixed, 5));
    assert_eq!(4, keep_count(&mixed, 7));
    assert_eq!(5, keep_count(&mixed, 8));
    assert_eq!(0, keep_count(&Vec::new(), 4));
}

#[test]
fn name_plan_from_widths() {
    let ones = vec![Some(1); 9];
    assert_eq!(NamePlan::Whole, plan_file_name(&ones, Some(5), 9, 4, 10));
    assert_eq!(
        NamePlan::Trimmed { extension_at: Some(5), keep: 3 },
        plan_file_name(&ones, Some(5), 9, 4, 9)
    );
    assert_eq!(
        NamePlan::Trimmed { extension_at: None, keep: 2 },
        plan_file_name(&ones, Some(5), 9, 4, 4)
    );
    assert_eq!(
        NamePlan::Trimmed { extension_at: None, keep: 7 },
        plan_file_name(&ones, None, 9, 0, 9)
    );
    assert_eq!(
        NamePlan::Trimmed { extension_at: Some(1), keep: 1 },
        plan_file_name(&ones, Some(5), 9, 4, 5)
    );
}

#[test]
fn name_plan_of_a_name() {
    assert_eq!(NamePlan::Whole, file_name_plan("hello.txt", 20));
    assert_eq!(NamePlan::Whole, file_name_plan("hello.txt", 10));
    assert_eq!(
        NamePlan::Trimmed { extension_at: Some(5), keep: 3 },
        file_name_plan("hello.txt", 9)
    );
    assert_eq!(
        NamePlan::Trimmed { extension_at: None, keep: 4 },
        file_name_plan("averylongname", 6)
    );
    assert_eq!(NamePlan::Trimmed { extension_at: None, keep: 2 }, file_name_plan("ab", 2));
    assert_eq!(NamePlan::Trimmed { extension_at: None, keep: 0 }, file_name_plan("a.b", 0));
    assert_eq!(NamePlan::Trimmed { extension_at: None, keep: 0 }, file_name_plan("", 0));
    assert_eq!(NamePlan::Whole, file_name_plan("", 1));
}

#[test]
fn name_plan_counts_columns_not_characters() {
    // three wide characters and a narrow extension: ten columns
    let name = "\u{65e5}\u{672c}\u{8a9e}.txt";
    assert_eq!(NamePlan::Whole, file_name_plan(name, 11));
    assert_eq!(NamePlan::Trimmed { extension_at: Some(6), keep: 2 }, file_name_plan(name, 10));
    assert_eq!(NamePlan::Trimmed { extension_at: Some(4), keep: 1 }, file_name_plan(name, 8));
    // a control character counts as two columns when the name is trimmed
    assert_eq!(
        NamePlan::Trimmed { extension_at: None, keep: 2 },
        file_name_plan("\t\t\tabc", 6)
    );
}

#[test]
fn entry_plan_gives_the_size_its_columns() {
    assert_eq!(
        EntryPlan { size_at: Some(13), name: NamePlan::Whole },
        entry_plan("hello.txt", 20, 1, Some(6))
    );
    assert_eq!(
        EntryPlan { size_at: None, name: NamePlan::Whole },
        entry_plan("hello.txt", 20, 1, None)
    );
    assert_eq!(
        EntryPlan { size_at: None, name: NamePlan::Trimmed { extension_at: None, keep: 0 } },
        entry_plan("hello.txt", 10, 12, Some(6))
    );
    assert_eq!(
        EntryPlan {
            size_at: Some(6),
            name: NamePlan::Trimmed { extension_at: Some(2), keep: 2 }
        },
        entry_plan("hello.txt", 14, 2, Some(6))
    );
    assert_eq!(
        EntryPlan { size_at: None, name: NamePlan::Trimmed { extension_at: Some(2), keep: 2 } },
        entry_plan("hello.txt", 8, 2, Some(6))
    );
}

#[test]
fn executable_bits() {
    assert!(is_executable(0o755));
    assert!(is_executable(0o100));
    assert!(is_executable(0o010));
    assert!(is_executable(0o001));
    assert!(!is_executable(0o644));
    assert!(!is_executable(0o100666));
}

#[test]
fn theme_goes_by_mark_kind_mode_and_extension() {
    let mut marked = draw_entry("a.txt", FileType::Directory, 0o755);
    marked.selected = true;
    assert_eq!(ThemeKind::Selection, theme_kind(&marked));
    assert_eq!(ThemeKind::Directory, theme_kind(&draw_entry("d.x", FileType::Directory, 0o755)));
    assert_eq!(ThemeKind::Link, theme_kind(&draw_entry("l", FileType::Symlink, 0o777)));
    assert_eq!(ThemeKind::Special, theme_kind(&draw_entry("b", FileType::BlockDevice, 0o660)));
    assert_eq!(ThemeKind::Special, theme_kind(&draw_entry("c", FileType::CharDevice, 0o660)));
    assert_eq!(ThemeKind::Special, theme_kind(&draw_entry("p", FileType::Fifo, 0o660)));
    assert_eq!(ThemeKind::Special, theme_kind(&draw_entry("s", FileType::Socket, 0o660)));
    assert_eq!(ThemeKind::Executable, theme_kind(&draw_entry("run.sh", FileType::Regular, 0o755)));
    assert_eq!(
        ThemeKind::Extension("gz".to_string()),
        theme_kind(&draw_entry("a.tar.gz", FileType::Regular, 0o644))
    );
    assert_eq!(
        ThemeKind::Extension("".to_string()),
        theme_kind(&draw_entry("odd.", FileType::Regular, 0o644))
    );
    assert_eq!(ThemeKind::Regular, theme_kind(&draw_entry("README", FileType::Regular, 0o644)));
}

#[test]
fn narrow_panel_draws_nothing() {
    let mut list = draw_list(30);
    assert_eq!(DirDisplay::TooNarrow, panel(7, 20).display_contents(&mut list, 6));
    assert_eq!((0, 0), (list.pagestate().start, list.pagestate().end));
}

#[test]
fn empty_listing_is_shown_as_empty() {
    let mut list = draw_list(0);
    assert_eq!(DirDisplay::Empty, panel(8, 20).display_contents(&mut list, 6));
}

#[test]
fn panel_draws_the_rows_of_the_window() {
    let mut list = draw_list(30);
    assert!(list.select(12));
    let shown = panel(40, 5).display_contents(&mut list, 1);
    assert_eq!((8, 13), (list.pagestate().start, list.pagestate().end));
    let rows = vec![
        DrawRow { index: 8, point: Point::new(0, 0), standout: false },
        DrawRow { index: 9, point: Point::new(0, 1), standout: false },
        DrawRow { index: 10, point: Point::new(0, 2), standout: false },
        DrawRow { index: 11, point: Point::new(0, 3), standout: false },
        DrawRow { index: 12, point: Point::new(0, 4), standout: true },
    ];
    assert_eq!(DirDisplay::List(rows.clone()), shown);
    assert_eq!(rows, panel(40, 5).draw_dir_list(&list));
}

#[test]
fn panel_rows_wrap_like_a_cast() {
    assert_eq!(5, panel(40, 5).rows());
    assert_eq!(0, panel(40, 0).rows());
    let tall = JoshutoPanel::new(Rectangle::new(Point::new(0, i32::MIN), Point::new(0, i32::MAX)));
    assert_eq!(-1, tall.rows());
    let mut list = draw_list(3);
    assert_eq!(
        DirDisplay::List(Vec::new()),
        JoshutoPanel::new(Rectangle::new(Point::new(0, 0), Point::new(9, -4)))
            .display_contents(&mut list, 6)
    );
}

#[test]
fn view_lays_out_six_panels() {
    let view = JoshutoView::new((1, 3, 4), 80, 24);
    let rect = |a: i32, b: i32, c: i32, d: i32| {
        JoshutoPanel::new(Rectangle::new(Point::new(a, b), Point::new(c, d)))
    };
    assert_eq!(rect(0, 0, 75, 1), view.window_top);
    assert_eq!(rect(0, 23, 80, 24), view.window_bot);
    assert_eq!(rect(0, 1, 9, 23), view.window_left);
    assert_eq!(rect(40, 1, 79, 23), view.window_right);
    assert_eq!(rect(10, 1, 39, 23), view.window_mid);
    assert_eq!(rect(75, 0, 80, 1), view.window_tab);
    assert_eq!((1, 3, 4), view.window_ratio);
    assert_eq!(22, view.window_mid.rows());
    assert_eq!(29, view.window_mid.rect.width());
    let uneven = JoshutoView::new((2, 1, 1), 81, 10);
    assert_eq!(rect(0, 1, 39, 9), uneven.window_left);
    assert_eq!(rect(40, 1, 59, 9), uneven.window_mid);
    assert_eq!(rect(20, 1, 39, 9), uneven.window_right);
}

#[test]
fn view_is_laid_out_anew_on_resize() {
    let mut view = JoshutoView::new((1, 3, 4), 80, 24);
    view.resize_views(100, 30);
    assert_eq!(JoshutoView::new((1, 3, 4), 100, 30), view);
    view.resize_views(0, 0);
    assert_eq!(
        JoshutoPanel::new(Rectangle::new(Point::new(0, 1), Point::new(-1, -1))),
        view.window_left
    );
}

#[test]
fn link_mode_bits() {
    assert!(is_link_mode(0o120777));
    assert!(!is_link_mode(0o040755));
    assert!(!is_link_mode(0o140755));
    assert!(!is_link_mode(0o060660));
    assert!(is_link_mode(0o100644));
    assert!(is_link_mode(0o777));
    assert_eq!(0o120000, LINK_BITS);
}

#[test]
fn status_line_tells_time_and_size() {
    let mut file = draw_entry("a.txt", FileType::Regular, 0o100644);
    file.metadata.modified = 1_500_000_000;
    file.metadata.len = 4096;
    assert_eq!(
        FileInfo { mtime: Some("2017-07-14 02:40".to_string()), tail: FileInfoTail::Size(4096) },
        file_info(&file, false)
    );
    file.metadata.modified = 0;
    assert_eq!(Some("1970-01-01 00:00".to_string()), file_info(&file, false).mtime);
    file.metadata.modified = -1;
    assert_eq!(Some("1969-12-31 23:59".to_string()), file_info(&file, false).mtime);
    file.metadata.modified = i64::MAX;
    assert_eq!(None, file_info(&file, false).mtime);
    let dir = draw_entry("d", FileType::Directory, 0o040755);
    assert_eq!(FileInfoTail::Nothing, file_info(&dir, true).tail);
    let link = draw_entry("l", FileType::Symlink, 0o120777);
    assert_eq!(FileInfoTail::LinkTarget, file_info(&link, true).tail);
    assert_eq!(FileInfoTail::Size(1), file_info(&link, false).tail);
}

fn part(colorpair: i16, bold: bool, prefix: Option<(&str, usize)>) -> JoshutoColorTheme {
    JoshutoColorTheme {
        colorpair,
        bold,
        underline: !bold,
        prefix: prefix.map(|p| p.0.to_string()),
        prefixsize: prefix.map(|p| p.1),
    }
}

fn theme() -> JoshutoTheme {
    JoshutoTheme {
        regular: part(1, false, None),
        directory: part(2, true, Some(("+ ", 2))),
        selection: part(3, true, None),
        executable: part(4, true, None),
        link: part(5, false, None),
        socket: part(6, true, Some(("= ", 2))),
        ext: vec![
            ("rs".to_string(), part(7, false, Some(("R", 1)))),
            ("gz".to_string(), part(8, true, None)),
            ("rs".to_string(), part(9, true, None)),
        ],
    }
}

#[test]
fn theme_draws_each_kind_its_way() {
    let theme = theme();
    let attr = |prefix: (usize, &'static str), bold: bool, colorpair: i16| ThemeAttr {
        prefix,
        bold,
        underline: !bold,
        colorpair,
    };
    let mut marked = draw_entry("a.rs", FileType::Regular, 0o644);
    marked.selected = true;
    assert_eq!(attr((1, " "), true, 3), get_theme_attr(&marked, &theme));
    let dir = draw_entry("d", FileType::Directory, 0o755);
    assert_eq!(attr((2, "+ "), true, 2), get_theme_attr(&dir, &theme));
    let link = draw_entry("l", FileType::Symlink, 0o777);
    assert_eq!(attr((1, " "), false, 5), get_theme_attr(&link, &theme));
    // a socket is drawn as the theme says of sockets, in the colours of links
    let socket = draw_entry("s", FileType::Socket, 0o660);
    assert_eq!(attr((2, "= "), true, 5), get_theme_attr(&socket, &theme));
    let run = draw_entry("run.rs", FileType::Regular, 0o755);
    assert_eq!(attr((1, " "), true, 4), get_theme_attr(&run, &theme));
    let source = draw_entry("main.rs", FileType::Regular, 0o644);
    assert_eq!(attr((1, "R"), false, 7), get_theme_attr(&source, &theme));
    let packed = draw_entry("a.tar.gz", FileType::Regular, 0o644);
    assert_eq!(attr((1, " "), true, 8), get_theme_attr(&packed, &theme));
    let other = draw_entry("a.txt", FileType::Regular, 0o644);
    assert_eq!(attr((1, " "), false, 1), get_theme_attr(&other, &theme));
    let plain = draw_entry("README", FileType::Regular, 0o644);
    assert_eq!(attr((1, " "), false, 1), get_theme_attr(&plain, &theme));
    assert_eq!(Some(&theme.ext[1].1), theme.ext_theme(&"gz".to_string()));
    assert_eq!(None, theme.ext_theme(&"txt".to_string()));
}

#[test]
fn theme_prefix_needs_text_and_columns() {
    let mut theme = theme();
    theme.directory.prefixsize = None;
    let dir = draw_entry("d", FileType::Directory, 0o755);
    assert_eq!((1, " "), get_theme_attr(&dir, &theme).prefix);
    theme.directory.prefixsize = Some(4);
    theme.directory.prefix = None;
    assert_eq!((1, " "), get_theme_attr(&dir, &theme).prefix);
    theme.directory.prefix = Some("dir ".to_string());
    assert_eq!((4, "dir "), get_theme_attr(&dir, &theme).prefix);
}

#[test]
fn mode_as_text() {
    assert_eq!("drwxr-xr-x", stringify_mode(0o040755));
    assert_eq!("-rw-r--r--", stringify_mode(0o100644));
    assert_eq!("lrwxrwxrwx", stringify_mode(0o120777));
    assert_eq!("brw-rw----", stringify_mode(0o060660));
    assert_eq!("crw--w----", stringify_mode(0o020620));
    assert_eq!("prw-------", stringify_mode(0o010600));
    assert_eq!("srwx------", stringify_mode(0o140700));
    assert_eq!("----------", stringify_mode(0));
    assert_eq!("-------rwx", stringify_mode(0o007));
    assert_eq!("---x--x--x", stringify_mode(0o111));
}
