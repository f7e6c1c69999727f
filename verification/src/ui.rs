//! What is drawn of an entry, as far as it can be decided without drawing.

use crate::path::spec_display;
use crate::path::JoshutoPath;
use crate::structs::FileType;
use crate::structs::JoshutoDirEntry;
use crate::text::replace;
use crate::text::spec_replace;
use crate::theme::spec_ext_at;
use crate::theme::spec_has_ext;
use crate::theme::JoshutoColorTheme;
use crate::theme::JoshutoTheme;
use crate::unix::is_executable;
use crate::unix::is_link_mode;
use crate::unix::spec_is_executable;
use crate::unix::spec_is_link_mode;
use crate::width::char_width;
use crate::width::spec_char_width;
use crate::width::spec_str_width;
use crate::width::str_width;
use vstd::prelude::*;
use vstd::string::StrSliceExecFns;
use vstd::string::StringExecFns;

verus! {

/// How a file name is drawn in the space it has.
#[derive(Clone, Copy, Debug, PartialEq, Eq, Structural)]
pub enum NamePlan {
    /// The name fits and is drawn as it is.
    Whole,
    /// The name does not fit. Where `extension_at` is a column, the
    /// extension is drawn from that column on. The first `keep` characters
    /// of the name are drawn at the start, with an ellipsis behind them.
    Trimmed { extension_at: Option<usize>, keep: usize },
}

/// How an entry is drawn in its row: where its size goes, if it is shown,
/// and how its name is drawn.
#[derive(Clone, Copy, Debug, PartialEq, Eq, Structural)]
pub struct EntryPlan {
    pub size_at: Option<usize>,
    pub name: NamePlan,
}

/// Which part of the theme an entry is drawn with.
#[derive(Debug, PartialEq, Eq)]
pub enum ThemeKind {
    Selection,
    Directory,
    Link,
    /// A device, a pipe or a socket.
    Special,
    Executable,
    /// A file with the extension given; the theme may have nothing for it.
    Extension(String),
    Regular,
}

/// Which part of the theme an entry is drawn with, as contracts see it.
pub enum ThemeKindView {
    Selection,
    Directory,
    Link,
    Special,
    Executable,
    Extension(Seq<char>),
    Regular,
}

impl View for ThemeKind {
    type V = ThemeKindView;

    open spec fn view(&self) -> ThemeKindView {
        match self {
            ThemeKind::Selection => ThemeKindView::Selection,
            ThemeKind::Directory => ThemeKindView::Directory,
            ThemeKind::Link => ThemeKindView::Link,
            ThemeKind::Special => ThemeKindView::Special,
            ThemeKind::Executable => ThemeKindView::Executable,
            ThemeKind::Extension(e) => ThemeKindView::Extension(e@),
            ThemeKind::Regular => ThemeKindView::Regular,
        }
    }
}

/// The columns that a character takes when it is counted for trimming: a
/// control character counts as two.
pub open spec fn spec_trim_width(width: Option<usize>) -> int {
    match width {
        Some(w) => w as int,
        None => 2,
    }
}

/// The columns that the first `k` characters take.
pub open spec fn spec_prefix_width(widths: Seq<Option<usize>>, k: int) -> int
    decreases k,
{
    if k <= 0 {
        0
    } else {
        spec_prefix_width(widths, k - 1) + spec_trim_width(widths[k - 1])
    }
}

/// Whether `keep` is the number of characters that are kept of a name
/// whose characters have the widths `widths` when `space` columns are to
/// be filled: characters are taken until they fill the space, so that the
/// last one may stick out.
pub open spec fn spec_is_keep(widths: Seq<Option<usize>>, space: int, keep: int) -> bool {
    &&& 0 <= keep <= widths.len()
    &&& keep < widths.len() ==> spec_prefix_width(widths, keep) >= space
    &&& forall|j: int| 0 <= j < keep ==> spec_prefix_width(widths, j) < space
}

/// The number of characters that are kept (see `spec_is_keep`).
pub open spec fn spec_keep(widths: Seq<Option<usize>>, space: int) -> int {
    choose|keep: int| spec_is_keep(widths, space, keep)
}

/// The space that is left for the name once the extension and the ellipsis
/// have theirs.
pub open spec fn spec_name_space(has_extension: bool, ext_width: usize, space_avail: usize) -> int {
    let rest = if has_extension && space_avail > ext_width {
        space_avail - ext_width
    } else {
        space_avail as int
    };
    if rest > 2 {
        rest - 2
    } else {
        rest
    }
}

/// How a name is drawn in `space_avail` columns, given the widths of its
/// characters, the place of its last dot, its width and the width of its
/// extension.
///
/// A name that is narrower than the space is drawn whole. Otherwise the
/// extension, where the name has one that is narrower than the space, is
/// drawn at the end of the space, two more columns are left for the
/// ellipsis where more than two remain, and the characters that fill what
/// is left are kept.
pub open spec fn spec_name_plan(
    widths: Seq<Option<usize>>,
    dot: Option<usize>,
    name_width: usize,
    ext_width: usize,
    space_avail: usize,
) -> NamePlan {
    if name_width < space_avail {
        NamePlan::Whole
    } else {
        NamePlan::Trimmed {
            extension_at: if dot is Some && space_avail > ext_width {
                Some((space_avail - ext_width) as usize)
            } else {
                None
            },
            keep: spec_keep(widths, spec_name_space(dot is Some, ext_width, space_avail)) as usize,
        }
    }
}

/// At most one number of characters can be kept, so it is the one that
/// `spec_keep` gives.
pub proof fn lemma_keep_unique(widths: Seq<Option<usize>>, space: int, keep: int)
    requires
        spec_is_keep(widths, space, keep),
    ensures
        spec_keep(widths, space) == keep,
{
    let other = spec_keep(widths, space);
    assert(spec_is_keep(widths, space, other));
    if other < keep {
        assert(spec_prefix_width(widths, other) < space);
    } else if keep < other {
        assert(spec_prefix_width(widths, keep) < space);
    }
}

/// The number of characters that are kept of a name when `space` columns
/// are to be filled (see `spec_is_keep`).
pub fn keep_count(widths: &Vec<Option<usize>>, space: usize) -> (r: usize)
    ensures
        spec_is_keep(widths@, space as int, r as int),
        r == spec_keep(widths@, space as int),
{
    let n = widths.len();
    if space == 0 {
        proof {
            lemma_keep_unique(widths@, 0, 0);
        }
        return 0;
    }
    let mut k: usize = 0;
    let mut total: usize = 0;
    while k < n
        invariant
            k <= n,
            n == widths.len(),
            total == spec_prefix_width(widths@, k as int),
            total < space,
            forall|j: int| 0 <= j < k ==> spec_prefix_width(widths@, j) < space,
        decreases n - k,
    {
        let w: usize = match widths[k] {
            Some(w) => w,
            None => 2,
        };
        assert(w == spec_trim_width(widths@[k as int]));
        assert(spec_prefix_width(widths@, k as int + 1) == total + w);
        if w >= space - total {
            proof {
                lemma_keep_unique(widths@, space as int, k as int + 1);
            }
            return k + 1;
        }
        total = total + w;
        k = k + 1;
    }
    proof {
        lemma_keep_unique(widths@, space as int, n as int);
    }
    n
}

/// How a name is drawn in `space_avail` columns (see `spec_name_plan`),
/// given the widths of its characters, the place of its last dot, its
/// width and the width of its extension.
pub fn plan_file_name(
    widths: &Vec<Option<usize>>,
    dot: Option<usize>,
    name_width: usize,
    ext_width: usize,
    space_avail: usize,
) -> (r: NamePlan)
    ensures
        r == spec_name_plan(widths@, dot, name_width, ext_width, space_avail),
{
    if name_width < space_avail {
        return NamePlan::Whole;
    }
    let mut space = space_avail;
    let mut extension_at: Option<usize> = None;
    if dot.is_some() && space > ext_width {
        space = space - ext_width;
        extension_at = Some(space);
    }
    if space > 2 {
        space = space - 2;
    }
    let keep = keep_count(widths, space);
    NamePlan::Trimmed { extension_at, keep }
}

/// Whether `dot` is the place of the last dot of `name`.
pub open spec fn spec_is_last_dot(name: Seq<char>, dot: Option<usize>) -> bool {
    match dot {
        Some(d) => {
            &&& d < name.len()
            &&& name[d as int] == '.'
            &&& forall|j: int| d < j < name.len() ==> name[j] != '.'
        },
        None => forall|j: int| 0 <= j < name.len() ==> name[j] != '.',
    }
}

/// The place of the last dot of `name`.
pub open spec fn spec_last_dot(name: Seq<char>) -> Option<usize> {
    choose|dot: Option<usize>| spec_is_last_dot(name, dot)
}

/// A name has at most one place of its last dot, so it is the one that
/// `spec_last_dot` gives.
pub proof fn lemma_last_dot_unique(name: Seq<char>, dot: Option<usize>)
    requires
        spec_is_last_dot(name, dot),
    ensures
        spec_last_dot(name) == dot,
{
    let other = spec_last_dot(name);
    assert(spec_is_last_dot(name, other));
    match (dot, other) {
        (Some(a), Some(b)) => {
            if a < b {
                assert(name[b as int] != '.');
            } else if b < a {
                assert(name[a as int] != '.');
            }
        },
        (Some(a), None) => {
            assert(name[a as int] != '.');
        },
        (None, Some(b)) => {
            assert(name[b as int] != '.');
        },
        (None, None) => {},
    }
}

/// The place of the last dot of `name`.
pub fn last_dot(name: &str) -> (r: Option<usize>)
    ensures
        spec_is_last_dot(name@, r),
        r == spec_last_dot(name@),
{
    let n = name.unicode_len();
    let mut i: usize = n;
    while i > 0
        invariant
            i <= n,
            n == name@.len(),
            forall|j: int| i <= j < n ==> name@[j] != '.',
        decreases i,
    {
        i = i - 1;
        if name.get_char(i) == '.' {
            proof {
                lemma_last_dot_unique(name@, Some(i));
            }
            return Some(i);
        }
    }
    proof {
        lemma_last_dot_unique(name@, None);
    }
    None
}

/// The widths of the characters of `name`.
pub open spec fn spec_char_widths(name: Seq<char>) -> Seq<Option<usize>> {
    Seq::new(name.len(), |i: int| spec_char_width(name[i]))
}

/// The widths of the characters of `name`.
pub fn char_widths(name: &str) -> (r: Vec<Option<usize>>)
    ensures
        r@ == spec_char_widths(name@),
{
    let n = name.unicode_len();
    let mut widths: Vec<Option<usize>> = Vec::new();
    let mut i: usize = 0;
    while i < n
        invariant
            i <= n,
            n == name@.len(),
            widths.len() == i,
            forall|k: int| 0 <= k < i ==> widths[k] == spec_char_width(name@[k]),
        decreases n - i,
    {
        widths.push(char_width(name.get_char(i)));
        i = i + 1;
    }
    assert(widths@ =~= spec_char_widths(name@));
    widths
}

/// The extension of `name` with its dot, where `dot` is the place of the
/// last dot; the empty string where there is none.
pub open spec fn spec_extension(name: Seq<char>, dot: Option<usize>) -> Seq<char> {
    match dot {
        Some(d) => name.subrange(d as int, name.len() as int),
        None => Seq::empty(),
    }
}

/// How the name `file_name` is drawn in `space_avail` columns (see
/// `spec_name_plan`).
pub fn file_name_plan(file_name: &str, space_avail: usize) -> (r: NamePlan)
    ensures
        r == spec_name_plan(
            spec_char_widths(file_name@),
            spec_last_dot(file_name@),
            spec_str_width(file_name@),
            spec_str_width(spec_extension(file_name@, spec_last_dot(file_name@))),
            space_avail,
        ),
{
    let name_width = str_width(file_name);
    if name_width < space_avail {
        return NamePlan::Whole;
    }
    let dot = last_dot(file_name);
    let ext_width = match dot {
        Some(d) => {
            let n = file_name.unicode_len();
            str_width(file_name.substring_char(d, n))
        },
        None => {
            proof {
                reveal_strlit("");
            }
            assert(""@ =~= Seq::<char>::empty());
            str_width("")
        },
    };
    let widths = char_widths(file_name);
    plan_file_name(&widths, dot, name_width, ext_width, space_avail)
}

/// The columns that are left for the name of an entry in a row of `width`
/// columns, and the column where its size goes: the prefix has its columns
/// first, and the size, where one is shown that is narrower than what is
/// left, stands at the end.
pub open spec fn spec_entry_space(width: usize, prefix_size: usize, size_len: Option<usize>) -> (
    usize,
    Option<usize>,
) {
    let space = if width >= prefix_size {
        (width - prefix_size) as usize
    } else {
        0usize
    };
    match size_len {
        Some(len) => if space > len {
            ((space - len) as usize, Some((space - len) as usize))
        } else {
            (space, None)
        },
        None => (space, None),
    }
}

/// How the entry named `file_name` is drawn in a row of `width` columns
/// behind a prefix of `prefix_size` columns. `size_len` is the length of
/// the text that tells its size, where the size is shown.
pub fn entry_plan(file_name: &str, width: usize, prefix_size: usize, size_len: Option<usize>) -> (r:
    EntryPlan)
    ensures
        r.size_at == spec_entry_space(width, prefix_size, size_len).1,
        r.name == spec_name_plan(
            spec_char_widths(file_name@),
            spec_last_dot(file_name@),
            spec_str_width(file_name@),
            spec_str_width(spec_extension(file_name@, spec_last_dot(file_name@))),
            spec_entry_space(width, prefix_size, size_len).0,
        ),
{
    let mut space: usize = if width >= prefix_size {
        width - prefix_size
    } else {
        0
    };
    let mut size_at: Option<usize> = None;
    if let Some(len) = size_len {
        if space > len {
            space = space - len;
            size_at = Some(space);
        }
    }
    EntryPlan { size_at, name: file_name_plan(file_name, space) }
}

/// Which part of the theme an entry is drawn with: a marked entry with
/// that of the selection; else a directory, a link, a device, pipe or
/// socket with its own; else a file that can be run with that of
/// executables; else a file with a dot in its name with that of what
/// follows its last dot; any other as a regular file.
pub open spec fn spec_theme_kind(entry: JoshutoDirEntry) -> ThemeKindView {
    let name = entry.file_name_as_string@;
    if entry.selected {
        ThemeKindView::Selection
    } else {
        match entry.metadata.file_type {
            FileType::Directory => ThemeKindView::Directory,
            FileType::Symlink => ThemeKindView::Link,
            FileType::BlockDevice => ThemeKindView::Special,
            FileType::CharDevice => ThemeKindView::Special,
            FileType::Fifo => ThemeKindView::Special,
            FileType::Socket => ThemeKindView::Special,
            FileType::Regular => if spec_is_executable(entry.metadata.mode) {
                ThemeKindView::Executable
            } else {
                match spec_last_dot(name) {
                    Some(d) => ThemeKindView::Extension(
                        name.subrange(d as int + 1, name.len() as int),
                    ),
                    None => ThemeKindView::Regular,
                }
            },
        }
    }
}

/// Which part of the theme `entry` is drawn with (see `spec_theme_kind`).
pub fn theme_kind(entry: &JoshutoDirEntry) -> (r: ThemeKind)
    ensures
        r@ == spec_theme_kind(*entry),
{
    if entry.selected {
        return ThemeKind::Selection;
    }
    match entry.metadata.file_type {
        FileType::Directory => ThemeKind::Directory,
        FileType::Symlink => ThemeKind::Link,
        FileType::BlockDevice => ThemeKind::Special,
        FileType::CharDevice => ThemeKind::Special,
        FileType::Fifo => ThemeKind::Special,
        FileType::Socket => ThemeKind::Special,
        FileType::Regular => {
            if is_executable(entry.metadata.mode) {
                ThemeKind::Executable
            } else {
                let name = entry.file_name_as_string.as_str();
                match last_dot(name) {
                    Some(d) => {
                        let n = name.unicode_len();
                        ThemeKind::Extension(name.substring_char(d + 1, n).to_owned())
                    },
                    None => ThemeKind::Regular,
                }
            }
        },
    }
}

/// The working directory as the title bar shows it: as it is written, and
/// with every `/home/` followed by the name of the user replaced by a
/// tilde where `tilde_in_titlebar` asks for it.
pub open spec fn spec_titlebar_path(
    path: Seq<Seq<char>>,
    username: Seq<char>,
    tilde_in_titlebar: bool,
) -> Seq<char> {
    if tilde_in_titlebar {
        spec_replace(spec_display(path), "/home/"@ + username, "~"@)
    } else {
        spec_display(path)
    }
}

/// The working directory as the title bar shows it (see
/// `spec_titlebar_path`).
pub fn titlebar_path(path: &JoshutoPath, username: &str, tilde_in_titlebar: bool) -> (r: String)
    ensures
        r@ == spec_titlebar_path(path@, username@, tilde_in_titlebar),
{
    let written = path.display();
    if tilde_in_titlebar {
        let home = "/home/".to_owned().concat(username);
        replace(written.as_str(), home.as_str(), "~")
    } else {
        written
    }
}

/// How an entry is drawn: the text that stands before its name with the
/// columns it takes, whether it is drawn in bold and underlined, and its
/// colour pair.
#[derive(Debug, PartialEq, Eq)]
pub struct ThemeAttr<'a> {
    pub prefix: (usize, &'a str),
    pub bold: bool,
    pub underline: bool,
    pub colorpair: i16,
}

/// Whether `attr` is drawn as `part` of a theme says, in the colour pair
/// `colorpair`. The text before the name is that of the part where the
/// part has both a text and its columns; else it is one blank.
pub open spec fn spec_is_attr_of(attr: ThemeAttr, part: JoshutoColorTheme, colorpair: i16) -> bool {
    &&& attr.bold == part.bold
    &&& attr.underline == part.underline
    &&& attr.colorpair == colorpair
    &&& if part.prefix is Some && part.prefixsize is Some {
        attr.prefix.0 == part.prefixsize->0 && attr.prefix.1@ == part.prefix->0@
    } else {
        attr.prefix.0 == 1 && attr.prefix.1@ == seq![' ']
    }
}

/// Whether `attr` is how `theme` draws an entry of the kind `kind`. Each
/// kind is drawn as its part of the theme says and in the colour pair of
/// that part, with two exceptions: a device, pipe or socket is drawn as
/// the part for sockets says, but in the colour pair of links; and a file
/// with an extension is drawn as a regular file where the theme has
/// nothing for its extension.
pub open spec fn spec_is_theme_attr(attr: ThemeAttr, kind: ThemeKindView, theme: JoshutoTheme) -> bool {
    match kind {
        ThemeKindView::Selection => spec_is_attr_of(
            attr,
            theme.selection,
            theme.selection.colorpair,
        ),
        ThemeKindView::Directory => spec_is_attr_of(
            attr,
            theme.directory,
            theme.directory.colorpair,
        ),
        ThemeKindView::Link => spec_is_attr_of(attr, theme.link, theme.link.colorpair),
        ThemeKindView::Special => spec_is_attr_of(attr, theme.socket, theme.link.colorpair),
        ThemeKindView::Executable => spec_is_attr_of(
            attr,
            theme.executable,
            theme.executable.colorpair,
        ),
        ThemeKindView::Extension(extension) => if spec_has_ext(theme.ext@, extension) {
            exists|i: int|
                spec_ext_at(theme.ext@, extension, i) && spec_is_attr_of(
                    attr,
                    theme.ext@[i].1,
                    theme.ext@[i].1.colorpair,
                )
        } else {
            spec_is_attr_of(attr, theme.regular, theme.regular.colorpair)
        },
        ThemeKindView::Regular => spec_is_attr_of(attr, theme.regular, theme.regular.colorpair),
    }
}

/// How `part` of a theme draws an entry in the colour pair `colorpair`.
fn attr_of<'a>(part: &'a JoshutoColorTheme, colorpair: i16) -> (r: ThemeAttr<'a>)
    ensures
        spec_is_attr_of(r, *part, colorpair),
{
    proof {
        reveal_strlit(" ");
    }
    assert(" "@ =~= seq![' ']);
    let mut prefix: (usize, &'a str) = (1, " ");
    if let Some(text) = &part.prefix {
        if let Some(size) = part.prefixsize {
            prefix = (size, text.as_str());
        }
    }
    ThemeAttr { prefix, bold: part.bold, underline: part.underline, colorpair }
}

/// How `theme` draws `entry` (see `spec_theme_kind` and
/// `spec_is_theme_attr`).
pub fn get_theme_attr<'a>(entry: &JoshutoDirEntry, theme: &'a JoshutoTheme) -> (r: ThemeAttr<'a>)
    ensures
        spec_is_theme_attr(r, spec_theme_kind(*entry), *theme),
{
    match theme_kind(entry) {
        ThemeKind::Selection => attr_of(&theme.selection, theme.selection.colorpair),
        ThemeKind::Directory => attr_of(&theme.directory, theme.directory.colorpair),
        ThemeKind::Link => attr_of(&theme.link, theme.link.colorpair),
        ThemeKind::Special => attr_of(&theme.socket, theme.link.colorpair),
        ThemeKind::Executable => attr_of(&theme.executable, theme.executable.colorpair),
        ThemeKind::Extension(extension) => match theme.ext_theme(&extension) {
            Some(part) => attr_of(part, part.colorpair),
            None => attr_of(&theme.regular, theme.regular.colorpair),
        },
        ThemeKind::Regular => attr_of(&theme.regular, theme.regular.colorpair),
    }
}

/// The text that `chrono` writes for the time `modified` seconds after
/// the epoch, in universal time and in the form `%Y-%m-%d %H:%M`; none for
/// a time that `chrono` cannot hold.
pub uninterp spec fn spec_mtime_text(modified: i64) -> Option<Seq<char>>;

/// The text, where there is one, as contracts see it.
pub open spec fn spec_text_view(text: Option<String>) -> Option<Seq<char>> {
    match text {
        Some(t) => Some(t@),
        None => None,
    }
}

/// Calls `chrono::DateTime::from_timestamp` and formats what it gives with
/// `chrono::DateTime::format`. Believed of them: the text depends on the
/// number of seconds alone.
#[verifier::external_body]
fn format_mtime(modified: i64) -> (r: Option<String>)
    ensures
        spec_text_view(r) == spec_mtime_text(modified),
{
    match chrono::DateTime::from_timestamp(modified, 0) {
        Some(time) => Some(time.format("%Y-%m-%d %H:%M").to_string()),
        None => None,
    }
}

/// What follows the time in the status line.
#[derive(Clone, Copy, Debug, PartialEq, Eq, Structural)]
pub enum FileInfoTail {
    /// Nothing.
    Nothing,
    /// The target of the link, where it can be read.
    LinkTarget,
    /// The size of the file, of this many bytes.
    Size(u64),
}

/// What the status line tells of an entry: when it was modified, where
/// that can be written, and what follows.
#[derive(Debug, PartialEq, Eq)]
pub struct FileInfo {
    pub mtime: Option<String>,
    pub tail: FileInfoTail,
}

/// What follows the time in the status line for an entry with the mode
/// `mode` and the size `len`, where `is_dir` says whether it is a
/// directory, links followed: the target of the link for a directory whose
/// mode is that of a link, nothing for any other directory, the size for
/// anything else.
pub open spec fn spec_file_info_tail(mode: u32, len: u64, is_dir: bool) -> FileInfoTail {
    if is_dir {
        if spec_is_link_mode(mode) {
            FileInfoTail::LinkTarget
        } else {
            FileInfoTail::Nothing
        }
    } else {
        FileInfoTail::Size(len)
    }
}

/// What the status line tells of `entry` (see `spec_file_info_tail`).
pub fn file_info(entry: &JoshutoDirEntry, is_dir: bool) -> (r: FileInfo)
    ensures
        spec_text_view(r.mtime) == spec_mtime_text(entry.metadata.modified),
        r.tail == spec_file_info_tail(entry.metadata.mode, entry.metadata.len, is_dir),
{
    let mtime = format_mtime(entry.metadata.modified);
    let tail = if is_dir {
        if is_link_mode(entry.metadata.mode) {
            FileInfoTail::LinkTarget
        } else {
            FileInfoTail::Nothing
        }
    } else {
        FileInfoTail::Size(entry.metadata.len)
    };
    FileInfo { mtime, tail }
}

} // verus!
