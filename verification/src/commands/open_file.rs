//! The commands that open what is under the selection.

use crate::commands::collect_selected_paths;
use crate::commands::spec_collect_selected_paths;
use crate::commands::spec_path_views;
use crate::path::JoshutoPath;
use crate::structs::DirListView;
use crate::structs::JoshutoDirList;
use crate::text::spec_split_whitespace;
use crate::text::spec_text_views;
use crate::text::split_whitespace;
use vstd::prelude::*;
use vstd::string::StrSliceExecFns;

verus! {

/// Opens what is under the selection: steps into a directory, hands files
/// to a program.
#[derive(Clone, Copy, Debug)]
pub struct OpenFile;

/// What `OpenFile` is to do.
#[derive(Debug)]
pub enum OpenTarget {
    /// Step into this directory.
    Directory(JoshutoPath),
    /// Hand these files to a program.
    Files(Vec<JoshutoPath>),
    /// The listing has no selection: there is nothing to open.
    Nothing,
}

/// What `OpenFile` is to do, as contracts see it.
pub enum OpenTargetView {
    Directory(Seq<Seq<char>>),
    Files(Seq<Seq<Seq<char>>>),
    Nothing,
}

impl View for OpenTarget {
    type V = OpenTargetView;

    open spec fn view(&self) -> OpenTargetView {
        match self {
            OpenTarget::Directory(p) => OpenTargetView::Directory(p@),
            OpenTarget::Files(paths) => OpenTargetView::Files(spec_path_views(paths@)),
            OpenTarget::Nothing => OpenTargetView::Nothing,
        }
    }
}

/// What opening gives for `list`, where `curr_is_dir` says whether the
/// entry under the selection is a directory, links followed: that
/// directory; else the paths that a command works on; nothing for a
/// listing without a selection.
pub open spec fn spec_open_target(list: DirListView, curr_is_dir: bool) -> OpenTargetView {
    match list.index {
        None => OpenTargetView::Nothing,
        Some(i) => if curr_is_dir {
            OpenTargetView::Directory(list.contents[i as int].path@)
        } else {
            OpenTargetView::Files(spec_collect_selected_paths(list)->0)
        },
    }
}

/// The programs on offer for a file: those for its extension first, then
/// those for its kind of content.
pub open spec fn spec_options<T>(by_extension: Option<Vec<T>>, by_mimetype: Option<Vec<T>>) -> Seq<T> {
    (match by_extension {
        Some(programs) => programs@,
        None => Seq::empty(),
    }) + (match by_mimetype {
        Some(programs) => programs@,
        None => Seq::empty(),
    })
}

/// What the references point to.
pub open spec fn spec_pointed<T>(refs: Seq<&T>) -> Seq<T> {
    Seq::new(refs.len(), |i: int| *refs[i])
}

impl OpenFile {
    pub fn new() -> (r: Self) {
        OpenFile
    }

    /// The programs on offer for a file, given those that the settings
    /// name for its extension and those that they name for its kind of
    /// content (see `spec_options`).
    pub fn get_options<'a, T>(
        by_extension: Option<&'a Vec<T>>,
        by_mimetype: Option<&'a Vec<T>>,
    ) -> (r: Vec<&'a T>)
        ensures
            spec_pointed(r@) == spec_options(
                match by_extension {
                    Some(programs) => Some(*programs),
                    None => None,
                },
                match by_mimetype {
                    Some(programs) => Some(*programs),
                    None => None,
                },
            ),
    {
        let mut options: Vec<&'a T> = Vec::new();
        if let Some(programs) = by_extension {
            let n = programs.len();
            let mut i: usize = 0;
            while i < n
                invariant
                    i <= n,
                    n == programs.len(),
                    spec_pointed(options@) == programs@.take(i as int),
                decreases n - i,
            {
                let ghost before = options@;
                options.push(&programs[i]);
                assert(spec_pointed(options@) =~= spec_pointed(before).push(programs@[i as int]));
                assert(programs@.take(i as int + 1) =~= programs@.take(i as int).push(
                    programs@[i as int],
                ));
                i = i + 1;
            }
            assert(programs@.take(n as int) =~= programs@);
        }
        let ghost first = spec_pointed(options@);
        if let Some(programs) = by_mimetype {
            let n = programs.len();
            let mut i: usize = 0;
            while i < n
                invariant
                    i <= n,
                    n == programs.len(),
                    spec_pointed(options@) == first + programs@.take(i as int),
                decreases n - i,
            {
                let ghost before = options@;
                options.push(&programs[i]);
                assert(spec_pointed(options@) =~= spec_pointed(before).push(programs@[i as int]));
                assert(first + programs@.take(i as int + 1) =~= (first + programs@.take(
                    i as int,
                )).push(programs@[i as int]));
                i = i + 1;
            }
            assert(programs@.take(n as int) =~= programs@);
        }
        assert(spec_pointed(options@) =~= spec_options(
            match by_extension {
                Some(programs) => Some(*programs),
                None => None,
            },
            match by_mimetype {
                Some(programs) => Some(*programs),
                None => None,
            },
        ));
        options
    }

    /// The word that the keymap binds.
    pub fn command() -> (r: &'static str)
        ensures
            r@ == "open_file"@,
    {
        "open_file"
    }

    /// The command as the keymap shows it.
    pub fn to_string(&self) -> (r: String)
        ensures
            r@ == "open_file"@,
    {
        Self::command().to_owned()
    }

    /// What is to be opened (see `spec_open_target`).
    pub fn target(dirlist: &JoshutoDirList, curr_is_dir: bool) -> (r: OpenTarget)
        requires
            dirlist.wf(),
        ensures
            r@ == spec_open_target(dirlist@, curr_is_dir),
    {
        match dirlist.get_curr_ref() {
            None => OpenTarget::Nothing,
            Some(entry) => {
                if curr_is_dir {
                    OpenTarget::Directory(entry.path.clone())
                } else {
                    match collect_selected_paths(dirlist) {
                        Some(paths) => OpenTarget::Files(paths),
                        None => OpenTarget::Nothing,
                    }
                }
            },
        }
    }
}

/// Opens what is under the selection with a program that the user picks.
#[derive(Clone, Copy, Debug)]
pub struct OpenFileWith;

/// What the user picked at the prompt.
#[derive(Debug, PartialEq, Eq)]
pub enum OpenWith {
    /// Nothing is opened.
    Nothing,
    /// The files are opened with the program at this place among those on
    /// offer.
    Entry(usize),
    /// The files are opened with the program and the arguments that these
    /// words name.
    Args(Vec<String>),
}

/// What the user picked at the prompt, as contracts see it.
pub enum OpenWithView {
    Nothing,
    Entry(usize),
    Args(Seq<Seq<char>>),
}

impl View for OpenWith {
    type V = OpenWithView;

    open spec fn view(&self) -> OpenWithView {
        match self {
            OpenWith::Nothing => OpenWithView::Nothing,
            OpenWith::Entry(i) => OpenWithView::Entry(*i),
            OpenWith::Args(words) => OpenWithView::Args(spec_text_views(words@)),
        }
    }
}

/// Whether `c` is one of the digits `0` to `9`.
pub open spec fn spec_is_digit(c: char) -> bool {
    '0' <= c && c <= '9'
}

/// Whether every character of `text` is a digit.
pub open spec fn spec_all_digits(text: Seq<char>) -> bool {
    forall|i: int| 0 <= i < text.len() ==> spec_is_digit(#[trigger] text[i])
}

/// The number that the digits `digits` write in base ten.
pub open spec fn spec_digits_value(digits: Seq<char>) -> nat
    decreases digits.len(),
{
    if digits.len() == 0 {
        0
    } else {
        (10 * spec_digits_value(digits.drop_last()) + (digits.last() as u32 - '0' as u32)) as nat
    }
}

/// The digits of `text`: all of it but a plus sign at its start.
pub open spec fn spec_unsigned(text: Seq<char>) -> Seq<char> {
    if text.len() > 0 && text[0] == '+' {
        text.skip(1)
    } else {
        text
    }
}

/// The number that `text` writes: digits, which a plus sign may precede,
/// and which write a number that the machine can hold. Any other text
/// writes none.
pub open spec fn spec_parse_index(text: Seq<char>) -> Option<usize> {
    let digits = spec_unsigned(text);
    if digits.len() > 0 && spec_all_digits(digits) && spec_digits_value(digits) <= usize::MAX {
        Some(spec_digits_value(digits) as usize)
    } else {
        None
    }
}

/// More digits do not write a smaller number.
pub proof fn lemma_digits_value_grows(digits: Seq<char>, k: int)
    requires
        0 <= k <= digits.len(),
        spec_all_digits(digits),
    ensures
        spec_digits_value(digits.take(k)) <= spec_digits_value(digits),
    decreases digits.len() - k,
{
    if k < digits.len() {
        lemma_digits_value_grows(digits, k + 1);
        assert(digits.take(k + 1).drop_last() =~= digits.take(k));
        assert(spec_is_digit(digits[k]));
    } else {
        assert(digits.take(k) =~= digits);
    }
}

/// What the user picked by typing `input` at the prompt when `options`
/// programs are on offer: nothing with an empty input; the program whose
/// place the input writes, or nothing where no program has that place;
/// with any other input the program and the arguments that its words
/// name.
pub open spec fn spec_open_with(input: Seq<char>, options: usize) -> OpenWithView {
    if input.len() == 0 {
        OpenWithView::Nothing
    } else {
        match spec_parse_index(input) {
            Some(i) => if i < options {
                OpenWithView::Entry(i)
            } else {
                OpenWithView::Nothing
            },
            None => OpenWithView::Args(spec_split_whitespace(input)),
        }
    }
}

impl OpenFileWith {
    pub fn new() -> (r: Self) {
        OpenFileWith
    }

    /// The word that the keymap binds.
    pub fn command() -> (r: &'static str)
        ensures
            r@ == "open_file_with"@,
    {
        "open_file_with"
    }

    /// The command as the keymap shows it.
    pub fn to_string(&self) -> (r: String)
        ensures
            r@ == "open_file_with"@,
    {
        Self::command().to_owned()
    }

    /// The number that `text` writes (see `spec_parse_index`).
    pub fn parse_index(text: &str) -> (r: Option<usize>)
        ensures
            r == spec_parse_index(text@),
    {
        let n = text.unicode_len();
        if n == 0 {
            return None;
        }
        let first: usize = if text.get_char(0) == '+' {
            1
        } else {
            0
        };
        let ghost digits = spec_unsigned(text@);
        assert(digits =~= text@.skip(first as int));
        if first == n {
            return None;
        }
        let mut value: usize = 0;
        let mut i: usize = first;
        assert(digits.take(0) =~= Seq::<char>::empty());
        while i < n
            invariant
                first <= i <= n,
                n == text@.len(),
                digits == text@.skip(first as int),
                digits == spec_unsigned(text@),
                digits.len() == n - first,
                spec_all_digits(digits.take(i - first)),
                value == spec_digits_value(digits.take(i - first)),
            decreases n - i,
        {
            let c = text.get_char(i);
            assert(digits[i - first] == c);
            if !('0' <= c && c <= '9') {
                assert(!spec_is_digit(digits[i - first]));
                return None;
            }
            let d: usize = (c as u32 - '0' as u32) as usize;
            proof {
                assert(digits.take(i - first + 1).drop_last() =~= digits.take(i - first));
                assert(digits.take(i - first + 1).last() == c);
                assert(spec_all_digits(digits.take(i - first + 1))) by {
                    assert forall|j: int| 0 <= j < i - first + 1 implies spec_is_digit(
                        #[trigger] digits.take(i - first + 1)[j],
                    ) by {
                        if j < i - first {
                            assert(digits.take(i - first)[j] == digits.take(i - first + 1)[j]);
                        }
                    }
                }
            }
            if value > (usize::MAX - d) / 10 {
                proof {
                    assert(spec_digits_value(digits.take(i - first + 1)) > usize::MAX);
                    if spec_all_digits(digits) {
                        lemma_digits_value_grows(digits, i - first + 1);
                    }
                }
                return None;
            }
            value = 10 * value + d;
            i = i + 1;
        }
        assert(digits.take(n - first) =~= digits);
        Some(value)
    }

    /// What the user picked by typing `user_input` at the prompt when
    /// `options` programs are on offer (see `spec_open_with`).
    pub fn open_with(user_input: &str, options: usize) -> (r: OpenWith)
        ensures
            r@ == spec_open_with(user_input@, options),
    {
        if user_input.unicode_len() == 0 {
            return OpenWith::Nothing;
        }
        match Self::parse_index(user_input) {
            Some(i) => {
                if i < options {
                    OpenWith::Entry(i)
                } else {
                    OpenWith::Nothing
                }
            },
            None => OpenWith::Args(split_whitespace(user_input)),
        }
    }
}

} // verus!
