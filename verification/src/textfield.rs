//! The line editor behind a prompt.

use crate::keymap::BACKSPACE;
use crate::keymap::ENTER;
use crate::keymap::ESCAPE;
use crate::utils::Rectangle;
use crate::width::char_width;
use crate::width::spec_char_width;
use crate::window::JoshutoPanel;
use vstd::prelude::*;
use vstd::string::StrSliceExecFns;

verus! {

/// `char::from_u32` of the standard library. Believed of it, as its
/// documentation says: a number is a character exactly when it is a
/// Unicode scalar value, that is at most U+10FFFF and no surrogate, and
/// then the character has that number.
pub assume_specification[ char::from_u32 ](i: u32) -> (r: Option<char>)
    ensures
        r is Some <==> (i <= 0xD7FF || (0xE000 <= i && i <= 0x10FFFF)),
        r matches Some(c) ==> c as u32 == i,
;

/// A key as the terminal reports it: one of the keys that move or delete,
/// or any other key by its code.
#[derive(Clone, Copy, Debug, PartialEq, Eq, Structural)]
pub enum TermKey {
    Home,
    End,
    Left,
    Right,
    Delete,
    Code(i32),
}

/// What the prompt does after a key.
#[derive(Clone, Copy, Debug, PartialEq, Eq, Structural)]
pub enum EditStep {
    /// It goes on reading keys.
    Continue,
    /// The user gave up: there is no text.
    Cancel,
    /// The user is done: the text is what the editor holds.
    Accept,
}

/// The columns that a character takes in the prompt: a control character
/// counts as one.
pub open spec fn spec_cell_width(c: char) -> nat {
    match spec_char_width(c) {
        Some(w) => w as nat,
        None => 1,
    }
}

/// The columns that a text takes in the prompt.
pub open spec fn spec_text_width(text: Seq<char>) -> nat
    decreases text.len(),
{
    if text.len() == 0 {
        0
    } else {
        spec_text_width(text.drop_last()) + spec_cell_width(text.last())
    }
}

/// The widest that a character can be said to be.
pub const WIDEST: u128 = 0xffff_ffff_ffff_ffff;

/// The width of two texts in a row is the sum of their widths.
pub proof fn lemma_text_width_concat(a: Seq<char>, b: Seq<char>)
    ensures
        spec_text_width(a + b) == spec_text_width(a) + spec_text_width(b),
    decreases b.len(),
{
    if b.len() == 0 {
        assert(a + b =~= a);
    } else {
        lemma_text_width_concat(a, b.drop_last());
        assert((a + b).drop_last() =~= a + b.drop_last());
        assert((a + b).last() == b.last());
    }
}

/// The width of a text of one character.
pub proof fn lemma_text_width_one(c: char)
    ensures
        spec_text_width(seq![c]) == spec_cell_width(c),
{
    assert(seq![c].drop_last() =~= Seq::<char>::empty());
    assert(seq![c].last() == c);
    assert(spec_text_width(seq![c].drop_last()) == 0);
}

/// A text takes no more columns than it has characters of the greatest
/// width.
pub proof fn lemma_text_width_bound(text: Seq<char>)
    ensures
        spec_text_width(text) <= text.len() * WIDEST,
    decreases text.len(),
{
    if text.len() > 0 {
        lemma_text_width_bound(text.drop_last());
        assert(spec_cell_width(text.last()) <= WIDEST);
    }
}

/// Putting a character into a text adds its width, before the cursor too
/// where it goes in at the cursor.
pub proof fn lemma_text_width_insert(text: Seq<char>, i: int, c: char)
    requires
        0 <= i <= text.len(),
    ensures
        spec_text_width(text.insert(i, c)) == spec_text_width(text) + spec_cell_width(c),
        spec_text_width(text.insert(i, c).take(i + 1)) == spec_text_width(text.take(i))
            + spec_cell_width(c),
{
    lemma_text_width_one(c);
    assert(text =~= text.take(i) + text.skip(i));
    assert(text.insert(i, c) =~= (text.take(i) + seq![c]) + text.skip(i));
    assert(text.insert(i, c).take(i + 1) =~= text.take(i) + seq![c]);
    lemma_text_width_concat(text.take(i), text.skip(i));
    lemma_text_width_concat(text.take(i), seq![c]);
    lemma_text_width_concat(text.take(i) + seq![c], text.skip(i));
}

/// Taking a character out of a text takes its width away.
pub proof fn lemma_text_width_remove(text: Seq<char>, i: int)
    requires
        0 <= i < text.len(),
    ensures
        spec_text_width(text.remove(i)) + spec_cell_width(text[i]) == spec_text_width(text),
        spec_text_width(text.take(i + 1)) == spec_text_width(text.take(i)) + spec_cell_width(
            text[i],
        ),
        text.remove(i).take(i) == text.take(i),
{
    lemma_text_width_one(text[i]);
    assert(text =~= (text.take(i) + seq![text[i]]) + text.skip(i + 1));
    assert(text.remove(i) =~= text.take(i) + text.skip(i + 1));
    assert(text.take(i + 1) =~= text.take(i) + seq![text[i]]);
    assert(text.remove(i).take(i) =~= text.take(i));
    lemma_text_width_concat(text.take(i), seq![text[i]]);
    lemma_text_width_concat(text.take(i) + seq![text[i]], text.skip(i + 1));
    lemma_text_width_concat(text.take(i), text.skip(i + 1));
}

/// The text of a prompt and the place of the cursor in it, as contracts
/// see them.
pub struct LineEditorView {
    pub buffer: Seq<char>,
    pub curr_index: usize,
}

/// The character that the key code `ch` stands for, if it stands for one.
pub open spec fn spec_char_of(ch: i32) -> Option<char> {
    if 0 <= ch && (ch <= 0xD7FF || (0xE000 <= ch && ch <= 0x10FFFF)) {
        Some((ch as u32) as char)
    } else {
        None
    }
}

/// The editor after a key, and what the prompt does next.
///
/// The escape key gives up and the enter key accepts; neither changes the
/// text. The movement keys move the cursor within the text. The backspace
/// key takes out the character before the cursor, the delete key the one
/// under it. Any other key that stands for a character puts it in at the
/// cursor and moves the cursor behind it; a key that stands for none is
/// passed over.
pub open spec fn spec_handle_key(editor: LineEditorView, key: TermKey) -> (EditStep, LineEditorView) {
    let buffer = editor.buffer;
    let at = editor.curr_index;
    match key {
        TermKey::Home => (EditStep::Continue, LineEditorView { buffer, curr_index: 0 }),
        TermKey::End => (
            EditStep::Continue,
            LineEditorView { buffer, curr_index: buffer.len() as usize },
        ),
        TermKey::Left => (
            EditStep::Continue,
            if at > 0 {
                LineEditorView { buffer, curr_index: (at - 1) as usize }
            } else {
                editor
            },
        ),
        TermKey::Right => (
            EditStep::Continue,
            if at < buffer.len() {
                LineEditorView { buffer, curr_index: (at + 1) as usize }
            } else {
                editor
            },
        ),
        TermKey::Delete => (
            EditStep::Continue,
            if at < buffer.len() {
                LineEditorView { buffer: buffer.remove(at as int), curr_index: at }
            } else {
                editor
            },
        ),
        TermKey::Code(ch) => if ch == ESCAPE {
            (EditStep::Cancel, editor)
        } else if ch == ENTER {
            (EditStep::Accept, editor)
        } else if ch == BACKSPACE {
            (
                EditStep::Continue,
                if at > 0 {
                    LineEditorView {
                        buffer: buffer.remove(at - 1),
                        curr_index: (at - 1) as usize,
                    }
                } else {
                    editor
                },
            )
        } else {
            (
                EditStep::Continue,
                match spec_char_of(ch) {
                    Some(c) => if buffer.len() < usize::MAX {
                        LineEditorView {
                            buffer: buffer.insert(at as int, c),
                            curr_index: (at + 1) as usize,
                        }
                    } else {
                        editor
                    },
                    None => editor,
                },
            )
        },
    }
}

/// The text of a prompt while it is edited, with the cursor in it.
#[derive(Debug)]
pub struct LineEditor {
    buffer: Vec<char>,
    curr_index: usize,
    curs_x: u128,
    full_x: u128,
}

impl View for LineEditor {
    type V = LineEditorView;

    closed spec fn view(&self) -> LineEditorView {
        LineEditorView { buffer: self.buffer@, curr_index: self.curr_index }
    }
}

impl LineEditor {
    /// The cursor is in the text or at its end, and the editor knows the
    /// columns before the cursor and those of the whole text.
    pub closed spec fn wf(&self) -> bool {
        &&& self.curr_index <= self.buffer@.len()
        &&& self.curs_x == spec_text_width(self.buffer@.take(self.curr_index as int))
        &&& self.full_x == spec_text_width(self.buffer@)
    }

    /// In a well-formed editor the cursor is in the text or at its end.
    pub proof fn lemma_wf(&self)
        requires
            self.wf(),
        ensures
            self@.curr_index <= self@.buffer.len(),
    {
    }

    /// An editor without text.
    pub fn new() -> (r: Self)
        ensures
            r.wf(),
            r@ == (LineEditorView { buffer: Seq::empty(), curr_index: 0 }),
    {
        let r = LineEditor { buffer: Vec::new(), curr_index: 0, curs_x: 0, full_x: 0 };
        assert(r.buffer@.take(0) =~= Seq::<char>::empty());
        r
    }

    /// An editor that holds `prefix` and `suffix` with the cursor between
    /// them.
    pub fn with_initial(prefix: &str, suffix: &str) -> (r: Self)
        requires
            prefix@.len() + suffix@.len() <= usize::MAX,
        ensures
            r.wf(),
            r@ == (LineEditorView {
                buffer: prefix@ + suffix@,
                curr_index: prefix@.len() as usize,
            }),
    {
        let mut editor = LineEditor::new();
        let n = prefix.unicode_len();
        let mut i: usize = 0;
        assert(prefix@.take(0) =~= Seq::<char>::empty());
        while i < n
            invariant
                i <= n,
                n == prefix@.len(),
                editor.wf(),
                editor@ == (LineEditorView { buffer: prefix@.take(i as int), curr_index: i }),
            decreases n - i,
        {
            let c = prefix.get_char(i);
            editor.insert(c);
            assert(prefix@.take(i as int).insert(i as int, c) =~= prefix@.take(i as int + 1));
            i = i + 1;
        }
        assert(prefix@.take(n as int) =~= prefix@);
        let m = suffix.unicode_len();
        let mut j: usize = 0;
        while j < m
            invariant
                j <= m,
                m == suffix@.len(),
                n == prefix@.len(),
                n + m <= usize::MAX,
                editor.wf(),
                editor@ == (LineEditorView {
                    buffer: prefix@ + suffix@.take(j as int),
                    curr_index: (n + j) as usize,
                }),
            decreases m - j,
        {
            let c = suffix.get_char(j);
            editor.insert(c);
            assert((prefix@ + suffix@.take(j as int)).insert(n + j, c) =~= prefix@ + suffix@.take(
                j as int + 1,
            ));
            j = j + 1;
        }
        assert(suffix@.take(m as int) =~= suffix@);
        editor.move_to(n);
        editor
    }

    /// The text.
    pub fn buffer(&self) -> (r: &Vec<char>)
        ensures
            r@ == self@.buffer,
    {
        &self.buffer
    }

    /// The place of the cursor in the text.
    pub fn curr_index(&self) -> (r: usize)
        ensures
            r == self@.curr_index,
    {
        self.curr_index
    }

    /// The columns that the text before the cursor takes.
    pub fn cursor_column(&self) -> (r: u128)
        requires
            self.wf(),
        ensures
            r == spec_text_width(self@.buffer.take(self@.curr_index as int)),
    {
        self.curs_x
    }

    /// The columns that the whole text takes.
    pub fn text_width(&self) -> (r: u128)
        requires
            self.wf(),
        ensures
            r == spec_text_width(self@.buffer),
    {
        self.full_x
    }

    /// Puts `c` in at the cursor and moves the cursor behind it. Nothing
    /// happens to a text that cannot grow.
    fn insert(&mut self, c: char)
        requires
            old(self).wf(),
        ensures
            final(self).wf(),
            old(self)@.buffer.len() < usize::MAX ==> final(self)@ == (LineEditorView {
                buffer: old(self)@.buffer.insert(old(self)@.curr_index as int, c),
                curr_index: (old(self)@.curr_index + 1) as usize,
            }),
            old(self)@.buffer.len() >= usize::MAX ==> final(self)@ == old(self)@,
    {
        if self.buffer.len() == usize::MAX {
            return ;
        }
        let w: usize = match char_width(c) {
            Some(w) => w,
            None => 1,
        };
        proof {
            lemma_text_width_insert(self.buffer@, self.curr_index as int, c);
            lemma_text_width_bound(self.buffer@);
            lemma_text_width_bound(self.buffer@.take(self.curr_index as int));
        }
        self.buffer.insert(self.curr_index, c);
        self.curr_index = self.curr_index + 1;
        self.curs_x = self.curs_x + w as u128;
        self.full_x = self.full_x + w as u128;
    }

    /// Takes out the character at `at`, which lies before the cursor
    /// (`before`) or under it.
    fn remove(&mut self, at: usize, before: bool)
        requires
            old(self).wf(),
            at < old(self)@.buffer.len(),
            before ==> at + 1 == old(self)@.curr_index,
            !before ==> at == old(self)@.curr_index,
        ensures
            final(self).wf(),
            final(self)@ == (LineEditorView {
                buffer: old(self)@.buffer.remove(at as int),
                curr_index: at,
            }),
    {
        let c = self.buffer[at];
        let w: usize = match char_width(c) {
            Some(w) => w,
            None => 1,
        };
        proof {
            lemma_text_width_remove(self.buffer@, at as int);
        }
        let _ = self.buffer.remove(at);
        self.full_x = self.full_x - w as u128;
        if before {
            self.curr_index = at;
            self.curs_x = self.curs_x - w as u128;
        }
    }

    /// Moves the cursor to `to`.
    fn move_to(&mut self, to: usize)
        requires
            old(self).wf(),
            to <= old(self)@.buffer.len(),
        ensures
            final(self).wf(),
            final(self)@ == (LineEditorView { buffer: old(self)@.buffer, curr_index: to }),
    {
        let mut at: usize = 0;
        let mut column: u128 = 0;
        assert(self.buffer@.take(0) =~= Seq::<char>::empty());
        while at < to
            invariant
                at <= to <= self.buffer@.len(),
                column == spec_text_width(self.buffer@.take(at as int)),
            decreases to - at,
        {
            let w: usize = match char_width(self.buffer[at]) {
                Some(w) => w,
                None => 1,
            };
            proof {
                lemma_text_width_remove(self.buffer@, at as int);
                lemma_text_width_bound(self.buffer@.take(at as int));
            }
            column = column + w as u128;
            at = at + 1;
        }
        self.curr_index = to;
        self.curs_x = column;
    }

    /// Takes in a key (see `spec_handle_key`).
    pub fn handle_key(&mut self, key: TermKey) -> (r: EditStep)
        requires
            old(self).wf(),
        ensures
            final(self).wf(),
            (r, final(self)@) == spec_handle_key(old(self)@, key),
    {
        match key {
            TermKey::Home => {
                self.move_to(0);
                EditStep::Continue
            },
            TermKey::End => {
                let n = self.buffer.len();
                self.move_to(n);
                EditStep::Continue
            },
            TermKey::Left => {
                if self.curr_index > 0 {
                    let to = self.curr_index - 1;
                    self.move_to(to);
                }
                EditStep::Continue
            },
            TermKey::Right => {
                if self.curr_index < self.buffer.len() {
                    let to = self.curr_index + 1;
                    self.move_to(to);
                }
                EditStep::Continue
            },
            TermKey::Delete => {
                if self.curr_index < self.buffer.len() {
                    let at = self.curr_index;
                    self.remove(at, false);
                }
                EditStep::Continue
            },
            TermKey::Code(ch) => {
                if ch == ESCAPE {
                    EditStep::Cancel
                } else if ch == ENTER {
                    EditStep::Accept
                } else if ch == BACKSPACE {
                    if self.curr_index > 0 {
                        let at = self.curr_index - 1;
                        self.remove(at, true);
                    }
                    EditStep::Continue
                } else {
                    if ch >= 0 {
                        let code: u32 = ch as u32;
                        assert(code == ch);
                        match char::from_u32(code) {
                            Some(c) => {
                                proof {
                                    vstd::utf8::char_u32_cast(c, code);
                                }
                                self.insert(c);
                            },
                            None => {},
                        }
                    }
                    EditStep::Continue
                }
            },
        }
    }
}

/// The prompt: the panel it is drawn in and the text that stands before
/// what the user types.
#[derive(Debug)]
pub struct JoshutoTextField {
    pub window: JoshutoPanel,
    pub prompt: String,
}

impl JoshutoTextField {
    pub fn new(rect: Rectangle, prompt: String) -> (r: Self)
        ensures
            r.window.rect == rect,
            r.prompt == prompt,
    {
        JoshutoTextField { window: JoshutoPanel::new(rect), prompt }
    }

    /// The editor with which the prompt starts: it holds `prefix` and
    /// `suffix` with the cursor between them.
    pub fn readline_with_initial(&self, prefix: &str, suffix: &str) -> (r: LineEditor)
        requires
            prefix@.len() + suffix@.len() <= usize::MAX,
        ensures
            r.wf(),
            r@ == (LineEditorView {
                buffer: prefix@ + suffix@,
                curr_index: prefix@.len() as usize,
            }),
    {
        LineEditor::with_initial(prefix, suffix)
    }
}

} // verus!
