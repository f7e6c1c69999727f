//! The panels of the screen and what is drawn of a listing in one of them.

use crate::page_state::spec_update;
use crate::page_state::JoshutoPageState;
use crate::structs::DirListView;
use crate::structs::JoshutoDirList;
use crate::utils::Point;
use crate::utils::Rectangle;
use vstd::prelude::*;

verus! {

/// The narrowest panel in which a listing is drawn.
pub const MIN_LIST_WIDTH: u32 = 8;

/// One part of the screen.
#[derive(Clone, Copy, Debug, PartialEq, Eq, Structural)]
pub struct JoshutoPanel {
    pub rect: Rectangle,
}

/// One row of a listing that is drawn: the place of the entry in the
/// listing, the cell of the panel where its row begins (the column in `x`,
/// the row in `y`), and whether it is the entry under the selection, which
/// stands out.
#[derive(Clone, Copy, Debug, PartialEq, Eq, Structural)]
pub struct DrawRow {
    pub index: usize,
    pub point: Point,
    pub standout: bool,
}

/// What a panel shows of a listing.
#[derive(Debug, PartialEq, Eq)]
pub enum DirDisplay {
    /// The panel is too narrow: nothing is drawn.
    TooNarrow,
    /// The listing has no entries: the panel says so.
    Empty,
    /// The panel is cleared and these rows are drawn.
    List(Vec<DrawRow>),
}

/// What a panel shows of a listing, as contracts see it.
pub enum DirDisplayView {
    TooNarrow,
    Empty,
    List(Seq<DrawRow>),
}

impl View for DirDisplay {
    type V = DirDisplayView;

    open spec fn view(&self) -> DirDisplayView {
        match self {
            DirDisplay::TooNarrow => DirDisplayView::TooNarrow,
            DirDisplay::Empty => DirDisplayView::Empty,
            DirDisplay::List(rows) => DirDisplayView::List(rows@),
        }
    }
}

/// The rows of a panel as the window over a listing takes them: a height
/// above the largest signed number of 32 bits wraps around to a negative
/// one.
pub open spec fn spec_rows(height: u32) -> int {
    if height <= i32::MAX {
        height as int
    } else {
        height - 0x1_0000_0000
    }
}

/// The row that is drawn for the entry at `index` where the window begins
/// at `start` and the selection is at `selected`.
pub open spec fn spec_draw_row(start: usize, selected: Option<usize>, index: int) -> DrawRow {
    DrawRow {
        index: index as usize,
        point: Point { x: 0, y: (index - start) as i32 },
        standout: selected == Some(index as usize),
    }
}

/// The rows that are drawn of a listing whose window is `start..end`.
pub open spec fn spec_draw_rows(start: usize, end: usize, selected: Option<usize>) -> Seq<DrawRow> {
    Seq::new((end - start) as nat, |k: int| spec_draw_row(start, selected, start + k))
}

/// Whether `win` draws the rows of `list`: it does where it has at least
/// eight columns and the listing has entries.
pub open spec fn spec_draws(list: DirListView, win: JoshutoPanel) -> bool {
    win.rect.width() >= MIN_LIST_WIDTH && list.contents.len() > 0
}

/// The listing after `win` has shown it with a scroll margin of
/// `scroll_offset`: where its rows are drawn, its window has followed the
/// selection; otherwise it is as it was.
pub open spec fn spec_shown_list(list: DirListView, win: JoshutoPanel, scroll_offset: usize) -> DirListView {
    if spec_draws(list, win) {
        let window = spec_update(
            list.pagestate.start as int,
            list.index->0 as int,
            spec_rows(win.rect.height()),
            list.contents.len() as int,
            scroll_offset as int,
        );
        DirListView {
            pagestate: JoshutoPageState { start: window.0 as usize, end: window.1 as usize },
            ..list
        }
    } else {
        list
    }
}

/// What `win` shows of `list` with a scroll margin of `scroll_offset`:
/// nothing where it is too narrow; that the listing is empty where it is;
/// otherwise the rows in the window of the listing after it has followed
/// the selection.
pub open spec fn spec_dir_display(list: DirListView, win: JoshutoPanel, scroll_offset: usize) -> DirDisplayView {
    if win.rect.width() < MIN_LIST_WIDTH {
        DirDisplayView::TooNarrow
    } else if list.contents.len() == 0 {
        DirDisplayView::Empty
    } else {
        let shown = spec_shown_list(list, win, scroll_offset);
        DirDisplayView::List(
            spec_draw_rows(shown.pagestate.start, shown.pagestate.end, shown.index),
        )
    }
}

impl JoshutoPanel {
    pub fn new(rect: Rectangle) -> (r: Self)
        ensures
            r.rect == rect,
    {
        JoshutoPanel { rect }
    }

    /// The rows of the panel (see `spec_rows`).
    pub fn rows(&self) -> (r: i32)
        ensures
            r == spec_rows(self.rect.height()),
    {
        let height = self.rect.height();
        if height <= 0x7fff_ffff {
            height as i32
        } else {
            ((height - 0x8000_0000) as i32) + i32::MIN
        }
    }

    /// The rows that are drawn of `dirlist`, one for each entry in its
    /// window, from the top of the panel down.
    pub fn draw_dir_list(&self, dirlist: &JoshutoDirList) -> (r: Vec<DrawRow>)
        requires
            dirlist.wf(),
        ensures
            r@ == spec_draw_rows(
                dirlist@.pagestate.start,
                dirlist@.pagestate.end,
                dirlist@.index,
            ),
            forall|k: int| 0 <= k < r.len() ==> (#[trigger] r[k]).index < dirlist@.contents.len(),
    {
        let pagestate = dirlist.pagestate();
        let start = pagestate.start;
        let end = pagestate.end;
        let selected = dirlist.index();
        let mut rows: Vec<DrawRow> = Vec::new();
        let mut i: usize = start;
        while i < end
            invariant
                start <= i <= end,
                end - start <= i32::MAX,
                end <= dirlist@.contents.len(),
                rows.len() == i - start,
                forall|k: int|
                    0 <= k < rows.len() ==> rows[k] == spec_draw_row(start, selected, start + k),
            decreases end - i,
        {
            let standout = match selected {
                Some(s) => s == i,
                None => false,
            };
            rows.push(DrawRow { index: i, point: Point::new(0, (i - start) as i32), standout });
            i = i + 1;
        }
        assert(rows@ =~= spec_draw_rows(start, end, selected));
        rows
    }

    /// What the panel shows of `dirlist` when the scroll margin is
    /// `scroll_offset`. A panel of fewer than eight columns shows nothing
    /// and leaves the listing alone; so does an empty listing, of which the
    /// panel says that it is empty. Otherwise the window of the listing is
    /// moved to follow the selection, and the rows in it are drawn.
    pub fn display_contents(&self, dirlist: &mut JoshutoDirList, scroll_offset: usize) -> (r:
        DirDisplay)
        requires
            old(dirlist).wf(),
        ensures
            final(dirlist).wf(),
            final(dirlist)@ == spec_shown_list(old(dirlist)@, *self, scroll_offset),
            r@ == spec_dir_display(old(dirlist)@, *self, scroll_offset),
    {
        if self.rect.width() < MIN_LIST_WIDTH {
            return DirDisplay::TooNarrow;
        }
        if dirlist.len() == 0 {
            return DirDisplay::Empty;
        }
        let rows = self.rows();
        dirlist.update_page_state(rows, scroll_offset);
        proof {
            crate::page_state::lemma_update_bounds(
                old(dirlist)@.pagestate.start as int,
                old(dirlist)@.index->0 as int,
                rows as int,
                old(dirlist)@.contents.len() as int,
                scroll_offset as int,
            );
        }
        DirDisplay::List(self.draw_dir_list(dirlist))
    }
}

/// The six panels of the screen.
#[derive(Clone, Copy, Debug, PartialEq, Eq)]
pub struct JoshutoView {
    pub window_top: JoshutoPanel,
    pub window_bot: JoshutoPanel,
    pub window_left: JoshutoPanel,
    pub window_right: JoshutoPanel,
    pub window_mid: JoshutoPanel,
    pub window_tab: JoshutoPanel,
    pub window_ratio: (u32, u32, u32),
}

/// The panel between the corners `(min_x, min_y)` and `(max_x, max_y)`.
pub open spec fn spec_panel(min_x: int, min_y: int, max_x: int, max_y: int) -> JoshutoPanel {
    JoshutoPanel {
        rect: Rectangle {
            min: Point { x: min_x as i32, y: min_y as i32 },
            max: Point { x: max_x as i32, y: max_y as i32 },
        },
    }
}

/// The columns that one share of the ratio gets on a terminal of `width`
/// columns.
pub open spec fn spec_divide(window_ratio: (u32, u32, u32), width: int) -> int {
    width / (window_ratio.0 + window_ratio.1 + window_ratio.2)
}

/// The panels on a terminal of `width` columns and `height` rows whose
/// three columns of listings share the width as `window_ratio` says. A
/// corner has the column in `x` and the row in `y`.
///
/// The title has the first row but for the last five columns, which the
/// tab counter has; the status has the last row; the listings have the
/// rows between. The left column starts at the left edge and the middle
/// one where the shares of the left one end; each leaves its last column
/// free. The right column starts as many shares from the left edge as it
/// is wide.
pub open spec fn spec_view(window_ratio: (u32, u32, u32), width: int, height: int) -> JoshutoView {
    let divide = spec_divide(window_ratio, width);
    let left = divide * window_ratio.0;
    let mid = divide * window_ratio.1;
    let right = divide * window_ratio.2;
    JoshutoView {
        window_top: spec_panel(0, 0, width - 5, 1),
        window_bot: spec_panel(0, height - 1, width, height),
        window_left: spec_panel(0, 1, left - 1, height - 1),
        window_right: spec_panel(right, 1, right + right - 1, height - 1),
        window_mid: spec_panel(left, 1, left + mid - 1, height - 1),
        window_tab: spec_panel(width - 5, 0, width, 1),
        window_ratio,
    }
}

/// One share times a part of the ratio is no more than the width.
proof fn lemma_share(width: int, sum: int, part: int)
    requires
        0 <= width,
        0 <= part <= sum,
        0 < sum,
    ensures
        0 <= (width / sum) * part <= width,
{
    assert(0 <= width / sum) by (nonlinear_arith)
        requires
            0 <= width,
            0 < sum,
    ;
    assert((width / sum) * sum <= width) by (nonlinear_arith)
        requires
            0 <= width,
            0 < sum,
    ;
    assert((width / sum) * part <= (width / sum) * sum) by (nonlinear_arith)
        requires
            0 <= width / sum,
            part <= sum,
    ;
    assert(0 <= (width / sum) * part) by (nonlinear_arith)
        requires
            0 <= width / sum,
            0 <= part,
    ;
}

impl JoshutoView {
    /// Lays out the panels on a terminal of `width` columns and `height`
    /// rows (see `spec_view`).
    pub fn new(window_ratio: (u32, u32, u32), width: i32, height: i32) -> (r: Self)
        requires
            0 < window_ratio.0 + window_ratio.1 + window_ratio.2 <= i32::MAX,
            0 <= width <= 0x3fff_ffff,
            0 <= height,
        ensures
            r == spec_view(window_ratio, width as int, height as int),
    {
        let ratio_sum: u32 = window_ratio.0 + window_ratio.1 + window_ratio.2;
        let terminal_divide: i32 = width / (ratio_sum as i32);
        proof {
            lemma_share(width as int, ratio_sum as int, window_ratio.0 as int);
            lemma_share(width as int, ratio_sum as int, window_ratio.1 as int);
            lemma_share(width as int, ratio_sum as int, window_ratio.2 as int);
        }
        let left: i32 = terminal_divide * (window_ratio.0 as i32);
        let mid: i32 = terminal_divide * (window_ratio.1 as i32);
        let right: i32 = terminal_divide * (window_ratio.2 as i32);
        JoshutoView {
            window_top: JoshutoPanel::new(
                Rectangle::new(Point::origin(), Point::new(width - 5, 1)),
            ),
            window_bot: JoshutoPanel::new(
                Rectangle::new(Point::new(0, height - 1), Point::new(width, height)),
            ),
            window_left: JoshutoPanel::new(
                Rectangle::new(Point::new(0, 1), Point::new(left - 1, height - 1)),
            ),
            window_right: JoshutoPanel::new(
                Rectangle::new(Point::new(right, 1), Point::new(right + right - 1, height - 1)),
            ),
            window_mid: JoshutoPanel::new(
                Rectangle::new(Point::new(left, 1), Point::new(left + mid - 1, height - 1)),
            ),
            window_tab: JoshutoPanel::new(
                Rectangle::new(Point::new(width - 5, 0), Point::new(width, 1)),
            ),
            window_ratio,
        }
    }

    /// Lays the panels out anew on a terminal of `width` columns and
    /// `height` rows, with the ratio that the view has.
    pub fn resize_views(&mut self, width: i32, height: i32)
        requires
            0 < old(self).window_ratio.0 + old(self).window_ratio.1 + old(self).window_ratio.2
                <= i32::MAX,
            0 <= width <= 0x3fff_ffff,
            0 <= height,
        ensures
            *final(self) == spec_view(old(self).window_ratio, width as int, height as int),
    {
        let new_view = Self::new(self.window_ratio, width, height);
        self.window_top = new_view.window_top;
        self.window_bot = new_view.window_bot;
        self.window_left = new_view.window_left;
        self.window_right = new_view.window_right;
        self.window_mid = new_view.window_mid;
        self.window_tab = new_view.window_tab;
    }
}

} // verus!
