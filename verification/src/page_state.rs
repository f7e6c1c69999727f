//! The scrolling window over a directory listing.

use vstd::prelude::*;

verus! {

/// The half-open range `start..end` of a listing that is drawn.
#[derive(Clone, Copy, Debug, PartialEq, Eq, Structural)]
pub struct JoshutoPageState {
    pub start: usize,
    pub end: usize,
}

/// The window of `rows` rows that begins at `start`, cut off at the end of a
/// listing of `len` entries.
pub open spec fn spec_sized(start: int, rows: int, len: int) -> (int, int) {
    (start, vstd::math::min(len, start + rows))
}

/// The window re-anchored so that `margin` entries are kept above `index`,
/// pulled back to full height where the listing ends early.
pub open spec fn spec_top_anchor(index: int, rows: int, len: int, margin: int) -> (int, int) {
    let start = vstd::math::max(0, index - margin);
    let end = vstd::math::min(len, start + rows);
    (vstd::math::max(0, end - rows), end)
}

/// The window re-anchored so that it ends `margin` entries below `index`.
pub open spec fn spec_bottom_anchor(index: int, rows: int, len: int, margin: int) -> (int, int) {
    let end = vstd::math::min(len, index + margin);
    let start = vstd::math::max(0, end - rows);
    (start, vstd::math::min(len, start + rows))
}

/// The window that follows one that began at `start`, once the selection is
/// at `index` in a listing of `len` entries drawn in `rows` rows with a
/// scroll margin of `margin`.
///
/// A window without rows is empty. Otherwise the window is first given its
/// height again, then moved up if the selection is within the margin of its
/// top, then moved down if the selection is within the margin of its end.
pub open spec fn spec_update(start: int, index: int, rows: int, len: int, margin: int) -> (
    int,
    int,
) {
    if rows <= 0 {
        (0, 0)
    } else {
        let sized = spec_sized(start, rows, len);
        let topped = if sized.0 + margin >= index {
            spec_top_anchor(index, rows, len, margin)
        } else {
            sized
        };
        if topped.1 <= index + margin {
            spec_bottom_anchor(index, rows, len, margin)
        } else {
            topped
        }
    }
}

/// Whether the margin lets the window hold the selection: a margin of zero
/// does not when the selection lies at or below the end of the old window,
/// and a margin above the window's height does not when more than a window
/// of entries follows the selection.
pub open spec fn spec_margin_keeps_index(
    start: int,
    index: int,
    rows: int,
    len: int,
    margin: int,
) -> bool {
    &&& !(margin == 0 && start + rows <= index)
    &&& !(margin > rows && index + rows < len)
}

/// `min(cap, a + b)`, computed without overflow.
fn capped_sum(a: usize, b: usize, cap: usize) -> (r: usize)
    ensures
        r == vstd::math::min(cap as int, a + b),
{
    if a >= cap || b >= cap - a {
        cap
    } else {
        a + b
    }
}

/// Whether `a + b >= c`, computed without overflow.
fn sum_reaches(a: usize, b: usize, c: usize) -> (r: bool)
    ensures
        r == (a + b >= c),
{
    a >= c || b >= c - a
}

impl JoshutoPageState {
    /// The empty window at the top of a listing.
    pub fn new() -> (r: Self)
        ensures
            r.start == 0,
            r.end == 0,
    {
        JoshutoPageState { start: 0, end: 0 }
    }

    /// Moves the window so that it follows the selection at `index` in a
    /// listing of `vec_len` entries drawn in `win_rows` rows, keeping
    /// `offset` entries between the selection and either edge where it can.
    /// The old `end` is not read: the height is taken from `win_rows`.
    pub fn update_page_state(&mut self, index: usize, win_rows: i32, vec_len: usize, offset: usize)
        ensures
            (final(self).start as int, final(self).end as int) == spec_update(
                old(self).start as int,
                index as int,
                win_rows as int,
                vec_len as int,
                offset as int,
            ),
            final(self).start <= final(self).end <= vec_len,
            final(self).end - final(self).start <= vstd::math::max(0, win_rows as int),
    {
        if win_rows <= 0 {
            self.start = 0;
            self.end = 0;
            return ;
        }
        let rows: usize = win_rows as usize;
        self.end = capped_sum(self.start, rows, vec_len);
        if sum_reaches(self.start, offset, index) {
            self.start = if index <= offset {
                0
            } else {
                index - offset
            };
            self.end = capped_sum(self.start, rows, vec_len);
            self.start = if self.end <= rows {
                0
            } else {
                self.end - rows
            };
        }
        if sum_reaches(index, offset, self.end) {
            self.end = capped_sum(index, offset, vec_len);
            self.start = if self.end <= rows {
                0
            } else {
                self.end - rows
            };
            self.end = capped_sum(self.start, rows, vec_len);
        }
        proof {
            lemma_update_bounds(
                old(self).start as int,
                index as int,
                win_rows as int,
                vec_len as int,
                offset as int,
            );
        }
    }
}

/// The window always lies inside the listing and is never higher than the
/// rows it is drawn in.
pub proof fn lemma_update_bounds(start: int, index: int, rows: int, len: int, margin: int)
    requires
        0 <= start,
        0 <= index,
        0 <= len,
        0 <= margin,
    ensures
        ({
            let w = spec_update(start, index, rows, len, margin);
            &&& 0 <= w.0 <= w.1 <= len
            &&& w.1 - w.0 <= vstd::math::max(0, rows)
        }),
{
}

/// The window has its full height unless it ends where the listing ends.
pub proof fn lemma_update_full_unless_at_end(
    start: int,
    index: int,
    rows: int,
    len: int,
    margin: int,
)
    requires
        0 <= start,
        0 <= index,
        0 <= len,
        0 < rows,
        0 <= margin,
    ensures
        ({
            let w = spec_update(start, index, rows, len, margin);
            w.1 - w.0 == rows || w.1 == len
        }),
{
}

/// The window holds a selection that lies in the listing exactly when the
/// margin allows it (see `spec_margin_keeps_index`).
pub proof fn lemma_update_contains_index(start: int, index: int, rows: int, len: int, margin: int)
    requires
        0 <= start,
        0 <= index < len,
        0 < rows,
        0 <= margin,
    ensures
        ({
            let w = spec_update(start, index, rows, len, margin);
            (w.0 <= index < w.1) <==> spec_margin_keeps_index(start, index, rows, len, margin)
        }),
{
}

/// Where the margin allows it, the window of a listing holds the
/// selection, is no higher than the rows it is drawn in, and lies inside
/// the listing.
pub proof fn lemma_update_containment(start: int, index: int, rows: int, len: int, margin: int)
    requires
        0 <= start,
        0 <= index < len,
        0 < rows,
        0 <= margin,
        spec_margin_keeps_index(start, index, rows, len, margin),
    ensures
        ({
            let w = spec_update(start, index, rows, len, margin);
            &&& w.0 <= index < w.1
            &&& w.1 - w.0 <= rows
            &&& 0 <= w.0 <= w.1 <= len
        }),
{
}

/// Updating a window a second time with the same arguments leaves it as the
/// first update made it.
pub proof fn lemma_update_idempotent(start: int, index: int, rows: int, len: int, margin: int)
    requires
        0 <= start,
        0 <= index,
        0 <= len,
        0 <= margin,
    ensures
        ({
            let w = spec_update(start, index, rows, len, margin);
            spec_update(w.0, index, rows, len, margin) == w
        }),
{
}

} // verus!
