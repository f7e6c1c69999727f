//! Points, rectangles and the search for a file in a list of directories.

use crate::path::JoshutoPath;
use vstd::prelude::*;

verus! {

/// A cell of the terminal.
#[derive(Clone, Copy, Debug, PartialEq, Eq, Structural)]
pub struct Point {
    pub x: i32,
    pub y: i32,
}

impl Point {
    pub fn new(x: i32, y: i32) -> (r: Point)
        ensures
            r.x == x,
            r.y == y,
    {
        Point { x, y }
    }

    pub fn origin() -> (r: Point)
        ensures
            r.x == 0,
            r.y == 0,
    {
        Point { x: 0, y: 0 }
    }
}

/// The distance from `lo` to `hi` as an unsigned number of 32 bits: where
/// `hi` is below `lo` it wraps around.
pub open spec fn spec_span(lo: i32, hi: i32) -> int {
    if hi >= lo {
        hi - lo
    } else {
        hi - lo + 0x1_0000_0000
    }
}

/// `spec_span`, computed.
fn span(lo: i32, hi: i32) -> (r: u32)
    ensures
        r == spec_span(lo, hi),
{
    let d: i64 = hi as i64 - lo as i64;
    if d >= 0 {
        d as u32
    } else {
        (d + 0x1_0000_0000) as u32
    }
}

/// The part of the terminal between two corners.
#[derive(Clone, Copy, Debug, PartialEq, Eq, Structural)]
pub struct Rectangle {
    pub min: Point,
    pub max: Point,
}

impl Rectangle {
    pub fn new(min: Point, max: Point) -> (r: Rectangle)
        ensures
            r.min == min,
            r.max == max,
    {
        Rectangle { min, max }
    }

    /// How far the corners are apart along `x`.
    pub open spec fn spec_width(&self) -> u32 {
        spec_span(self.min.x, self.max.x) as u32
    }

    /// How far the corners are apart along `y`.
    pub open spec fn spec_height(&self) -> u32 {
        spec_span(self.min.y, self.max.y) as u32
    }

    /// How far the corners are apart along `x`.
    #[verifier::when_used_as_spec(spec_width)]
    pub fn width(&self) -> (r: u32)
        ensures
            r == spec_span(self.min.x, self.max.x),
            r == self.spec_width(),
    {
        span(self.min.x, self.max.x)
    }

    /// How far the corners are apart along `y`.
    #[verifier::when_used_as_spec(spec_height)]
    pub fn height(&self) -> (r: u32)
        ensures
            r == spec_span(self.min.y, self.max.y),
            r == self.spec_height(),
    {
        span(self.min.y, self.max.y)
    }
}

/// Whether `i` is the first of the first `n` places at which `present` is
/// true.
pub open spec fn spec_first_present_at(present: Seq<bool>, n: int, i: int) -> bool {
    &&& 0 <= i < n
    &&& i < present.len()
    &&& present[i]
    &&& forall|j: int| 0 <= j < i ==> !present[j]
}

/// Whether `present` is true at one of its first `n` places.
pub open spec fn spec_any_present(present: Seq<bool>, n: int) -> bool {
    exists|i: int| 0 <= i < n && i < present.len() && present[i]
}

/// Searches a list of directories for a file, in the order of preference
/// in which they are given.
///
/// `present[i]` says whether the file `filename` was found in
/// `directories[i]`; a directory of which `present` says nothing counts as
/// one without the file. The result is the path of the file in the first
/// directory that has it.
pub fn search_directories(filename: &str, directories: &Vec<JoshutoPath>, present: &Vec<bool>) -> (r:
    Option<JoshutoPath>)
    ensures
        r is Some == spec_any_present(present@, directories@.len() as int),
        r matches Some(found) ==> exists|i: int|
            spec_first_present_at(present@, directories@.len() as int, i) && found@
                == directories@[i]@.push(filename@),
{
    let n = if directories.len() < present.len() {
        directories.len()
    } else {
        present.len()
    };
    let mut i: usize = 0;
    while i < n
        invariant
            i <= n,
            n <= directories.len(),
            n <= present.len(),
            n == directories.len() || n == present.len(),
            forall|j: int| 0 <= j < i ==> !present[j],
        decreases n - i,
    {
        if present[i] {
            let found = directories[i].join(filename);
            assert(spec_first_present_at(present@, directories@.len() as int, i as int));
            return Some(found);
        }
        i = i + 1;
    }
    None
}

} // verus!
