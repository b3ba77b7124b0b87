//! Small integer vectors and rectangles used by the texture and glyph code.

use vstd::prelude::*;

verus! {

/// A pair of signed integers (a position in pixels).
#[derive(Clone, Copy, Debug, PartialEq, Eq, Structural)]
pub struct IVec2 {
    pub x: i32,
    pub y: i32,
}

/// A pair of unsigned integers (a size in pixels).
#[derive(Clone, Copy, Debug, PartialEq, Eq, Structural)]
pub struct UVec2 {
    pub x: u32,
    pub y: u32,
}

/// Two rectangles (x, y, width, height) share no pixel.
pub open spec fn rects_disjoint(a: (int, int, int, int), b: (int, int, int, int)) -> bool {
    ||| a.0 + a.2 <= b.0
    ||| b.0 + b.2 <= a.0
    ||| a.1 + a.3 <= b.1
    ||| b.1 + b.3 <= a.1
}

/// The cell (pixel) `c` = (x, y) lies in the rectangle `r` (x, y, width, height).
pub open spec fn rect_covers(r: (int, int, int, int), c: (int, int)) -> bool {
    r.0 <= c.0 < r.0 + r.2 && r.1 <= c.1 < r.1 + r.3
}

/// The cells below a skyline: a skyline is a run of segments (left, y, width), and the
/// cells of a segment's columns from the top (row 0) down to its `y` lie below it.
pub open spec fn skyline_used(skyline: Seq<(int, int, int)>) -> Set<(int, int)> {
    Set::new(|c: (int, int)| exists|i: int|
        0 <= i < skyline.len() && (#[trigger] skyline[i]).0 <= c.0 < skyline[i].0 + skyline[i].2
            && 0 <= c.1 < skyline[i].1)
}

/// The skyline a packer starts with on an area `width` wide: one segment, at the top.
pub open spec fn fresh_skyline(width: int) -> Seq<(int, int, int)> {
    seq![(0int, 0int, width)]
}

/// Two non-empty rectangles that share no cell do not overlap.
pub proof fn lemma_no_shared_cell_disjoint(a: (int, int, int, int), b: (int, int, int, int))
    requires
        0 < a.2 && 0 < a.3,
        0 < b.2 && 0 < b.3,
        forall|c: (int, int)| !(#[trigger] rect_covers(a, c) && rect_covers(b, c)),
    ensures
        rects_disjoint(a, b),
{
    if !rects_disjoint(a, b) {
        let c = (if a.0 < b.0 { b.0 } else { a.0 }, if a.1 < b.1 { b.1 } else { a.1 });
        assert(rect_covers(a, c) && rect_covers(b, c));
    }
}

} // verus!
