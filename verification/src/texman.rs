//! Allocation of rectangles in a texture (a texture atlas), backed by rect_packer.

use vstd::prelude::*;
use rect_packer::{Packer, Config as PackerConfig};
use crate::math::{IVec2, rects_disjoint, rect_covers, skyline_used, fresh_skyline, lemma_no_shared_cell_disjoint};

verus! {

#[verifier::external_type_specification]
#[verifier::external_body]
pub struct ExPacker(Packer);

/// The configuration a packer was created with:
/// (width, height, border padding, rectangle padding).
pub uninterp spec fn packer_config(packer: Packer) -> (int, int, int, int);

/// The skyline of a packer's inner dense packer: its segments (left, y, width), left to
/// right, in the coordinates of the inner area (which lies `border_padding` in from the
/// edges of the packed area).
pub uninterp spec fn packer_skyline(packer: Packer) -> Seq<(int, int, int)>;

/// What `Packer::pack(width, height, false)` does on a packer with configuration `config`
/// whose inner skyline is `skyline`: the position (x, y) it returns and the inner skyline
/// after it, or `None` when it places nothing.
pub uninterp spec fn pack_outcome(config: (int, int, int, int), skyline: Seq<(int, int, int)>, width: int, height: int)
    -> Option<(int, int, Seq<(int, int, int)>)>;

/// The cells (x, y), in the coordinates of the packed area, that a packer's skyline covers
/// (the cells between the top of its inner area and the skyline, shifted by the border
/// padding): no rectangle is placed there any more.
pub open spec fn packer_used(packer: Packer) -> Set<(int, int)> {
    Set::new(|c: (int, int)| skyline_used(packer_skyline(packer)).contains(
        (c.0 - packer_config(packer).2, c.1 - packer_config(packer).2)))
}

/// The rectangle `r` (x, y, width, height) grown by `pad` to the right and downwards: the
/// room that a packer with rectangle padding `pad` reserves for it.
pub open spec fn padded(r: (int, int, int, int), pad: int) -> (int, int, int, int) {
    (r.0, r.1, r.2 + pad, r.3 + pad)
}

/// The width (or height) of the area in which a packer with this configuration places
/// padded rectangles: `max(0, extent + rectangle_padding - 2 * border_padding)`.
pub open spec fn packer_inner(extent: int, border_padding: int, rectangle_padding: int) -> int {
    if extent + rectangle_padding - 2 * border_padding < 0 {
        0
    } else {
        extent + rectangle_padding - 2 * border_padding
    }
}

/// Calls `rect_packer::Packer::new` with the given configuration.
/// Claimed: the packer keeps that configuration, and its inner dense packer, which covers
/// `packer_inner` of each extent, starts with a single skyline segment at the top of its
/// area. The constructor computes
/// `extent + rectangle_padding - 2 * border_padding` in `i32`, hence the `requires` (the
/// paddings are also taken non-negative and the rectangle padding at most the border
/// padding, which is the only use made of it here).
#[verifier::external_body]
fn packer_new(width: i32, height: i32, border_padding: i32, rectangle_padding: i32) -> (packer: Packer)
    requires
        0 <= rectangle_padding <= border_padding <= 0x1000_0000,
        width + rectangle_padding <= i32::MAX,
        height + rectangle_padding <= i32::MAX,
        width + rectangle_padding - 2 * border_padding >= i32::MIN,
        height + rectangle_padding - 2 * border_padding >= i32::MIN,
    ensures
        packer_config(packer) == (width as int, height as int, border_padding as int, rectangle_padding as int),
        packer_skyline(packer) == fresh_skyline(packer_inner(width as int, border_padding as int, rectangle_padding as int)),
{
    Packer::new(PackerConfig { width, height, border_padding, rectangle_padding })
}

/// Calls `rect_packer::Packer::pack(width, height, false)`.
/// Claimed, from `Packer::pack` and the inner `DensePacker::pack` (`can_put`, `split`,
/// `merge`): the result, and the inner skyline afterwards, are [`pack_outcome`] of the
/// configuration, the inner skyline and the request (they depend on nothing else); the
/// configuration is kept; a rectangle that is not positive in both
/// directions gets nothing. A returned position places the `width` by `height` rectangle at
/// least `border_padding` away from every edge (`pack` shifts the inner position, which
/// lies in the inner area, by the border padding). The rectangle grown by the rectangle
/// padding (what the inner packer placed, shifted) covers no cell that the skyline covered
/// before (it is put on top of the skyline over its span), and afterwards the skyline
/// covers it and everything it covered before (skyline heights only grow). When nothing is
/// returned the packer is unchanged (`pack` returns before it changes anything). While the
/// inner skyline is the single segment the packer was created with, a positive rectangle
/// that, grown by the rectangle padding, fits the inner area is placed at its top-left
/// corner, shifted by the border padding. Where other rectangles go is named, not stated.
/// The sums that the packer forms must fit in `i32`, hence the `requires`.
#[verifier::external_body]
fn packer_pack(packer: &mut Packer, width: i32, height: i32) -> (position: Option<IVec2>)
    requires
        0 <= packer_config(*old(packer)).3 <= packer_config(*old(packer)).2,
        width + packer_config(*old(packer)).3 + packer_inner(
            packer_config(*old(packer)).0,
            packer_config(*old(packer)).2,
            packer_config(*old(packer)).3,
        ) <= i32::MAX,
        height + packer_config(*old(packer)).3 + packer_inner(
            packer_config(*old(packer)).1,
            packer_config(*old(packer)).2,
            packer_config(*old(packer)).3,
        ) <= i32::MAX,
    ensures
        packer_config(*final(packer)) == packer_config(*old(packer)),
        (match position {
            Some(p) => {
                &&& pack_outcome(packer_config(*old(packer)), packer_skyline(*old(packer)), width as int, height as int)
                    == Some((p.x as int, p.y as int, packer_skyline(*final(packer))))
                &&& 0 < width
                &&& 0 < height
                &&& packer_config(*old(packer)).2 <= p.x
                &&& p.x + width + packer_config(*old(packer)).2 <= packer_config(*old(packer)).0
                &&& packer_config(*old(packer)).2 <= p.y
                &&& p.y + height + packer_config(*old(packer)).2 <= packer_config(*old(packer)).1
                &&& forall|c: (int, int)|
                    #[trigger] rect_covers(
                        padded((p.x as int, p.y as int, width as int, height as int), packer_config(*old(packer)).3),
                        c,
                    ) ==> !packer_used(*old(packer)).contains(c) && packer_used(*final(packer)).contains(c)
                &&& forall|c: (int, int)| #[trigger] packer_used(*old(packer)).contains(c)
                    ==> packer_used(*final(packer)).contains(c)
            },
            None => {
                &&& pack_outcome(packer_config(*old(packer)), packer_skyline(*old(packer)), width as int, height as int) is None
                &&& *final(packer) == *old(packer)
            },
        }),
        width <= 0 || height <= 0 ==> position is None,
        packer_skyline(*old(packer)) == fresh_skyline(packer_inner(
            packer_config(*old(packer)).0,
            packer_config(*old(packer)).2,
            packer_config(*old(packer)).3,
        )) && 0 < width && 0 < height
            && width + packer_config(*old(packer)).3 <= packer_inner(
                packer_config(*old(packer)).0,
                packer_config(*old(packer)).2,
                packer_config(*old(packer)).3,
            )
            && height + packer_config(*old(packer)).3 <= packer_inner(
                packer_config(*old(packer)).1,
                packer_config(*old(packer)).2,
                packer_config(*old(packer)).3,
            )
            ==> position == Some(IVec2 { x: packer_config(*old(packer)).2 as i32, y: packer_config(*old(packer)).2 as i32 }),
{
    match packer.pack(width, height, false) {
        Some(rect) => Some(IVec2 { x: rect.x, y: rect.y }),
        None => None,
    }
}

/// A rectangle allocated in a texture.
#[derive(Clone, Copy)]
pub struct TextureAllocation {
    pub position: IVec2,
    pub size: IVec2,
    in_texture_size: IVec2,
}

impl TextureAllocation {
    /// The size of the texture the rectangle was allocated in.
    pub closed spec fn texture_size(&self) -> IVec2 {
        self.in_texture_size
    }

    /// Where the rectangle is.
    pub closed spec fn spec_position(&self) -> IVec2 {
        self.position
    }

    /// The size of the rectangle.
    pub closed spec fn spec_size(&self) -> IVec2 {
        self.size
    }

    /// The size of the texture the rectangle was allocated in (for computing its
    /// texture coordinates).
    pub fn in_texture_size(&self) -> (size: IVec2)
        ensures
            size == self.texture_size(),
    {
        self.in_texture_size
    }
}

/// A texture of a fixed size in which rectangles are allocated, one pixel apart and one
/// pixel away from the edges.
pub struct TextureSpace {
    size: IVec2,
    packer: Packer,
    allocations: Ghost<Set<(int, int, int, int)>>,
}

/// The rectangle (x, y, width, height) of an allocation.
pub open spec fn allocation_rect(position: IVec2, size: IVec2) -> (int, int, int, int) {
    (position.x as int, position.y as int, size.x as int, size.y as int)
}

/// The rectangle `r` lies inside a texture of `size`, at least one pixel from every edge.
pub open spec fn inside_with_border(r: (int, int, int, int), size: IVec2) -> bool {
    &&& 0 < r.2 && 0 < r.3
    &&& 1 <= r.0 && r.0 + r.2 + 1 <= size.x
    &&& 1 <= r.1 && r.1 + r.3 + 1 <= size.y
}

impl TextureSpace {
    /// The size of the texture.
    pub closed spec fn spec_size(&self) -> IVec2 {
        self.size
    }

    /// The rectangles allocated so far.
    pub closed spec fn allocated(&self) -> Set<(int, int, int, int)> {
        self.allocations@
    }

    /// The skyline of the packer that places the rectangles.
    pub closed spec fn skyline(&self) -> Seq<(int, int, int)> {
        packer_skyline(self.packer)
    }

    /// The configuration of the packer: the texture size and one pixel of padding.
    pub open spec fn packer_setup(&self) -> (int, int, int, int) {
        (self.spec_size().x as int, self.spec_size().y as int, 1int, 1int)
    }

    /// The packer was made for this texture, with one pixel of padding; every allocated
    /// rectangle lies inside the texture, one pixel from the edges, and any two are at
    /// least one pixel apart; the packer's skyline covers each of them with its padding,
    /// and it is the skyline the packer starts with while nothing is allocated.
    pub closed spec fn wf(&self) -> bool {
        &&& packer_config(self.packer) == (self.size.x as int, self.size.y as int, 1int, 1int)
        &&& forall|r: (int, int, int, int)| #[trigger] self.allocated().contains(r) ==> inside_with_border(r, self.size)
        &&& forall|r1: (int, int, int, int), r2: (int, int, int, int)|
            #![trigger self.allocated().contains(r1), self.allocated().contains(r2)]
            self.allocated().contains(r1) && self.allocated().contains(r2) && r1 != r2 ==>
                rects_disjoint(padded(r1, 1), padded(r2, 1))
        &&& forall|r: (int, int, int, int), c: (int, int)|
            #![trigger self.allocated().contains(r), rect_covers(padded(r, 1), c)]
            self.allocated().contains(r) && rect_covers(padded(r, 1), c) ==> packer_used(self.packer).contains(c)
        &&& self.allocated() == Set::<(int, int, int, int)>::empty()
            ==> packer_skyline(self.packer) == fresh_skyline(packer_inner(self.size.x as int, 1, 1))
    }

    /// An empty texture space of `size`. The packer adds its padding to the size in `i32`,
    /// hence the `requires`.
    pub fn new(size: IVec2) -> (space: Self)
        requires
            size.x < i32::MAX,
            size.y < i32::MAX,
            size.x >= i32::MIN + 1,
            size.y >= i32::MIN + 1,
        ensures
            space.wf(),
            space.spec_size() == size,
            space.allocated() == Set::<(int, int, int, int)>::empty(),
    {
        TextureSpace { size, packer: packer_new(size.x, size.y, 1, 1), allocations: Ghost(Set::empty()) }
    }

    /// The size of the texture.
    pub fn size(&self) -> (size: IVec2)
        ensures
            size == self.spec_size(),
    {
        self.size
    }

    /// Allocate a rectangle of `size`. One comes back exactly when the packer places it,
    /// at the packer's position, and then it has that (positive) size, lies inside the
    /// texture at least one pixel from every edge, is at least one pixel away from every
    /// rectangle allocated before, and records the texture size, and the packer's skyline
    /// is the one that placing it left; `None` when the packer finds no room, and then
    /// nothing changes. A size that is not positive in
    /// both directions gets `None`; the first allocation in an empty texture space
    /// succeeds whenever the rectangle fits inside the one-pixel border, and goes to
    /// (1, 1).
    /// The packer's sums must fit in `i32`, hence the `requires`.
    pub fn allocate(&mut self, size: IVec2) -> (allocation: Option<TextureAllocation>)
        requires
            old(self).wf(),
            size.x + 1 + packer_inner(old(self).spec_size().x as int, 1, 1) <= i32::MAX,
            size.y + 1 + packer_inner(old(self).spec_size().y as int, 1, 1) <= i32::MAX,
        ensures
            final(self).wf(),
            final(self).spec_size() == old(self).spec_size(),
            (allocation is Some <==> pack_outcome(old(self).packer_setup(), old(self).skyline(), size.x as int, size.y as int) is Some),
            (match allocation {
                Some(a) => {
                    &&& pack_outcome(old(self).packer_setup(), old(self).skyline(), size.x as int, size.y as int)
                        == Some((a.spec_position().x as int, a.spec_position().y as int, final(self).skyline()))
                    &&& a.spec_size() == size
                    &&& a.texture_size() == old(self).spec_size()
                    &&& inside_with_border(allocation_rect(a.spec_position(), size), old(self).spec_size())
                    &&& forall|r: (int, int, int, int)| #[trigger] old(self).allocated().contains(r)
                        ==> rects_disjoint(padded(r, 1), padded(allocation_rect(a.spec_position(), size), 1))
                    &&& final(self).allocated() == old(self).allocated().insert(allocation_rect(a.spec_position(), size))
                },
                None => final(self).allocated() == old(self).allocated() && final(self).skyline() == old(self).skyline(),
            }),
            size.x <= 0 || size.y <= 0 ==> allocation is None,
            old(self).allocated() == Set::<(int, int, int, int)>::empty() && 0 < size.x && 0 < size.y
                && size.x + 2 <= old(self).spec_size().x && size.y + 2 <= old(self).spec_size().y
                ==> (allocation matches Some(a) && a.spec_position() == (IVec2 { x: 1, y: 1 })),
    {
        let ghost before = self.allocations@;
        let ghost used_before = packer_used(self.packer);
        let ghost packer_before = self.packer;
        let position = match packer_pack(&mut self.packer, size.x, size.y) {
            Some(position) => position,
            None => {
                return None;
            },
        };
        let ghost fresh = allocation_rect(position, size);
        proof {
            assert(packer_config(packer_before).3 == 1);
            assert(padded(fresh, packer_config(packer_before).3) == padded(fresh, 1));
            assert forall|c: (int, int)| #[trigger] rect_covers(padded(fresh, 1), c)
                implies !used_before.contains(c) && packer_used(self.packer).contains(c) by {
                assert(rect_covers(padded((position.x as int, position.y as int, size.x as int, size.y as int),
                    packer_config(packer_before).3), c));
            }
            assert forall|c: (int, int)| #[trigger] used_before.contains(c) implies packer_used(self.packer).contains(c) by {
                assert(packer_used(packer_before).contains(c));
            }
            assert forall|r: (int, int, int, int)| #[trigger] before.contains(r)
                implies rects_disjoint(padded(r, 1), padded(fresh, 1)) by {
                assert forall|c: (int, int)| !(#[trigger] rect_covers(padded(r, 1), c) && rect_covers(padded(fresh, 1), c)) by {
                    if rect_covers(padded(r, 1), c) {
                        assert(used_before.contains(c));
                    }
                }
                lemma_no_shared_cell_disjoint(padded(r, 1), padded(fresh, 1));
            }
        }
        self.allocations = Ghost(before.insert(fresh));
        proof {
            assert forall|r: (int, int, int, int)| #[trigger] self.allocated().contains(r) implies inside_with_border(r, self.size) by {
                if r != fresh {
                    assert(before.contains(r));
                }
            }
            assert forall|r1: (int, int, int, int), r2: (int, int, int, int)|
                #![trigger self.allocated().contains(r1), self.allocated().contains(r2)]
                self.allocated().contains(r1) && self.allocated().contains(r2) && r1 != r2 implies
                    rects_disjoint(padded(r1, 1), padded(r2, 1)) by {
                if r1 == fresh {
                    assert(before.contains(r2));
                    assert(rects_disjoint(padded(r2, 1), padded(fresh, 1)));
                } else if r2 == fresh {
                    assert(before.contains(r1));
                } else {
                    assert(before.contains(r1) && before.contains(r2));
                }
            }
            assert forall|r: (int, int, int, int), c: (int, int)|
                #![trigger self.allocated().contains(r), rect_covers(padded(r, 1), c)]
                self.allocated().contains(r) && rect_covers(padded(r, 1), c) implies packer_used(self.packer).contains(c) by {
                if r != fresh {
                    assert(before.contains(r));
                    assert(used_before.contains(c));
                }
            }
            assert(self.allocated().contains(fresh));
        }
        Some(TextureAllocation { position, size, in_texture_size: self.size })
    }
}

/// Allocations never collide: every rectangle that a texture space has handed out lies
/// inside the texture, one pixel from the edges, and any two of them are at least one
/// pixel apart.
pub proof fn lemma_allocations_apart(space: TextureSpace, r1: (int, int, int, int), r2: (int, int, int, int))
    requires
        space.wf(),
        space.allocated().contains(r1),
        space.allocated().contains(r2),
        r1 != r2,
    ensures
        inside_with_border(r1, space.spec_size()),
        inside_with_border(r2, space.spec_size()),
        rects_disjoint(padded(r1, 1), padded(r2, 1)),
{
}

} // verus!
