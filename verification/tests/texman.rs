use kubi::texman::TextureSpace;
use kubi::math::IVec2;

#[test]
fn allocation_has_requested_size_inside_the_texture() {
    let mut space = TextureSpace::new(IVec2 { x: 64, y: 32 });
    assert_eq!(space.size(), IVec2 { x: 64, y: 32 });
    let a = space.allocate(IVec2 { x: 10, y: 8 }).expect("room for 10x8");
    assert_eq!(a.size, IVec2 { x: 10, y: 8 });
    assert_eq!(a.in_texture_size(), IVec2 { x: 64, y: 32 });
    assert!(a.position.x >= 1 && a.position.x + 10 + 1 <= 64);
    assert!(a.position.y >= 1 && a.position.y + 8 + 1 <= 32);
}

#[test]
fn allocations_do_not_overlap() {
    let mut space = TextureSpace::new(IVec2 { x: 64, y: 64 });
    let a = space.allocate(IVec2 { x: 20, y: 20 }).expect("first");
    let b = space.allocate(IVec2 { x: 20, y: 20 }).expect("second");
    let disjoint = a.position.x + 20 <= b.position.x
        || b.position.x + 20 <= a.position.x
        || a.position.y + 20 <= b.position.y
        || b.position.y + 20 <= a.position.y;
    assert!(disjoint);
}

#[test]
fn empty_or_oversized_rectangles_are_refused() {
    let mut space = TextureSpace::new(IVec2 { x: 16, y: 16 });
    assert!(space.allocate(IVec2 { x: 0, y: 4 }).is_none());
    assert!(space.allocate(IVec2 { x: 4, y: -1 }).is_none());
    assert!(space.allocate(IVec2 { x: 16, y: 4 }).is_none());
    assert!(space.allocate(IVec2 { x: 14, y: 14 }).is_some());
}

#[test]
fn allocations_are_a_pixel_apart() {
    let mut space = TextureSpace::new(IVec2 { x: 32, y: 32 });
    let mut got = Vec::new();
    while let Some(a) = space.allocate(IVec2 { x: 5, y: 3 }) {
        got.push(a);
    }
    assert!(got.len() >= 2);
    for (i, a) in got.iter().enumerate() {
        assert!(a.position.x >= 1 && a.position.x + 5 + 1 <= 32);
        assert!(a.position.y >= 1 && a.position.y + 3 + 1 <= 32);
        for b in got.iter().skip(i + 1) {
            let apart = a.position.x + 5 + 1 <= b.position.x
                || b.position.x + 5 + 1 <= a.position.x
                || a.position.y + 3 + 1 <= b.position.y
                || b.position.y + 3 + 1 <= a.position.y;
            assert!(apart);
        }
    }
}

#[test]
fn first_allocation_goes_inside_the_border_corner() {
    let mut space = TextureSpace::new(IVec2 { x: 12, y: 7 });
    let a = space.allocate(IVec2 { x: 10, y: 5 }).expect("fits inside the border");
    assert_eq!(a.position, IVec2 { x: 1, y: 1 });
    let mut tight = TextureSpace::new(IVec2 { x: 12, y: 7 });
    assert!(tight.allocate(IVec2 { x: 11, y: 5 }).is_none());
    assert!(tight.allocate(IVec2 { x: -3, y: 5 }).is_none());
}

#[test]
fn allocations_go_where_the_packer_puts_them() {
    let mut space = TextureSpace::new(IVec2 { x: 64, y: 64 });
    let a = space.allocate(IVec2 { x: 10, y: 10 }).expect("first");
    let b = space.allocate(IVec2 { x: 10, y: 10 }).expect("second");
    let c = space.allocate(IVec2 { x: 20, y: 5 }).expect("third");
    assert_eq!(a.position, IVec2 { x: 1, y: 1 });
    // each padded rectangle goes on the lowest free stretch of the skyline, left first
    assert_eq!(b.position, IVec2 { x: 12, y: 1 });
    assert_eq!(c.position, IVec2 { x: 23, y: 1 });
}
