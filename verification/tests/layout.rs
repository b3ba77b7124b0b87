use kubi::layout::{Sides, UiDirection, Alignment};

#[test]
fn sides_all_sets_every_side() {
    let s = Sides::all(5.0f32);
    assert_eq!(s.top, 5.0);
    assert_eq!(s.bottom, 5.0);
    assert_eq!(s.left, 5.0);
    assert_eq!(s.right, 5.0);
}

#[test]
fn sides_horizontal_vertical_splits_axes() {
    let s = Sides::horizontal_vertical(3u32, 7u32);
    assert_eq!(s, Sides { top: 7, bottom: 7, left: 3, right: 3 });
}

#[test]
fn sides_all_with_non_copy_values() {
    let s = Sides::all(String::from("x"));
    assert_eq!(s.top, "x");
    assert_eq!(s.right, "x");
}

#[test]
fn ui_direction_defaults_to_vertical() {
    assert_eq!(UiDirection::default(), UiDirection::Vertical);
    assert_ne!(Alignment::Begin, Alignment::End);
}
