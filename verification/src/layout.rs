//! Layout primitives shared by the UI elements.

use vstd::prelude::*;

verus! {

/// Direction in which a container lays out its children.
#[derive(Clone, Copy, Debug, PartialEq, Eq, Structural)]
pub enum UiDirection {
    Vertical,
    Horizontal,
}

impl Default for UiDirection {
    fn default() -> (d: Self)
        ensures
            d == UiDirection::Vertical,
    {
        UiDirection::Vertical
    }
}

/// Alignment of children inside a container along one axis.
#[derive(Clone, Copy, Debug, PartialEq, Eq, Structural)]
pub enum Alignment {
    Begin,
    Center,
    End,
}

/// Alignment used by the first-generation container element.
#[derive(Clone, Copy, Debug, PartialEq, Eq, Structural)]
pub enum ContainerAlign {
    Begin,
    Center,
    End,
}

/// Direction of the standalone layout box of the in-game GUI.
#[derive(Clone, Copy, Debug, PartialEq, Eq, Structural)]
pub enum LayoutDirection {
    Horizontal,
    Vertical,
}

/// A value for each of the four sides of a rectangle.
#[derive(Clone, Copy, Debug, PartialEq, Eq)]
pub struct Sides<T> {
    pub top: T,
    pub bottom: T,
    pub left: T,
    pub right: T,
}

impl<T: Clone> Sides<T> {
    /// The same value on every side.
    pub fn all(value: T) -> (s: Self)
        ensures
            cloned(value, s.top),
            cloned(value, s.bottom),
            cloned(value, s.left),
            s.right == value,
    {
        Sides { top: value.clone(), bottom: value.clone(), left: value.clone(), right: value }
    }

    /// `horizontal` on the left and right sides, `vertical` on the top and bottom.
    pub fn horizontal_vertical(horizontal: T, vertical: T) -> (s: Self)
        ensures
            cloned(vertical, s.top),
            s.bottom == vertical,
            cloned(horizontal, s.left),
            s.right == horizontal,
    {
        Sides {
            top: vertical.clone(),
            bottom: vertical,
            left: horizontal.clone(),
            right: horizontal,
        }
    }
}

} // verus!
