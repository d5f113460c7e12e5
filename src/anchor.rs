use vstd::prelude::*;

verus! {

/// How an asset is positioned relative to its transform; `Center` by default.
#[derive(Clone, Copy, Debug, PartialEq, Eq, Structural)]
pub enum VelloLottieAnchor {
    /// Bounds start from the render position and advance up and to the right.
    BottomLeft,
    /// Bounds start from the render position and advance up.
    Bottom,
    /// Bounds start from the render position and advance up and to the left.
    BottomRight,
    /// Bounds start from the render position and advance right.
    Left,
    /// Bounds start from the render position and advance equally on both axes.
    Center,
    /// Bounds start from the render position and advance left.
    Right,
    /// Bounds start from the render position and advance down and to the right.
    TopLeft,
    /// Bounds start from the render position and advance down.
    Top,
    /// Bounds start from the render position and advance down and to the left.
    TopRight,
}

/// The shift of the render position, in half-widths and half-heights.
pub open spec fn anchor_shift(a: VelloLottieAnchor) -> (int, int) {
    match a {
        VelloLottieAnchor::TopLeft => (1, -1),
        VelloLottieAnchor::Left => (1, 0),
        VelloLottieAnchor::BottomLeft => (1, 1),
        VelloLottieAnchor::Top => (0, -1),
        VelloLottieAnchor::Center => (0, 0),
        VelloLottieAnchor::Bottom => (0, 1),
        VelloLottieAnchor::TopRight => (-1, -1),
        VelloLottieAnchor::Right => (-1, 0),
        VelloLottieAnchor::BottomRight => (-1, 1),
    }
}

impl Default for VelloLottieAnchor {
    fn default() -> (r: VelloLottieAnchor)
        ensures
            r == VelloLottieAnchor::Center,
    {
        VelloLottieAnchor::Center
    }
}

impl VelloLottieAnchor {
    /// How many half-widths (first) and half-heights (second) the render
    /// position moves so that the bounds start where this anchor says.
    pub fn shift(&self) -> (r: (i8, i8))
        ensures
            (r.0 as int, r.1 as int) == anchor_shift(*self),
    {
        match self {
            VelloLottieAnchor::TopLeft => (1, -1),
            VelloLottieAnchor::Left => (1, 0),
            VelloLottieAnchor::BottomLeft => (1, 1),
            VelloLottieAnchor::Top => (0, -1),
            VelloLottieAnchor::Center => (0, 0),
            VelloLottieAnchor::Bottom => (0, 1),
            VelloLottieAnchor::TopRight => (-1, -1),
            VelloLottieAnchor::Right => (-1, 0),
            VelloLottieAnchor::BottomRight => (-1, 1),
        }
    }
}

} // verus!
