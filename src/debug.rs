//! Colors used to tell nodes apart while debugging a layout.

use vstd::prelude::*;

verus! {

/// Color for debugging
#[derive(Debug, Copy, Clone, PartialEq, Eq, Structural)]
pub struct DebugColor {
    pub r: u8,
    pub g: u8,
    pub b: u8,
    pub a: u8,
}

impl DebugColor {
    /// Returns a blue color
    pub fn blue() -> (c: Self)
        ensures
            c == (DebugColor { r: 0, g: 0, b: 240, a: 0 }),
    {
        Self { r: 0, g: 0, b: 240, a: 0 }
    }

    /// Returns a red color
    pub fn red() -> (c: Self)
        ensures
            c == (DebugColor { r: 240, g: 0, b: 0, a: 0 }),
    {
        Self { r: 240, g: 0, b: 0, a: 0 }
    }

    /// Returns a green color
    pub fn green() -> (c: Self)
        ensures
            c == (DebugColor { r: 0, g: 240, b: 0, a: 0 }),
    {
        Self { r: 0, g: 240, b: 0, a: 0 }
    }

    /// Returns a yellow color
    pub fn yellow() -> (c: Self)
        ensures
            c == (DebugColor { r: 255, g: 255, b: 0, a: 0 }),
    {
        Self { r: 255, g: 255, b: 0, a: 0 }
    }
}

} // verus!
