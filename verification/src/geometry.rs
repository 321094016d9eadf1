//! Plain geometric values of a display: where it sits, how large it is and
//! how strongly its contents are scaled.

use vstd::prelude::*;

verus! {

/// The position of a display's top-left corner in the global desktop space.
#[derive(Debug, Clone, Copy, PartialEq, Eq, Hash, Structural)]
pub struct Origin {
    pub x: i32,
    pub y: i32,
}

/// The extent of a display.
#[derive(Debug, Clone, Copy, PartialEq, Eq, Hash, Structural)]
pub struct Size {
    pub width: u32,
    pub height: u32,
}

/// The scale of a display, held as its effective dots per inch.
///
/// A value of [`USER_DEFAULT_SCREEN_DPI`] stands for a scale of exactly one.
#[derive(Debug, Clone, Copy, PartialEq, Eq, Hash, Structural)]
pub struct ScaleFactor {
    pub dpi: u32,
}

/// The dots per inch at which nothing is scaled.
pub const USER_DEFAULT_SCREEN_DPI: u32 = 96;

impl Origin {
    pub fn new(x: i32, y: i32) -> (r: Self)
        ensures
            r == (Origin { x, y }),
    {
        Origin { x, y }
    }
}

impl Size {
    pub fn new(width: u32, height: u32) -> (r: Self)
        ensures
            r == (Size { width, height }),
    {
        Size { width, height }
    }
}

impl ScaleFactor {
    pub fn from_dpi(dpi: u32) -> (r: Self)
        ensures
            r == (ScaleFactor { dpi }),
    {
        ScaleFactor { dpi }
    }
}

} // verus!
