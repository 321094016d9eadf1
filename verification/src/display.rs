//! The state of one display at one instant.

use vstd::prelude::*;
use crate::geometry::{Origin, ScaleFactor, Size};
use crate::id::{DisplayId, DisplayIdView, Position};

verus! {

/// A display.
///
/// The identity says which display it is; the other fields are its state at
/// the instant it was captured.
#[derive(Debug)]
pub struct Display {
    /// The unique identifier of the display.
    pub id: DisplayId,
    /// The origin of the display.
    pub origin: Origin,
    /// The size of the display.
    pub size: Size,
    /// The scale factor of the display, where the platform reports one.
    pub scale_factor: Option<ScaleFactor>,
    /// Whether the display is the primary monitor.
    pub is_primary: bool,
    /// Whether the display is mirrored.
    pub is_mirrored: bool,
}

/// What a [`Display`] is, as a mathematical value.
pub struct DisplayView {
    pub id: DisplayIdView,
    pub origin: Origin,
    pub size: Size,
    pub scale_factor: Option<ScaleFactor>,
    pub is_primary: bool,
    pub is_mirrored: bool,
}

fn same_scale(a: &Option<ScaleFactor>, b: &Option<ScaleFactor>) -> (r: bool)
    ensures
        r == (*a == *b),
{
    match (a, b) {
        (Some(x), Some(y)) => x.dpi == y.dpi,
        (None, None) => true,
        _ => false,
    }
}

impl Display {
    pub open spec fn view(&self) -> DisplayView {
        DisplayView {
            id: self.id@,
            origin: self.origin,
            size: self.size,
            scale_factor: self.scale_factor,
            is_primary: self.is_primary,
            is_mirrored: self.is_mirrored,
        }
    }

    /// Whether both hold the same identity in the same state.
    pub fn same(&self, other: &Display) -> (r: bool)
        ensures
            r == (self@ == other@),
    {
        self.id.position(&other.id) == Position::Same && self.origin == other.origin && self.size
            == other.size && same_scale(&self.scale_factor, &other.scale_factor) && self.is_primary
            == other.is_primary && self.is_mirrored == other.is_mirrored
    }
}

impl Clone for Display {
    fn clone(&self) -> (r: Self)
        ensures
            r@ == self@,
    {
        Display {
            id: self.id.clone(),
            origin: self.origin,
            size: self.size,
            scale_factor: self.scale_factor,
            is_primary: self.is_primary,
            is_mirrored: self.is_mirrored,
        }
    }
}

impl PartialEq for Display {
    fn eq(&self, other: &Self) -> (r: bool) {
        self.same(other)
    }
}

impl vstd::std_specs::cmp::PartialEqSpecImpl for Display {
    open spec fn obeys_eq_spec() -> bool {
        true
    }

    open spec fn eq_spec(&self, other: &Self) -> bool {
        self@ == other@
    }
}

} // verus!
