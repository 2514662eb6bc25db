use vstd::prelude::*;

use crate::datatypes::Coords;
use crate::styles::{Styles, UseStyles};

verus! {

/// The cursor: where the next write goes, how it looks, and the decorations
/// that written cells take.
#[derive(Clone, Copy, PartialEq, Eq, Structural, Debug)]
pub struct Cursor {
    pub coords: Coords,
    pub style: Styles,
    pub text_style: UseStyles,
}

impl Cursor {
    pub open spec fn new_spec() -> Cursor {
        Cursor {
            coords: Coords { x: 0, y: 0 },
            style: Styles::initial(),
            text_style: UseStyles::Default,
        }
    }

    /// A cursor at the top left corner with default styles.
    pub fn new() -> (r: Cursor)
        ensures
            r == Cursor::new_spec(),
    {
        Cursor { coords: Coords { x: 0, y: 0 }, style: Styles::new(), text_style: UseStyles::Default }
    }
}

} // verus!
