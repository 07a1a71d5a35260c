//! The drawing data that does not depend on coordinates: chip labels and the drawers of
//! rectangular chips and of invisible components.

use vstd::prelude::*;

verus! {

/// Information about text to be rendered on the front of a chip.
pub struct TextInfo {
    /// The text.
    pub text: String,
    /// The size of the text.
    pub size: u32,
}

/// A thing that can draw a rectangular chip with a label.
pub struct RectangleChipDrawer {
    pub text_info: TextInfo,
}

impl RectangleChipDrawer {
    /// Returns a new [`RectangleChipDrawer`] with the given label.
    pub fn new(text_info: TextInfo) -> (r: Self)
        ensures
            r.text_info == text_info,
    {
        RectangleChipDrawer { text_info }
    }
}

/// A drawer that doesn't draw anything.
pub struct NothingDrawer;

impl NothingDrawer {
    /// Returns a new [`NothingDrawer`].
    pub fn new() -> (r: Self)
        ensures
            r == NothingDrawer,
    {
        NothingDrawer
    }
}

impl Default for NothingDrawer {
    fn default() -> (r: Self)
        ensures
            r == NothingDrawer,
    {
        Self::new()
    }
}

} // verus!
