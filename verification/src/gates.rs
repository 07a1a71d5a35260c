//! The drawers of the logic-gate components. Each is a marker that selects the shape the
//! renderer draws for a gate.

use vstd::prelude::*;

verus! {

/// Draws an AND gate.
pub struct AndGateDrawer;

impl AndGateDrawer {
    /// Returns a new [`AndGateDrawer`].
    pub fn new() -> (r: Self)
        ensures
            r == AndGateDrawer,
    {
        AndGateDrawer
    }
}

impl Default for AndGateDrawer {
    fn default() -> (r: Self)
        ensures
            r == AndGateDrawer,
    {
        Self::new()
    }
}

/// Draws a NAND gate.
pub struct NandGateDrawer;

impl NandGateDrawer {
    /// Returns a new [`NandGateDrawer`].
    pub fn new() -> (r: Self)
        ensures
            r == NandGateDrawer,
    {
        NandGateDrawer
    }
}

impl Default for NandGateDrawer {
    fn default() -> (r: Self)
        ensures
            r == NandGateDrawer,
    {
        Self::new()
    }
}

/// Draws a NOR gate.
pub struct NorGateDrawer;

impl NorGateDrawer {
    /// Returns a new [`NorGateDrawer`].
    pub fn new() -> (r: Self)
        ensures
            r == NorGateDrawer,
    {
        NorGateDrawer
    }
}

impl Default for NorGateDrawer {
    fn default() -> (r: Self)
        ensures
            r == NorGateDrawer,
    {
        Self::new()
    }
}

/// Draws a NOT gate.
pub struct NotGateDrawer;

impl NotGateDrawer {
    /// Returns a new [`NotGateDrawer`].
    pub fn new() -> (r: Self)
        ensures
            r == NotGateDrawer,
    {
        NotGateDrawer
    }
}

impl Default for NotGateDrawer {
    fn default() -> (r: Self)
        ensures
            r == NotGateDrawer,
    {
        Self::new()
    }
}

/// Draws an OR gate.
pub struct OrGateDrawer;

impl OrGateDrawer {
    /// Returns a new [`OrGateDrawer`].
    pub fn new() -> (r: Self)
        ensures
            r == OrGateDrawer,
    {
        OrGateDrawer
    }
}

impl Default for OrGateDrawer {
    fn default() -> (r: Self)
        ensures
            r == OrGateDrawer,
    {
        Self::new()
    }
}

/// Draws a tri-state buffer.
pub struct TriStateBufferDrawer;

impl TriStateBufferDrawer {
    /// Returns a new [`TriStateBufferDrawer`].
    pub fn new() -> (r: Self)
        ensures
            r == TriStateBufferDrawer,
    {
        TriStateBufferDrawer
    }
}

impl Default for TriStateBufferDrawer {
    fn default() -> (r: Self)
        ensures
            r == TriStateBufferDrawer,
    {
        Self::new()
    }
}

/// Draws an XOR gate.
pub struct XorGateDrawer;

impl XorGateDrawer {
    /// Returns a new [`XorGateDrawer`].
    pub fn new() -> (r: Self)
        ensures
            r == XorGateDrawer,
    {
        XorGateDrawer
    }
}

impl Default for XorGateDrawer {
    fn default() -> (r: Self)
        ensures
            r == XorGateDrawer,
    {
        Self::new()
    }
}

} // verus!
