//! ATLAS: a logic-circuit simulator and the AtlASM assembler.

pub mod assembler;
pub mod components;
pub mod gates;
pub mod graphics;
pub mod latches;
pub mod memory;
pub mod pins;
pub mod simulators;
