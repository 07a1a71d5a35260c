//! The kinds of component, and the options and pin references that circuits use.

use vstd::prelude::*;

verus! {

/// The different kinds of component.
#[derive(Clone, Copy, Debug, PartialEq, Eq, Structural)]
pub enum ComponentType {
    /// A bulb that shows a single state.
    Bulb,
    /// A component for splitting a signal onto many different wires. Any wire at a
    /// junction can act as either input or output at any time.
    Junction,
    /// An "internal" pin, used for connecting an internal circuit to a chip.
    Pin,
    /// A switch that can be turned on and off.
    Switch,
    /// An N-type transistor.
    NTransistor,
    /// A P-type transistor.
    PTransistor,
    /// An AND gate.
    AndGate,
    /// A NAND gate.
    NandGate,
    /// A NOR gate.
    NorGate,
    /// A NOT gate.
    NotGate,
    /// An OR gate.
    OrGate,
    /// A tri-state buffer.
    TriStateBuffer,
    /// An XOR gate.
    XorGate,
    /// A collection of bulbs.
    MultiBulb,
    /// A collection of junctions.
    MultiJunction,
    /// A collection of switches that can be turned on and off.
    MultiSwitch,
    /// A half adder.
    HalfAdder,
    /// A full adder.
    FullAdder,
    /// A multi-bit adder.
    Adder,
    /// An SR latch.
    SRLatch,
    /// A D latch.
    DLatch,
    /// A D flip-flop.
    DFlipFlop,
    /// A multi-bit D flip-flop.
    MultiDFlipFlop,
    /// A multiplexer.
    Multiplexer,
    /// A two-bit multiplexer.
    TwoBitMultiplexer,
}

/// The value of a component type as a string.
pub open spec fn ct_string(ct: ComponentType) -> Seq<char> {
    match ct {
        ComponentType::Bulb => "Bulb"@,
        ComponentType::Junction => "Junction"@,
        ComponentType::Pin => "Pin"@,
        ComponentType::Switch => "Switch"@,
        ComponentType::NTransistor => "NTransistor"@,
        ComponentType::PTransistor => "PTransistor"@,
        ComponentType::AndGate => "AndGate"@,
        ComponentType::NandGate => "NandGate"@,
        ComponentType::NorGate => "NorGate"@,
        ComponentType::NotGate => "NotGate"@,
        ComponentType::OrGate => "OrGate"@,
        ComponentType::TriStateBuffer => "TriStateBuffer"@,
        ComponentType::XorGate => "XorGate"@,
        ComponentType::MultiBulb => "MultiBulb"@,
        ComponentType::MultiJunction => "MultiJunction"@,
        ComponentType::MultiSwitch => "MultiSwitch"@,
        ComponentType::HalfAdder => "Half Adder"@,
        ComponentType::FullAdder => "Full Adder"@,
        ComponentType::Adder => "Adder"@,
        ComponentType::SRLatch => "SRLatch"@,
        ComponentType::DLatch => "DLatch"@,
        ComponentType::DFlipFlop => "DFlipFlop"@,
        ComponentType::MultiDFlipFlop => "MultiDFlipFlop"@,
        ComponentType::Multiplexer => "Multiplexer"@,
        ComponentType::TwoBitMultiplexer => "TwoBitMultiplexer"@,
    }
}

/// The display name of a component type.
pub open spec fn ct_name(ct: ComponentType) -> Seq<char> {
    match ct {
        ComponentType::Bulb => "Bulb"@,
        ComponentType::Junction => "Junction"@,
        ComponentType::Pin => "Pin"@,
        ComponentType::Switch => "Switch"@,
        ComponentType::NTransistor => "N-type Transistor"@,
        ComponentType::PTransistor => "P-type Transistor"@,
        ComponentType::AndGate => "AND Gate"@,
        ComponentType::NandGate => "NAND Gate"@,
        ComponentType::NorGate => "NOR Gate"@,
        ComponentType::NotGate => "NOT Gate"@,
        ComponentType::OrGate => "OR Gate"@,
        ComponentType::TriStateBuffer => "Tri-State Buffer"@,
        ComponentType::XorGate => "XOR Gate"@,
        ComponentType::MultiBulb => "Multi Bulb"@,
        ComponentType::MultiJunction => "Multi Junction"@,
        ComponentType::MultiSwitch => "Multi Switch"@,
        ComponentType::HalfAdder => "Half Adder"@,
        ComponentType::FullAdder => "Full Adder"@,
        ComponentType::Adder => "8-bit Adder"@,
        ComponentType::SRLatch => "SR Latch"@,
        ComponentType::DLatch => "D Latch"@,
        ComponentType::DFlipFlop => "D Flip-Flop"@,
        ComponentType::MultiDFlipFlop => "8-bit D Flip-Flop"@,
        ComponentType::Multiplexer => "Multiplexer"@,
        ComponentType::TwoBitMultiplexer => "2-bit Multiplexer"@,
    }
}

/// The slug of a component type.
pub open spec fn ct_slug(ct: ComponentType) -> Seq<char> {
    match ct {
        ComponentType::Bulb => "bulb"@,
        ComponentType::Junction => "junction"@,
        ComponentType::Pin => "pin"@,
        ComponentType::Switch => "switch"@,
        ComponentType::NTransistor => "ntransistor"@,
        ComponentType::PTransistor => "ptransistor"@,
        ComponentType::AndGate => "andgate"@,
        ComponentType::NandGate => "nandgate"@,
        ComponentType::NorGate => "norgate"@,
        ComponentType::NotGate => "notgate"@,
        ComponentType::OrGate => "orgate"@,
        ComponentType::TriStateBuffer => "tristatebuffer"@,
        ComponentType::XorGate => "xorgate"@,
        ComponentType::MultiBulb => "multibulb"@,
        ComponentType::MultiJunction => "multijunction"@,
        ComponentType::MultiSwitch => "multiswitch"@,
        ComponentType::HalfAdder => "halfadder"@,
        ComponentType::FullAdder => "fulladder"@,
        ComponentType::Adder => "adder"@,
        ComponentType::SRLatch => "srlatch"@,
        ComponentType::DLatch => "dlatch"@,
        ComponentType::DFlipFlop => "dflipflop"@,
        ComponentType::MultiDFlipFlop => "multidflipflop"@,
        ComponentType::Multiplexer => "multiplexer"@,
        ComponentType::TwoBitMultiplexer => "twobitmultiplexer"@,
    }
}

/// The component types that have switches.
pub open spec fn ct_has_switches(ct: ComponentType) -> bool {
    ct == ComponentType::MultiSwitch || ct == ComponentType::Switch
}

/// The component types whose circuit becomes full-sized when zooming in: all but the gates.
pub open spec fn ct_expands(ct: ComponentType) -> bool {
    !(ct == ComponentType::AndGate || ct == ComponentType::NandGate || ct == ComponentType::NorGate
        || ct == ComponentType::NotGate || ct == ComponentType::OrGate
        || ct == ComponentType::TriStateBuffer || ct == ComponentType::XorGate)
}

/// The component types shown in the editor toolbar.
pub open spec fn ct_spawnable(ct: ComponentType) -> bool {
    !(ct == ComponentType::Pin || ct == ComponentType::HalfAdder || ct == ComponentType::FullAdder
        || ct == ComponentType::Adder || ct == ComponentType::SRLatch
        || ct == ComponentType::DLatch || ct == ComponentType::DFlipFlop)
}

impl ComponentType {
    /// Returns the value of the component type as a string.
    pub fn as_string(&self) -> (r: &'static str)
        ensures
            r@ == ct_string(*self),
    {
        match self {
            ComponentType::Bulb => "Bulb",
            ComponentType::Junction => "Junction",
            ComponentType::Pin => "Pin",
            ComponentType::Switch => "Switch",
            ComponentType::NTransistor => "NTransistor",
            ComponentType::PTransistor => "PTransistor",
            ComponentType::AndGate => "AndGate",
            ComponentType::NandGate => "NandGate",
            ComponentType::NorGate => "NorGate",
            ComponentType::NotGate => "NotGate",
            ComponentType::OrGate => "OrGate",
            ComponentType::TriStateBuffer => "TriStateBuffer",
            ComponentType::XorGate => "XorGate",
            ComponentType::MultiBulb => "MultiBulb",
            ComponentType::MultiJunction => "MultiJunction",
            ComponentType::MultiSwitch => "MultiSwitch",
            ComponentType::HalfAdder => "Half Adder",
            ComponentType::FullAdder => "Full Adder",
            ComponentType::Adder => "Adder",
            ComponentType::SRLatch => "SRLatch",
            ComponentType::DLatch => "DLatch",
            ComponentType::DFlipFlop => "DFlipFlop",
            ComponentType::MultiDFlipFlop => "MultiDFlipFlop",
            ComponentType::Multiplexer => "Multiplexer",
            ComponentType::TwoBitMultiplexer => "TwoBitMultiplexer",
        }
    }

    /// Returns whether or not the component has switches.
    pub fn has_switches(&self) -> (r: bool)
        ensures
            r == ct_has_switches(*self),
    {
        matches!(self, ComponentType::MultiSwitch | ComponentType::Switch)
    }

    /// Whether the circuit should become full-sized when zooming in.
    /// This is disabled for components that have weird shapes.
    pub fn should_expand_circuit(&self) -> (r: bool)
        ensures
            r == ct_expands(*self),
    {
        !matches!(
            self,
            ComponentType::AndGate | ComponentType::NandGate | ComponentType::NorGate
                | ComponentType::NotGate | ComponentType::OrGate | ComponentType::TriStateBuffer
                | ComponentType::XorGate
        )
    }
}

/// Returns whether or not the component should be displayed in the editor toolbar.
pub fn is_ct_spawnable(ct: ComponentType) -> (r: bool)
    ensures
        r == ct_spawnable(ct),
{
    !matches!(
        ct,
        ComponentType::Pin | ComponentType::HalfAdder | ComponentType::FullAdder
            | ComponentType::Adder | ComponentType::SRLatch | ComponentType::DLatch
            | ComponentType::DFlipFlop
    )
}

/// Returns the name of the given [`ComponentType`].
pub fn get_ct_name(ct: ComponentType) -> (r: String)
    ensures
        r@ == ct_name(ct),
{
    let s: &str = match ct {
        ComponentType::Bulb => "Bulb",
        ComponentType::Junction => "Junction",
        ComponentType::Pin => "Pin",
        ComponentType::Switch => "Switch",
        ComponentType::NTransistor => "N-type Transistor",
        ComponentType::PTransistor => "P-type Transistor",
        ComponentType::AndGate => "AND Gate",
        ComponentType::NandGate => "NAND Gate",
        ComponentType::NorGate => "NOR Gate",
        ComponentType::NotGate => "NOT Gate",
        ComponentType::OrGate => "OR Gate",
        ComponentType::TriStateBuffer => "Tri-State Buffer",
        ComponentType::XorGate => "XOR Gate",
        ComponentType::MultiBulb => "Multi Bulb",
        ComponentType::MultiJunction => "Multi Junction",
        ComponentType::MultiSwitch => "Multi Switch",
        ComponentType::HalfAdder => "Half Adder",
        ComponentType::FullAdder => "Full Adder",
        ComponentType::Adder => "8-bit Adder",
        ComponentType::SRLatch => "SR Latch",
        ComponentType::DLatch => "D Latch",
        ComponentType::DFlipFlop => "D Flip-Flop",
        ComponentType::MultiDFlipFlop => "8-bit D Flip-Flop",
        ComponentType::Multiplexer => "Multiplexer",
        ComponentType::TwoBitMultiplexer => "2-bit Multiplexer",
    };
    s.to_owned()
}

/// Returns the slug of the given [`ComponentType`].
pub fn get_ct_slug(ct: ComponentType) -> (r: String)
    ensures
        r@ == ct_slug(ct),
{
    let s: &str = match ct {
        ComponentType::Bulb => "bulb",
        ComponentType::Junction => "junction",
        ComponentType::Pin => "pin",
        ComponentType::Switch => "switch",
        ComponentType::NTransistor => "ntransistor",
        ComponentType::PTransistor => "ptransistor",
        ComponentType::AndGate => "andgate",
        ComponentType::NandGate => "nandgate",
        ComponentType::NorGate => "norgate",
        ComponentType::NotGate => "notgate",
        ComponentType::OrGate => "orgate",
        ComponentType::TriStateBuffer => "tristatebuffer",
        ComponentType::XorGate => "xorgate",
        ComponentType::MultiBulb => "multibulb",
        ComponentType::MultiJunction => "multijunction",
        ComponentType::MultiSwitch => "multiswitch",
        ComponentType::HalfAdder => "halfadder",
        ComponentType::FullAdder => "fulladder",
        ComponentType::Adder => "adder",
        ComponentType::SRLatch => "srlatch",
        ComponentType::DLatch => "dlatch",
        ComponentType::DFlipFlop => "dflipflop",
        ComponentType::MultiDFlipFlop => "multidflipflop",
        ComponentType::Multiplexer => "multiplexer",
        ComponentType::TwoBitMultiplexer => "twobitmultiplexer",
    };
    s.to_owned()
}

/// Options for various components (e.g. size of the component).
#[derive(Clone, Copy, Debug, PartialEq, Eq, Structural)]
pub struct ComponentOptions {
    /// The size of the component (e.g. 8-bit, 32-bit, etc.).
    pub size: usize,
}

/// A specifier for a pin on a particular component. This differs from the pin component,
/// which is an internal pin used in a circuit within a chip.
#[derive(Clone, Copy, Debug, PartialEq, Eq, Structural)]
pub struct ExternalPin {
    /// The index of the component.
    pub component_idx: usize,
    /// The index of the pin on the component.
    pub pin_idx: usize,
}

} // verus!
