//! The high-level simulators of the latch and flip-flop chips: the state that each keeps
//! between its pins' changes.

use vstd::prelude::*;

use crate::pins::{is_on, toggled, PinError, PinState};
use crate::simulators::{repeated, ComponentSimulator};

verus! {

/// The high-level state of an SR latch. Pins: 0 reset, 1 set, 2 output, 3 inverted output.
#[derive(Clone, Copy, Debug, PartialEq, Eq, Structural)]
pub struct SRLatch {
    pub input_reset: PinState,
    pub input_set: PinState,
    pub state: PinState,
}

/// The pin states that a latch or flip-flop with one output shows: its inputs read as
/// disconnected, then the output and the inverted output.
pub open spec fn output_pins(state: PinState, idx: usize) -> Result<PinState, PinError> {
    if idx == 0 || idx == 1 {
        Ok(PinState::Disconnected)
    } else if idx == 2 {
        Ok(state)
    } else if idx == 3 {
        Ok(toggled(state))
    } else {
        Err(PinError::OutOfRange)
    }
}

/// An SR latch after a pin is set: reset turns the output off, set turns it on.
pub open spec fn sr_after(l: SRLatch, idx: usize, st: PinState) -> SRLatch {
    if idx == 0 {
        SRLatch { input_reset: st, state: if is_on(st) { PinState::Off } else { l.state }, ..l }
    } else if idx == 1 {
        SRLatch { input_set: st, state: if is_on(st) { PinState::On } else { l.state }, ..l }
    } else {
        l
    }
}

/// The result of setting pin `idx` of a latch or flip-flop with two inputs and two outputs.
pub open spec fn four_pin_result(idx: usize) -> Result<(), PinError> {
    if idx <= 3 {
        Ok(())
    } else {
        Err(PinError::OutOfRange)
    }
}

impl SRLatch {
    /// Returns a new [`SRLatch`]: inputs disconnected, output off.
    pub fn new() -> (r: Self)
        ensures
            r == (SRLatch { input_reset: PinState::Disconnected, input_set: PinState::Disconnected, state: PinState::Off }),
    {
        SRLatch { input_reset: PinState::Disconnected, input_set: PinState::Disconnected, state: PinState::Off }
    }
}

impl ComponentSimulator for SRLatch {
    open spec fn wf(&self) -> bool {
        true
    }

    fn get_pin_state_high_level(&self, idx: usize) -> (r: Result<PinState, PinError>)
        ensures
            r == output_pins(self.state, idx),
    {
        match idx {
            0 | 1 => Ok(PinState::Disconnected),
            2 => Ok(self.state),
            3 => Ok(self.state.toggle()),
            _ => Err(PinError::OutOfRange),
        }
    }

    fn set_pin_state_high_level(&mut self, idx: usize, state: PinState) -> (r: Result<(), PinError>)
        ensures
            r == four_pin_result(idx),
            *final(self) == sr_after(*old(self), idx, state),
    {
        match idx {
            0 => {
                self.input_reset = state;
                if self.input_reset.to_bool() {
                    self.state = PinState::Off;
                }
                Ok(())
            },
            1 => {
                self.input_set = state;
                if self.input_set.to_bool() {
                    self.state = PinState::On;
                }
                Ok(())
            },
            2 | 3 => Ok(()),
            _ => Err(PinError::OutOfRange),
        }
    }

    fn get_pin_state_external(&self, idx: usize) -> (r: Result<PinState, PinError>)
        ensures
            r == output_pins(self.state, idx),
    {
        self.get_pin_state_high_level(idx)
    }

    fn set_pin_state_external(&mut self, idx: usize, state: PinState) -> (r: Result<(), PinError>)
        ensures
            r == four_pin_result(idx),
            *final(self) == sr_after(*old(self), idx, state),
    {
        self.set_pin_state_high_level(idx, state)
    }
}

/// The high-level state of a D latch. Pins: 0 data, 1 clock (enable), 2 output, 3 inverted.
#[derive(Clone, Copy, Debug, PartialEq, Eq, Structural)]
pub struct DLatch {
    pub input: PinState,
    pub clock: PinState,
    pub state: PinState,
}

/// A D latch after a pin is set: while the clock is on, the output follows the data.
pub open spec fn d_latch_after(l: DLatch, idx: usize, st: PinState) -> DLatch {
    if idx == 0 {
        DLatch { input: st, state: if is_on(l.clock) { st } else { l.state }, ..l }
    } else if idx == 1 {
        DLatch { clock: st, state: if is_on(st) { l.input } else { l.state }, ..l }
    } else {
        l
    }
}

impl DLatch {
    /// Returns a new [`DLatch`]: inputs disconnected, output off.
    pub fn new() -> (r: Self)
        ensures
            r == (DLatch { input: PinState::Disconnected, clock: PinState::Disconnected, state: PinState::Off }),
    {
        DLatch { input: PinState::Disconnected, clock: PinState::Disconnected, state: PinState::Off }
    }
}

impl ComponentSimulator for DLatch {
    open spec fn wf(&self) -> bool {
        true
    }

    fn get_pin_state_high_level(&self, idx: usize) -> (r: Result<PinState, PinError>)
        ensures
            r == output_pins(self.state, idx),
    {
        match idx {
            0 | 1 => Ok(PinState::Disconnected),
            2 => Ok(self.state),
            3 => Ok(self.state.toggle()),
            _ => Err(PinError::OutOfRange),
        }
    }

    fn set_pin_state_high_level(&mut self, idx: usize, state: PinState) -> (r: Result<(), PinError>)
        ensures
            r == four_pin_result(idx),
            *final(self) == d_latch_after(*old(self), idx, state),
    {
        match idx {
            0 => {
                self.input = state;
                if self.clock.to_bool() {
                    self.state = self.input;
                }
                Ok(())
            },
            1 => {
                self.clock = state;
                if self.clock.to_bool() {
                    self.state = self.input;
                }
                Ok(())
            },
            2 | 3 => Ok(()),
            _ => Err(PinError::OutOfRange),
        }
    }

    fn get_pin_state_external(&self, idx: usize) -> (r: Result<PinState, PinError>)
        ensures
            r == output_pins(self.state, idx),
    {
        self.get_pin_state_high_level(idx)
    }

    fn set_pin_state_external(&mut self, idx: usize, state: PinState) -> (r: Result<(), PinError>)
        ensures
            r == four_pin_result(idx),
            *final(self) == d_latch_after(*old(self), idx, state),
    {
        self.set_pin_state_high_level(idx, state)
    }
}

/// The high-level state of a D flip-flop. Pins: 0 data, 1 clock, 2 output, 3 inverted.
#[derive(Clone, Copy, Debug, PartialEq, Eq, Structural)]
pub struct DFlipFlop {
    pub input: PinState,
    pub clock: PinState,
    pub state: PinState,
}

/// Whether setting the clock to `st` is a rising edge from `clock`.
pub open spec fn rising(clock: PinState, st: PinState) -> bool {
    is_on(st) && !is_on(clock)
}

/// A D flip-flop after a pin is set: the output takes the data on a rising clock edge.
pub open spec fn dff_after(f: DFlipFlop, idx: usize, st: PinState) -> DFlipFlop {
    if idx == 0 {
        DFlipFlop { input: st, ..f }
    } else if idx == 1 {
        DFlipFlop { clock: st, state: if rising(f.clock, st) { f.input } else { f.state }, ..f }
    } else {
        f
    }
}

impl DFlipFlop {
    /// Returns a new [`DFlipFlop`]: inputs disconnected, output off.
    pub fn new() -> (r: Self)
        ensures
            r == (DFlipFlop { input: PinState::Disconnected, clock: PinState::Disconnected, state: PinState::Off }),
    {
        DFlipFlop { input: PinState::Disconnected, clock: PinState::Disconnected, state: PinState::Off }
    }
}

impl ComponentSimulator for DFlipFlop {
    open spec fn wf(&self) -> bool {
        true
    }

    fn get_pin_state_high_level(&self, idx: usize) -> (r: Result<PinState, PinError>)
        ensures
            r == output_pins(self.state, idx),
    {
        match idx {
            0 | 1 => Ok(PinState::Disconnected),
            2 => Ok(self.state),
            3 => Ok(self.state.toggle()),
            _ => Err(PinError::OutOfRange),
        }
    }

    fn set_pin_state_high_level(&mut self, idx: usize, state: PinState) -> (r: Result<(), PinError>)
        ensures
            r == four_pin_result(idx),
            *final(self) == dff_after(*old(self), idx, state),
    {
        match idx {
            0 => {
                self.input = state;
                Ok(())
            },
            1 => {
                if state.to_bool() && !self.clock.to_bool() {
                    self.state = self.input;
                }
                self.clock = state;
                Ok(())
            },
            2 | 3 => Ok(()),
            _ => Err(PinError::OutOfRange),
        }
    }

    fn get_pin_state_external(&self, idx: usize) -> (r: Result<PinState, PinError>)
        ensures
            r == output_pins(self.state, idx),
    {
        self.get_pin_state_high_level(idx)
    }

    fn set_pin_state_external(&mut self, idx: usize, state: PinState) -> (r: Result<(), PinError>)
        ensures
            r == four_pin_result(idx),
            *final(self) == dff_after(*old(self), idx, state),
    {
        self.set_pin_state_high_level(idx, state)
    }
}

/// The high-level state of a multi-bit D flip-flop of `size` bits. Pins: `0..size` data,
/// `size` clock, `size + 1..=2 * size` outputs.
pub struct MultiDFlipFlop {
    pub size: usize,
    pub input: Vec<PinState>,
    pub clock: PinState,
    pub state: Vec<PinState>,
}

/// The view of a multi-bit D flip-flop.
pub struct MultiDffView {
    pub size: nat,
    pub input: Seq<PinState>,
    pub clock: PinState,
    pub state: Seq<PinState>,
}

impl View for MultiDFlipFlop {
    type V = MultiDffView;

    open spec fn view(&self) -> MultiDffView {
        MultiDffView { size: self.size as nat, input: self.input@, clock: self.clock, state: self.state@ }
    }
}

/// The state that pin `idx` of a multi-bit D flip-flop shows.
pub open spec fn multi_dff_get(f: MultiDffView, idx: nat) -> Result<PinState, PinError> {
    if idx <= f.size {
        Ok(PinState::Disconnected)
    } else if idx <= 2 * f.size {
        Ok(f.state[idx - f.size - 1])
    } else {
        Err(PinError::OutOfRange)
    }
}

/// A multi-bit D flip-flop after a pin is set: on a rising clock edge every output takes its data.
pub open spec fn multi_dff_after(f: MultiDffView, idx: nat, st: PinState) -> MultiDffView {
    if idx < f.size {
        MultiDffView { input: f.input.update(idx as int, st), ..f }
    } else if idx == f.size {
        MultiDffView { clock: st, state: if rising(f.clock, st) { f.input } else { f.state }, ..f }
    } else {
        f
    }
}

/// The result of setting pin `idx` of a multi-bit D flip-flop.
pub open spec fn multi_dff_result(f: MultiDffView, idx: nat) -> Result<(), PinError> {
    if idx <= 2 * f.size {
        Ok(())
    } else {
        Err(PinError::OutOfRange)
    }
}

impl MultiDFlipFlop {
    /// Returns a new [`MultiDFlipFlop`] of `size` bits: inputs disconnected, outputs off.
    pub fn new(size: usize) -> (r: Self)
        requires
            2 <= size <= usize::MAX / 2,
        ensures
            r.wf(),
            r@ == (MultiDffView {
                size: size as nat,
                input: Seq::new(size as nat, |i: int| PinState::Disconnected),
                clock: PinState::Disconnected,
                state: Seq::new(size as nat, |i: int| PinState::Off),
            }),
    {
        MultiDFlipFlop {
            size,
            input: repeated(PinState::Disconnected, size),
            clock: PinState::Disconnected,
            state: repeated(PinState::Off, size),
        }
    }
}

impl ComponentSimulator for MultiDFlipFlop {
    open spec fn wf(&self) -> bool {
        &&& self.input@.len() == self.size
        &&& self.state@.len() == self.size
        &&& self.size <= usize::MAX / 2
    }

    fn get_pin_state_high_level(&self, idx: usize) -> (r: Result<PinState, PinError>)
        ensures
            r == multi_dff_get(self@, idx as nat),
    {
        if idx <= self.size {
            Ok(PinState::Disconnected)
        } else if idx > self.size && idx <= self.size * 2 {
            Ok(self.state[idx - self.size - 1])
        } else {
            Err(PinError::OutOfRange)
        }
    }

    fn set_pin_state_high_level(&mut self, idx: usize, state: PinState) -> (r: Result<(), PinError>)
        ensures
            r == multi_dff_result(old(self)@, idx as nat),
            final(self)@ == multi_dff_after(old(self)@, idx as nat, state),
    {
        if idx < self.size {
            self.input.set(idx, state);
            Ok(())
        } else if idx == self.size {
            if state.to_bool() && !self.clock.to_bool() {
                let mut i: usize = 0;
                while i < self.size
                    invariant
                        self.input@.len() == self.size,
                        self.state@.len() == self.size,
                        self.input@ == old(self).input@,
                        self.size == old(self).size,
                        self.clock == old(self).clock,
                        i <= self.size,
                        forall|j: int| 0 <= j < i ==> self.state@[j] == self.input@[j],
                    decreases self.size - i,
                {
                    let v = self.input[i];
                    self.state.set(i, v);
                    i = i + 1;
                }
                assert(self.state@ =~= self.input@);
            }
            self.clock = state;
            Ok(())
        } else if idx > self.size && idx <= self.size * 2 {
            Ok(())
        } else {
            Err(PinError::OutOfRange)
        }
    }

    fn get_pin_state_external(&self, idx: usize) -> (r: Result<PinState, PinError>)
        ensures
            r == multi_dff_get(self@, idx as nat),
    {
        self.get_pin_state_high_level(idx)
    }

    fn set_pin_state_external(&mut self, idx: usize, state: PinState) -> (r: Result<(), PinError>)
        ensures
            r == multi_dff_result(old(self)@, idx as nat),
            final(self)@ == multi_dff_after(old(self)@, idx as nat, state),
    {
        self.set_pin_state_high_level(idx, state)
    }
}

/// An SR latch keeps its state: with both inputs off, it shows the state it was last set
/// or reset to; setting turns it on and resetting turns it off.
pub proof fn lemma_sr_latch_memory(l: SRLatch, st: PinState)
    ensures
        is_on(st) ==> sr_after(l, 1, st).state == PinState::On,
        is_on(st) ==> sr_after(l, 0, st).state == PinState::Off,
        !is_on(st) ==> sr_after(l, 0, st).state == l.state && sr_after(l, 1, st).state == l.state,
{
}

/// A D flip-flop changes its output only on a rising clock edge, and then takes the data
/// it was given: data `d`, clock off, clock on gives output `d`.
pub proof fn lemma_dff_edge_triggered(f: DFlipFlop, idx: usize, st: PinState, d: PinState)
    ensures
        dff_after(f, idx, st).state != f.state ==> idx == 1 && rising(f.clock, st),
        dff_after(dff_after(dff_after(f, 0, d), 1, PinState::Off), 1, PinState::On).state == d,
{
}

/// A D latch is transparent while its clock is on, and holds while it is off.
pub proof fn lemma_d_latch_transparent(l: DLatch, d: PinState)
    ensures
        is_on(l.clock) ==> d_latch_after(l, 0, d).state == d,
        !is_on(l.clock) ==> d_latch_after(l, 0, d).state == l.state,
{
}

/// Enabling a D latch makes its output its data, whatever the data and the output were;
/// disabling it keeps the output.
pub proof fn lemma_d_latch_enable(l: DLatch, st: PinState)
    ensures
        is_on(st) ==> d_latch_after(l, 1, st).state == l.input,
        !is_on(st) ==> d_latch_after(l, 1, st).state == l.state,
        d_latch_after(l, 1, st).clock == st,
        d_latch_after(l, 1, st).input == l.input,
{
}

/// A multi-bit D flip-flop stores all its data at once on a rising clock edge: after the
/// clock goes off and then on, output `size + 1 + k` shows data bit `k`.
pub proof fn lemma_multi_dff_stores_word(f: MultiDffView, k: nat)
    requires
        f.input.len() == f.size,
        f.state.len() == f.size,
        k < f.size,
    ensures
        multi_dff_get(multi_dff_after(multi_dff_after(f, f.size, PinState::Off), f.size, PinState::On), f.size + 1 + k)
            == Ok::<PinState, PinError>(f.input[k as int]),
{
}

} // verus!
