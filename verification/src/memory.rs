//! The high-level simulators of the memory chips: read only memory and writable memory,
//! both addressed by pins and holding 16-bit words.

use vstd::arithmetic::power2::{lemma2_to64, lemma_pow2_unfold, pow2};
use vstd::prelude::*;

use crate::latches::rising;
use crate::pins::{is_on, states_to_num, states_value, PinError, PinState};
use crate::simulators::{repeated, ComponentSimulator};

verus! {

/// The `width` lowest binary digits of a number as pin states, most significant first:
/// On for 1 and Off for 0.
pub open spec fn fixed_bits(n: nat, width: nat) -> Seq<PinState>
    decreases width,
{
    if width == 0 {
        seq![]
    } else {
        fixed_bits(n / 2, (width - 1) as nat).push(if n % 2 == 1 { PinState::On } else { PinState::Off })
    }
}

/// The sixteen pin states that show a word, most significant bit first.
pub open spec fn word_states(w: u16) -> Seq<PinState> {
    fixed_bits(w as nat, 16)
}

/// A state as a wire reads it: On stays On, anything else is Off.
pub open spec fn as_signal(s: PinState) -> PinState {
    if is_on(s) {
        PinState::On
    } else {
        PinState::Off
    }
}

/// The number a list of states writes is less than two to the power of its length.
pub proof fn lemma_states_value_bound(s: Seq<PinState>)
    ensures
        states_value(s) < pow2(s.len()),
    decreases s.len(),
{
    if s.len() == 0 {
        lemma2_to64();
    } else {
        lemma_states_value_bound(s.drop_last());
        lemma_pow2_unfold(s.len());
    }
}

/// Writing the value of a list of states back with as many digits gives the states as a
/// wire reads them.
pub proof fn lemma_fixed_bits_of_value(s: Seq<PinState>)
    ensures
        fixed_bits(states_value(s), s.len()) == s.map_values(|x: PinState| as_signal(x)),
    decreases s.len(),
{
    if s.len() == 0 {
        assert(s.map_values(|x: PinState| as_signal(x)) =~= seq![]);
    } else {
        let d = s.drop_last();
        lemma_fixed_bits_of_value(d);
        let b: nat = if is_on(s.last()) { 1 } else { 0 };
        let v = states_value(d) * 2 + b;
        assert(v / 2 == states_value(d));
        assert(v % 2 == b);
        assert(fixed_bits(v, s.len()) == fixed_bits(states_value(d), d.len()).push(
            if v % 2 == 1 { PinState::On } else { PinState::Off },
        ));
        assert(s.map_values(|x: PinState| as_signal(x)) =~= d.map_values(|x: PinState| as_signal(x)).push(
            as_signal(s.last()),
        ));
    }
}

/// The length of the fixed-width digits of a number.
pub proof fn lemma_fixed_bits_len(n: nat, width: nat)
    ensures
        fixed_bits(n, width).len() == width,
    decreases width,
{
    if width > 0 {
        lemma_fixed_bits_len(n / 2, (width - 1) as nat);
    }
}

/// The `width` lowest binary digits of `num` as pin states, most significant first.
fn fixed_width_states(num: u32, width: usize) -> (r: Vec<PinState>)
    ensures
        r@ == fixed_bits(num as nat, width as nat),
{
    let mut result: Vec<PinState> = Vec::new();
    let mut current = num;
    let mut k: usize = 0;
    while k < width
        invariant
            k <= width,
            fixed_bits(current as nat, (width - k) as nat) + result@ == fixed_bits(num as nat, width as nat),
        decreases width - k,
    {
        let bit = if current % 2 == 1 { PinState::On } else { PinState::Off };
        let ghost before = result@;
        result.insert(0, bit);
        assert(fixed_bits(current as nat, (width - k) as nat) == fixed_bits((current / 2) as nat, (width - k - 1) as nat).push(bit));
        assert(fixed_bits((current / 2) as nat, (width - k - 1) as nat) + result@ =~= fixed_bits(current as nat, (width - k) as nat) + before);
        current = current / 2;
        k = k + 1;
    }
    assert(fixed_bits(current as nat, 0) + result@ =~= result@);
    result
}

/// A list of `n` zero words.
fn zero_words(n: usize) -> (r: Vec<u16>)
    ensures
        r@ == Seq::new(n as nat, |i: int| 0u16),
{
    let mut v: Vec<u16> = Vec::new();
    let mut k: usize = 0;
    while k < n
        invariant
            k <= n,
            v@ == Seq::new(k as nat, |i: int| 0u16),
        decreases n - k,
    {
        v.push(0);
        k = k + 1;
        assert(v@ =~= Seq::new(k as nat, |i: int| 0u16));
    }
    v
}

/// Two to the power of `size`, the number of words that `size` address pins reach.
fn word_count(size: usize) -> (r: usize)
    requires
        pow2(size as nat) <= usize::MAX,
    ensures
        r == pow2(size as nat),
{
    let mut n: usize = 1;
    let mut k: usize = 0;
    proof {
        lemma2_to64();
    }
    while k < size
        invariant
            k <= size,
            n == pow2(k as nat),
            pow2(size as nat) <= usize::MAX,
        decreases size - k,
    {
        proof {
            lemma_pow2_unfold((k + 1) as nat);
            if k + 1 < size {
                vstd::arithmetic::power2::lemma_pow2_strictly_increases((k + 1) as nat, size as nat);
            }
        }
        n = n * 2;
        k = k + 1;
    }
    n
}

/// The words that a memory holds after a list of words is copied to its start.
pub open spec fn given(data: Seq<u16>, memory: Seq<u16>) -> Seq<u16> {
    memory + data.subrange(memory.len() as int, data.len() as int)
}

/// Copies `memory` to the start of `data`.
fn copy_words(data: &mut Vec<u16>, memory: &[u16])
    requires
        memory@.len() <= old(data)@.len(),
    ensures
        final(data)@ == given(old(data)@, memory@),
{
    let mut i: usize = 0;
    while i < memory.len()
        invariant
            i <= memory@.len(),
            memory@.len() <= old(data)@.len(),
            data@.len() == old(data)@.len(),
            forall|j: int| 0 <= j < i ==> data@[j] == memory@[j],
            forall|j: int| i <= j < data@.len() ==> data@[j] == old(data)@[j],
        decreases memory@.len() - i,
    {
        let w = memory[i];
        data.set(i, w);
        i = i + 1;
    }
    assert(data@ =~= given(old(data)@, memory@));
}

// ---------------------------------------------------------------------------------------
// Read only memory

/// A simulator for read only memory with `size` address pins. Pins: `0..size` address,
/// then sixteen data outputs, most significant first.
pub struct RomSimulator {
    /// The size of the address.
    pub size: usize,
    /// The states of the address pins.
    pub address_states: Vec<PinState>,
    /// The current address.
    pub address: usize,
    /// The data stored in memory, in 16-bit words.
    pub data: Vec<u16>,
}

/// The view of a read only memory.
pub struct RomView {
    pub size: nat,
    pub address_states: Seq<PinState>,
    pub address: nat,
    pub data: Seq<u16>,
}

impl View for RomSimulator {
    type V = RomView;

    open spec fn view(&self) -> RomView {
        RomView {
            size: self.size as nat,
            address_states: self.address_states@,
            address: self.address as nat,
            data: self.data@,
        }
    }
}

/// A read only memory is consistent: one state per address pin, a word for every address,
/// and the address is the one its pins spell.
pub open spec fn rom_wf(r: RomView) -> bool {
    &&& r.size <= 32
    &&& r.address_states.len() == r.size
    &&& r.data.len() == pow2(r.size)
    &&& r.address == states_value(r.address_states)
}

/// The state that pin `idx` of a read only memory shows.
pub open spec fn rom_get(r: RomView, idx: nat) -> Result<PinState, PinError> {
    if idx >= r.size + 16 {
        Err(PinError::OutOfRange)
    } else if idx < r.size {
        Ok(PinState::Disconnected)
    } else {
        Ok(word_states(r.data[r.address as int])[idx - r.size])
    }
}

/// A read only memory after a pin is set: an address pin moves the address.
pub open spec fn rom_after(r: RomView, idx: nat, st: PinState) -> RomView {
    if idx < r.size {
        let states = r.address_states.update(idx as int, st);
        RomView { address_states: states, address: states_value(states), ..r }
    } else {
        r
    }
}

/// The result of setting pin `idx` of a read only memory.
pub open spec fn rom_result(r: RomView, idx: nat) -> Result<(), PinError> {
    if idx >= r.size + 16 {
        Err(PinError::OutOfRange)
    } else {
        Ok(())
    }
}

impl RomSimulator {
    /// Returns a new [`RomSimulator`] with `size` address pins, disconnected, and all words zero.
    pub fn new(size: usize) -> (r: Self)
        requires
            size <= 32,
            pow2(size as nat) <= usize::MAX,
        ensures
            r.wf(),
            r@ == (RomView {
                size: size as nat,
                address_states: Seq::new(size as nat, |i: int| PinState::Disconnected),
                address: 0,
                data: Seq::new(pow2(size as nat), |i: int| 0u16),
            }),
    {
        let n = word_count(size);
        let r = RomSimulator { size, address_states: repeated(PinState::Disconnected, size), address: 0, data: zero_words(n) };
        proof {
            lemma_states_value_zero(r.address_states@);
        }
        r
    }

    /// Copies `memory` to the start of the stored words.
    pub fn give_memory(&mut self, memory: &[u16])
        requires
            memory@.len() <= old(self).data@.len(),
        ensures
            final(self)@ == (RomView { data: given(old(self)@.data, memory@), ..old(self)@ }),
    {
        copy_words(&mut self.data, memory);
    }
}

/// A list of states that none is On writes zero.
proof fn lemma_states_value_zero(s: Seq<PinState>)
    requires
        forall|i: int| 0 <= i < s.len() ==> !is_on(#[trigger] s[i]),
    ensures
        states_value(s) == 0,
    decreases s.len(),
{
    if s.len() > 0 {
        lemma_states_value_zero(s.drop_last());
    }
}

impl ComponentSimulator for RomSimulator {
    open spec fn wf(&self) -> bool {
        rom_wf(self@)
    }

    fn get_pin_state_high_level(&self, idx: usize) -> (r: Result<PinState, PinError>)
        ensures
            r == rom_get(self@, idx as nat),
    {
        if idx >= self.size + 16 {
            Err(PinError::OutOfRange)
        } else if idx < self.size {
            Ok(PinState::Disconnected)
        } else {
            proof {
                lemma_states_value_bound(self.address_states@);
            }
            let word = self.data[self.address];
            let states = fixed_width_states(word as u32, 16);
            proof {
                lemma_fixed_bits_len(word as nat, 16);
            }
            Ok(states[idx - self.size])
        }
    }

    fn set_pin_state_high_level(&mut self, idx: usize, state: PinState) -> (r: Result<(), PinError>)
        ensures
            r == rom_result(old(self)@, idx as nat),
            final(self)@ == rom_after(old(self)@, idx as nat, state),
    {
        if idx >= self.size + 16 {
            Err(PinError::OutOfRange)
        } else if idx < self.size {
            self.address_states.set(idx, state);
            proof {
                lemma_states_value_bound(self.address_states@);
                lemma2_to64();
                if self.size < 32 {
                    vstd::arithmetic::power2::lemma_pow2_strictly_increases(self.size as nat, 32);
                }
            }
            let a = states_to_num(&self.address_states);
            self.address = a as usize;
            Ok(())
        } else {
            Ok(())
        }
    }

    fn get_pin_state_external(&self, idx: usize) -> (r: Result<PinState, PinError>)
        ensures
            r == rom_get(self@, idx as nat),
    {
        self.get_pin_state_high_level(idx)
    }

    fn set_pin_state_external(&mut self, idx: usize, state: PinState) -> (r: Result<(), PinError>)
        ensures
            r == rom_result(old(self)@, idx as nat),
            final(self)@ == rom_after(old(self)@, idx as nat, state),
    {
        self.set_pin_state_high_level(idx, state)
    }
}

// ---------------------------------------------------------------------------------------
// Writable memory

/// A simulator for memory with `size` address pins. Pins: `0..16` data inputs, most
/// significant first, `16..16 + size` address, `16 + size` clock, then sixteen data outputs.
/// On a rising clock edge the word on the inputs is stored at the address.
pub struct MemorySimulator {
    /// The size of the address.
    pub size: usize,
    /// The states of the input pins.
    pub input_states: Vec<PinState>,
    /// The current input.
    pub input: u16,
    /// The states of the address pins.
    pub address_states: Vec<PinState>,
    /// The current address.
    pub address: usize,
    /// The current clock state.
    pub clock_state: PinState,
    /// The data stored in memory, in 16-bit words.
    pub data: Vec<u16>,
}

/// The view of a memory.
pub struct MemoryView {
    pub size: nat,
    pub input_states: Seq<PinState>,
    pub input: nat,
    pub address_states: Seq<PinState>,
    pub address: nat,
    pub clock_state: PinState,
    pub data: Seq<u16>,
}

impl View for MemorySimulator {
    type V = MemoryView;

    open spec fn view(&self) -> MemoryView {
        MemoryView {
            size: self.size as nat,
            input_states: self.input_states@,
            input: self.input as nat,
            address_states: self.address_states@,
            address: self.address as nat,
            clock_state: self.clock_state,
            data: self.data@,
        }
    }
}

/// A memory is consistent: sixteen input states, one state per address pin, a word for
/// every address, and the input and address are the numbers their pins spell.
pub open spec fn memory_wf(m: MemoryView) -> bool {
    &&& m.size <= 32
    &&& m.input_states.len() == 16
    &&& m.input == states_value(m.input_states)
    &&& m.address_states.len() == m.size
    &&& m.data.len() == pow2(m.size)
    &&& m.address == states_value(m.address_states)
}

/// The state that pin `idx` of a memory shows.
pub open spec fn memory_get(m: MemoryView, idx: nat) -> Result<PinState, PinError> {
    if idx >= 16 + m.size + 1 + 16 {
        Err(PinError::OutOfRange)
    } else if idx < 16 + m.size + 1 {
        Ok(PinState::Disconnected)
    } else {
        Ok(word_states(m.data[m.address as int])[idx - (16 + m.size + 1)])
    }
}

/// A memory after a pin is set: an input or address pin moves the input or the address; on
/// a rising clock edge the input is stored at the address.
pub open spec fn memory_after(m: MemoryView, idx: nat, st: PinState) -> MemoryView {
    if idx < 16 {
        let states = m.input_states.update(idx as int, st);
        MemoryView { input_states: states, input: states_value(states), ..m }
    } else if idx < 16 + m.size {
        let states = m.address_states.update(idx - 16, st);
        MemoryView { address_states: states, address: states_value(states), ..m }
    } else if idx == 16 + m.size {
        MemoryView {
            clock_state: st,
            data: if rising(m.clock_state, st) { m.data.update(m.address as int, m.input as u16) } else { m.data },
            ..m
        }
    } else {
        m
    }
}

/// The result of setting pin `idx` of a memory.
pub open spec fn memory_result(m: MemoryView, idx: nat) -> Result<(), PinError> {
    if idx >= 16 + m.size + 1 + 16 {
        Err(PinError::OutOfRange)
    } else {
        Ok(())
    }
}

impl MemorySimulator {
    /// Returns a new [`MemorySimulator`] with `size` address pins: inputs, address and clock
    /// disconnected, all words zero.
    pub fn new(size: usize) -> (r: Self)
        requires
            size <= 32,
            pow2(size as nat) <= usize::MAX,
        ensures
            r.wf(),
            r@ == (MemoryView {
                size: size as nat,
                input_states: Seq::new(16, |i: int| PinState::Disconnected),
                input: 0,
                address_states: Seq::new(size as nat, |i: int| PinState::Disconnected),
                address: 0,
                clock_state: PinState::Disconnected,
                data: Seq::new(pow2(size as nat), |i: int| 0u16),
            }),
    {
        let n = word_count(size);
        let m = MemorySimulator {
            size,
            input_states: repeated(PinState::Disconnected, 16),
            input: 0,
            address_states: repeated(PinState::Disconnected, size),
            address: 0,
            clock_state: PinState::Disconnected,
            data: zero_words(n),
        };
        proof {
            lemma_states_value_zero(m.input_states@);
            lemma_states_value_zero(m.address_states@);
        }
        m
    }

    /// Copies `memory` to the start of the stored words.
    pub fn give_memory(&mut self, memory: &[u16])
        requires
            memory@.len() <= old(self).data@.len(),
        ensures
            final(self)@ == (MemoryView { data: given(old(self)@.data, memory@), ..old(self)@ }),
    {
        copy_words(&mut self.data, memory);
    }

    /// Returns the stored words.
    pub fn take_memory(&self) -> (r: &[u16])
        ensures
            r@ == self.data@,
    {
        self.data.as_slice()
    }
}

impl ComponentSimulator for MemorySimulator {
    open spec fn wf(&self) -> bool {
        memory_wf(self@)
    }

    fn get_pin_state_high_level(&self, idx: usize) -> (r: Result<PinState, PinError>)
        ensures
            r == memory_get(self@, idx as nat),
    {
        if idx >= 16 + self.size + 1 + 16 {
            Err(PinError::OutOfRange)
        } else if idx < 16 + self.size + 1 {
            Ok(PinState::Disconnected)
        } else {
            proof {
                lemma_states_value_bound(self.address_states@);
            }
            let word = self.data[self.address];
            let states = fixed_width_states(word as u32, 16);
            proof {
                lemma_fixed_bits_len(word as nat, 16);
            }
            Ok(states[idx - (16 + self.size + 1)])
        }
    }

    fn set_pin_state_high_level(&mut self, idx: usize, state: PinState) -> (r: Result<(), PinError>)
        ensures
            r == memory_result(old(self)@, idx as nat),
            final(self)@ == memory_after(old(self)@, idx as nat, state),
    {
        proof {
            lemma2_to64();
        }
        if idx >= 16 + self.size + 1 + 16 {
            Err(PinError::OutOfRange)
        } else if idx < 16 {
            self.input_states.set(idx, state);
            proof {
                lemma_states_value_bound(self.input_states@);
            }
            let v = states_to_num(&self.input_states);
            self.input = v as u16;
            Ok(())
        } else if idx < 16 + self.size {
            self.address_states.set(idx - 16, state);
            proof {
                lemma_states_value_bound(self.address_states@);
                if self.size < 32 {
                    vstd::arithmetic::power2::lemma_pow2_strictly_increases(self.size as nat, 32);
                }
            }
            let a = states_to_num(&self.address_states);
            self.address = a as usize;
            Ok(())
        } else if idx == 16 + self.size {
            if self.clock_state != PinState::On && state == PinState::On {
                proof {
                    lemma_states_value_bound(self.address_states@);
                }
                let w = self.input;
                let a = self.address;
                self.data.set(a, w);
            }
            self.clock_state = state;
            Ok(())
        } else {
            Ok(())
        }
    }

    fn get_pin_state_external(&self, idx: usize) -> (r: Result<PinState, PinError>)
        ensures
            r == memory_get(self@, idx as nat),
    {
        self.get_pin_state_high_level(idx)
    }

    fn set_pin_state_external(&mut self, idx: usize, state: PinState) -> (r: Result<(), PinError>)
        ensures
            r == memory_result(old(self)@, idx as nat),
            final(self)@ == memory_after(old(self)@, idx as nat, state),
    {
        self.set_pin_state_high_level(idx, state)
    }
}

/// What a memory stores it gives back: with the data on the inputs, a clock going off and
/// then on stores the word, and output `k` then shows input `k` as a wire reads it. Every
/// other address keeps its word.
pub proof fn lemma_memory_read_after_write(m: MemoryView, k: nat)
    requires
        memory_wf(m),
        k < 16,
    ensures
        ({
            let clock = 16 + m.size;
            let written = memory_after(memory_after(m, clock, PinState::Off), clock, PinState::On);
            &&& memory_wf(written)
            &&& memory_get(written, clock + 1 + k) == Ok::<PinState, PinError>(as_signal(m.input_states[k as int]))
            &&& forall|a: int| 0 <= a < m.data.len() && a != m.address ==> written.data[a] == m.data[a]
        }),
{
    lemma_states_value_bound(m.input_states);
    lemma_states_value_bound(m.address_states);
    lemma2_to64();
    lemma_fixed_bits_of_value(m.input_states);
    let w = m.input as u16;
    assert(w as nat == m.input);
}

/// A memory's words change only on a rising clock edge, and then only at its address;
/// setting any pin keeps the memory consistent.
pub proof fn lemma_memory_writes_only_on_clock_edge(m: MemoryView, idx: nat, st: PinState)
    requires
        memory_wf(m),
    ensures
        memory_wf(memory_after(m, idx, st)),
        !(idx == 16 + m.size && rising(m.clock_state, st)) ==> memory_after(m, idx, st).data == m.data,
        forall|a: int| 0 <= a < m.data.len() && a != m.address ==> memory_after(m, idx, st).data[a] == m.data[a],
{
    lemma_states_value_bound(m.address_states);
}

/// A read only memory never changes its words, and setting any pin keeps it consistent.
pub proof fn lemma_rom_read_only(r: RomView, idx: nat, st: PinState)
    requires
        rom_wf(r),
    ensures
        rom_wf(rom_after(r, idx, st)),
        rom_after(r, idx, st).data == r.data,
{
}

/// Words given to a memory are the words it then holds at its start; its size stays.
pub proof fn lemma_given_words_are_taken(data: Seq<u16>, memory: Seq<u16>)
    requires
        memory.len() <= data.len(),
    ensures
        given(data, memory).len() == data.len(),
        given(data, memory).subrange(0, memory.len() as int) == memory,
{
    assert(given(data, memory).subrange(0, memory.len() as int) =~= memory);
}

/// Setting input pin `k` of a memory sets bit `k` of its input word, and only that bit,
/// whatever the state: the input is then the word that the updated input pins spell.
pub proof fn lemma_memory_input_pin(m: MemoryView, k: nat, st: PinState)
    requires
        memory_wf(m),
        k < 16,
    ensures
        memory_after(m, k, st).input_states.len() == 16,
        memory_after(m, k, st).input_states[k as int] == st,
        forall|q: int| 0 <= q < 16 && q != k ==> memory_after(m, k, st).input_states[q] == m.input_states[q],
        memory_after(m, k, st).input == states_value(memory_after(m, k, st).input_states),
        word_states(memory_after(m, k, st).input as u16)[k as int] == as_signal(st),
        memory_after(m, k, st).data == m.data,
        memory_after(m, k, st).address == m.address,
{
    let states = m.input_states.update(k as int, st);
    lemma_states_value_bound(states);
    lemma2_to64();
    lemma_fixed_bits_of_value(states);
    let w = states_value(states) as u16;
    assert(w as nat == states_value(states));
}

} // verus!
