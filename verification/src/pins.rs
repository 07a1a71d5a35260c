//! Pin states, and the conversions between lists of pin states and numbers.

use vstd::prelude::*;

verus! {

/// A pin state.
///
/// Every component has a number of pins that can be read from or written to. For example, an
/// AND gate has two pins for input and one pin for output.
#[derive(Clone, Copy, Debug, PartialEq, Eq, Structural)]
pub enum PinState {
    /// Analogous to a high signal (e.g. 5V).
    On,
    /// Analogous to a low signal (e.g. 0V).
    Off,
    /// Analogous to a disconnected signal. In a lot of cases this functions in the same way as
    /// low, but with the junction component it behaves differently.
    Disconnected,
}

/// A pin state toggled: On and Off swap, Disconnected stays.
pub open spec fn toggled(s: PinState) -> PinState {
    match s {
        PinState::On => PinState::Off,
        PinState::Off => PinState::On,
        PinState::Disconnected => PinState::Disconnected,
    }
}

/// The state that two combined states give: the second where the first is disconnected.
pub open spec fn combined(a: PinState, b: PinState) -> PinState {
    if a == PinState::Disconnected {
        b
    } else {
        a
    }
}

/// Whether a state is On.
pub open spec fn is_on(s: PinState) -> bool {
    s == PinState::On
}

impl PinState {
    /// Combines a pin state with another pin state. If this state is
    /// [`PinState::Disconnected`], the other one is chosen.
    pub fn combine(&self, other: &PinState) -> (r: PinState)
        ensures
            r == combined(*self, *other),
    {
        if *self == PinState::Disconnected {
            *other
        } else {
            *self
        }
    }

    /// Toggles a pin state. If the state is [`PinState::Disconnected`], toggling doesn't
    /// affect it.
    pub fn toggle(&self) -> (r: PinState)
        ensures
            r == toggled(*self),
    {
        match *self {
            PinState::On => PinState::Off,
            PinState::Off => PinState::On,
            PinState::Disconnected => PinState::Disconnected,
        }
    }

    /// Returns the colour of the state, as the renderer draws it.
    pub fn get_colour(&self) -> (r: &'static str)
        ensures
            *self == PinState::On ==> r@ == "#fb016e"@,
            *self == PinState::Off ==> r@ == "#333"@,
            *self == PinState::Disconnected ==> r@ == "#999"@,
    {
        match self {
            PinState::On => "#fb016e",
            PinState::Off => "#333",
            PinState::Disconnected => "#999",
        }
    }

    /// Returns `true` if the state is [`PinState::On`] and `false` otherwise.
    pub fn to_bool(&self) -> (r: bool)
        ensures
            r == is_on(*self),
    {
        *self == PinState::On
    }

    /// Returns [`PinState::On`] for `true` and [`PinState::Off`] for `false`.
    pub fn from_bool(b: bool) -> (r: PinState)
        ensures
            r == (if b { PinState::On } else { PinState::Off }),
    {
        if b {
            PinState::On
        } else {
            PinState::Off
        }
    }

    /// Returns the XOR of this signal with the given signal; a disconnected signal counts
    /// as off.
    pub fn xor(&self, other: PinState) -> (r: PinState)
        ensures
            r == (if is_on(*self) != is_on(other) { PinState::On } else { PinState::Off }),
    {
        match (self.to_bool(), other.to_bool()) {
            (true, true) => PinState::Off,
            (true, false) => PinState::On,
            (false, true) => PinState::On,
            (false, false) => PinState::Off,
        }
    }
}

/// The number that a list of pin states writes in binary, the first state the most
/// significant bit; On is 1, Off and Disconnected are 0.
pub open spec fn states_value(s: Seq<PinState>) -> nat
    decreases s.len(),
{
    if s.len() == 0 {
        0
    } else {
        states_value(s.drop_last()) * 2 + (if is_on(s.last()) { 1nat } else { 0nat })
    }
}

/// The binary digits of a number as pin states, most significant first, with no leading
/// zero: On for 1 and Off for 0. Zero has no digits.
pub open spec fn bits_of(n: nat) -> Seq<PinState>
    decreases n,
{
    if n == 0 {
        seq![]
    } else {
        bits_of(n / 2).push(if n % 2 == 1 { PinState::On } else { PinState::Off })
    }
}

proof fn lemma_states_value_prefix(s: Seq<PinState>, k: int)
    requires
        0 <= k <= s.len(),
    ensures
        states_value(s.take(k)) <= states_value(s),
    decreases s.len() - k,
{
    if k < s.len() {
        lemma_states_value_prefix(s, k + 1);
        assert(s.take(k + 1).drop_last() =~= s.take(k));
    } else {
        assert(s.take(k) =~= s);
    }
}

/// Converts a list of pin states into a number by interpreting the states as a binary
/// value. [`PinState::Disconnected`] and [`PinState::Off`] are treated as 0 and
/// [`PinState::On`] is treated as 1. The first state in the list is the most significant bit.
pub fn states_to_num(states: &Vec<PinState>) -> (r: u32)
    requires
        states_value(states@) <= u32::MAX,
    ensures
        r == states_value(states@),
{
    let mut result: u32 = 0;
    let mut k: usize = 0;
    assert(states@.take(0) =~= seq![]);
    while k < states.len()
        invariant
            k <= states@.len(),
            result == states_value(states@.take(k as int)),
            states_value(states@) <= u32::MAX,
        decreases states@.len() - k,
    {
        proof {
            lemma_states_value_prefix(states@, k + 1);
            assert(states@.take(k + 1).drop_last() =~= states@.take(k as int));
        }
        result = result * 2;
        if states[k] == PinState::On {
            result = result + 1;
        }
        k = k + 1;
    }
    assert(states@.take(k as int) =~= states@);
    result
}

/// Converts a number into a list of pin states where each pin state is a binary digit of the
/// number. The first state in the list is the most significant bit.
pub fn num_to_states(num: u32) -> (r: Vec<PinState>)
    ensures
        r@ == bits_of(num as nat),
{
    let mut result: Vec<PinState> = Vec::new();
    let mut current = num;
    assert(bits_of(current as nat) + result@ =~= bits_of(num as nat));
    while current != 0
        invariant
            bits_of(current as nat) + result@ == bits_of(num as nat),
        decreases current,
    {
        let bit = if current % 2 == 1 { PinState::On } else { PinState::Off };
        let ghost before = result@;
        result.insert(0, bit);
        assert(bits_of(current as nat) == bits_of((current / 2) as nat).push(bit));
        assert(bits_of((current / 2) as nat) + result@ =~= bits_of(current as nat) + before);
        current = current / 2;
    }
    assert(bits_of(0) + result@ =~= result@);
    result
}

/// Toggling twice gives back the state.
pub proof fn lemma_toggle_involution(s: PinState)
    ensures
        toggled(toggled(s)) == s,
{
}

/// A boolean turned into a state and back is the same boolean; an On or Off state turned
/// into a boolean and back is the same state.
pub proof fn lemma_bool_round_trip(b: bool, s: PinState)
    ensures
        is_on(if b { PinState::On } else { PinState::Off }) == b,
        s != PinState::Disconnected ==> (if is_on(s) { PinState::On } else { PinState::Off }) == s,
{
}

/// Reading back the states of a number gives the number.
pub proof fn lemma_num_states_round_trip(n: nat)
    ensures
        states_value(bits_of(n)) == n,
    decreases n,
{
    if n > 0 {
        lemma_num_states_round_trip(n / 2);
        let b = if n % 2 == 1 { PinState::On } else { PinState::Off };
        assert(bits_of(n / 2).push(b).drop_last() =~= bits_of(n / 2));
    }
}

/// The states of a number have no leading Off: the first is On, unless the number is zero.
pub proof fn lemma_num_states_leading_on(n: nat)
    ensures
        n > 0 ==> bits_of(n).len() > 0 && bits_of(n)[0] == PinState::On,
        n == 0 ==> bits_of(n).len() == 0,
    decreases n,
{
    if n == 1 {
        assert(bits_of(0) =~= seq![]);
        assert(bits_of(1) == bits_of(0).push(PinState::On));
    } else if n > 1 {
        lemma_num_states_leading_on(n / 2);
        let b = if n % 2 == 1 { PinState::On } else { PinState::Off };
        assert(bits_of(n) == bits_of(n / 2).push(b));
        assert(bits_of(n)[0] == bits_of(n / 2)[0]);
    }
}

/// How a chip should be simulated.
#[derive(Clone, Copy, Debug, PartialEq, Eq, Structural)]
pub enum SimulationMode {
    /// Simulate the circuit in the chip.
    Circuit,
    /// Simulate the chip using the high level implementation.
    HighLevel,
}

/// An error that may occur when getting or setting a pin.
#[derive(Clone, Copy, Debug, PartialEq, Eq, Structural)]
pub enum PinError {
    /// The pin index used is too large for the component.
    OutOfRange,
}

} // verus!
