//! The high-level simulators of the basic components: internal pins, switches, bulbs and
//! junctions, single and multiple.

use vstd::prelude::*;

use crate::pins::{combined, PinError, PinState};

verus! {

/// Something that simulates the behaviour of a component through its pins.
pub trait ComponentSimulator {
    /// The simulator's state is consistent.
    spec fn wf(&self) -> bool;

    /// Returns the state of a pin.
    fn get_pin_state_high_level(&self, idx: usize) -> (r: Result<PinState, PinError>)
        requires
            self.wf(),
    ;

    /// Sets the state of a pin.
    fn set_pin_state_high_level(&mut self, idx: usize, state: PinState) -> (r: Result<(), PinError>)
        requires
            old(self).wf(),
        ensures
            final(self).wf(),
    ;

    /// Returns the state of a pin when accessed externally, from the chip that the
    /// component is in.
    fn get_pin_state_external(&self, idx: usize) -> (r: Result<PinState, PinError>)
        requires
            self.wf(),
    ;

    /// Sets the state of a pin externally (e.g. when turning on a switch).
    fn set_pin_state_external(&mut self, idx: usize, state: PinState) -> (r: Result<(), PinError>)
        requires
            old(self).wf(),
        ensures
            final(self).wf(),
    ;
}

/// A simulator for an internal pin. It holds two states so that an input pin can be read
/// from within the circuit without the state leaking to the outside of the chip.
pub struct PinSimulator {
    /// The state accessible by the circuit.
    pub inner_state: PinState,
    /// The state accessible by the chip.
    pub outer_state: PinState,
}

impl PinSimulator {
    /// Returns a new [`PinSimulator`].
    pub fn new() -> (r: Self)
        ensures
            r.inner_state == PinState::Disconnected,
            r.outer_state == PinState::Disconnected,
    {
        Self { inner_state: PinState::Disconnected, outer_state: PinState::Disconnected }
    }
}

impl ComponentSimulator for PinSimulator {
    open spec fn wf(&self) -> bool {
        true
    }

    fn get_pin_state_high_level(&self, idx: usize) -> (r: Result<PinState, PinError>)
        ensures
            r == (if idx > 0 { Err(PinError::OutOfRange) } else { Ok(self.inner_state) }),
    {
        if idx > 0 {
            Err(PinError::OutOfRange)
        } else {
            Ok(self.inner_state)
        }
    }

    fn set_pin_state_high_level(&mut self, idx: usize, state: PinState) -> (r: Result<(), PinError>)
        ensures
            idx > 0 ==> r == Err::<(), PinError>(PinError::OutOfRange) && *final(self) == *old(self),
            idx == 0 ==> r is Ok && final(self).outer_state == state && final(self).inner_state == old(self).inner_state,
    {
        if idx > 0 {
            Err(PinError::OutOfRange)
        } else {
            self.outer_state = state;
            Ok(())
        }
    }

    fn get_pin_state_external(&self, idx: usize) -> (r: Result<PinState, PinError>)
        ensures
            r == (if idx > 0 { Err(PinError::OutOfRange) } else { Ok(self.outer_state) }),
    {
        if idx > 0 {
            Err(PinError::OutOfRange)
        } else {
            Ok(self.outer_state)
        }
    }

    fn set_pin_state_external(&mut self, idx: usize, state: PinState) -> (r: Result<(), PinError>)
        ensures
            idx > 0 ==> r == Err::<(), PinError>(PinError::OutOfRange) && *final(self) == *old(self),
            idx == 0 ==> r is Ok && final(self).inner_state == state && final(self).outer_state == old(self).outer_state,
    {
        if idx > 0 {
            Err(PinError::OutOfRange)
        } else {
            self.inner_state = state;
            Ok(())
        }
    }
}

/// A simulator for a switch.
pub struct SwitchSimulator {
    /// The state of the switch.
    pub state: PinState,
}

impl SwitchSimulator {
    /// Returns a new [`SwitchSimulator`], switched off.
    pub fn new() -> (r: Self)
        ensures
            r.state == PinState::Off,
    {
        Self { state: PinState::Off }
    }
}

impl ComponentSimulator for SwitchSimulator {
    open spec fn wf(&self) -> bool {
        true
    }

    fn get_pin_state_high_level(&self, idx: usize) -> (r: Result<PinState, PinError>)
        ensures
            r == (if idx > 0 { Err(PinError::OutOfRange) } else { Ok(self.state) }),
    {
        if idx > 0 {
            Err(PinError::OutOfRange)
        } else {
            Ok(self.state)
        }
    }

    fn set_pin_state_high_level(&mut self, idx: usize, _state: PinState) -> (r: Result<(), PinError>)
        ensures
            r == (if idx > 0 { Err(PinError::OutOfRange) } else { Ok(()) }),
            *final(self) == *old(self),
    {
        if idx > 0 {
            Err(PinError::OutOfRange)
        } else {
            Ok(())
        }
    }

    fn get_pin_state_external(&self, idx: usize) -> (r: Result<PinState, PinError>)
        ensures
            r == (if idx > 0 { Err(PinError::OutOfRange) } else { Ok(self.state) }),
    {
        self.get_pin_state_high_level(idx)
    }

    fn set_pin_state_external(&mut self, idx: usize, state: PinState) -> (r: Result<(), PinError>)
        ensures
            idx > 0 ==> r == Err::<(), PinError>(PinError::OutOfRange) && *final(self) == *old(self),
            idx == 0 ==> r is Ok && final(self).state == state,
    {
        if idx > 0 {
            Err(PinError::OutOfRange)
        } else {
            self.state = state;
            Ok(())
        }
    }
}

/// Returns a list of `size` copies of a state.
pub(crate) fn repeated(state: PinState, size: usize) -> (r: Vec<PinState>)
    ensures
        r@ == Seq::new(size as nat, |i: int| state),
{
    let mut v: Vec<PinState> = Vec::new();
    let mut k: usize = 0;
    while k < size
        invariant
            k <= size,
            v@ == Seq::new(k as nat, |i: int| state),
        decreases size - k,
    {
        v.push(state);
        k = k + 1;
        assert(v@ =~= Seq::new(k as nat, |i: int| state));
    }
    v
}

/// A simulator for a multi-switch.
pub struct MultiSwitchSimulator {
    /// The states of each switch.
    pub states: Vec<PinState>,
}

impl MultiSwitchSimulator {
    /// Returns a new [`MultiSwitchSimulator`] of `size` switches, all off.
    pub fn new(size: usize) -> (r: Self)
        ensures
            r.states@ == Seq::new(size as nat, |i: int| PinState::Off),
    {
        Self { states: repeated(PinState::Off, size) }
    }
}

impl ComponentSimulator for MultiSwitchSimulator {
    open spec fn wf(&self) -> bool {
        true
    }

    fn get_pin_state_high_level(&self, idx: usize) -> (r: Result<PinState, PinError>)
        ensures
            r == (if idx >= self.states@.len() { Err(PinError::OutOfRange) } else { Ok(self.states@[idx as int]) }),
    {
        if idx >= self.states.len() {
            Err(PinError::OutOfRange)
        } else {
            Ok(self.states[idx])
        }
    }

    fn set_pin_state_high_level(&mut self, idx: usize, _state: PinState) -> (r: Result<(), PinError>)
        ensures
            r == (if idx >= old(self).states@.len() { Err(PinError::OutOfRange) } else { Ok(()) }),
            final(self).states@ == old(self).states@,
    {
        if idx >= self.states.len() {
            Err(PinError::OutOfRange)
        } else {
            Ok(())
        }
    }

    fn get_pin_state_external(&self, idx: usize) -> (r: Result<PinState, PinError>)
        ensures
            r == (if idx >= self.states@.len() { Err(PinError::OutOfRange) } else { Ok(self.states@[idx as int]) }),
    {
        self.get_pin_state_high_level(idx)
    }

    fn set_pin_state_external(&mut self, idx: usize, state: PinState) -> (r: Result<(), PinError>)
        ensures
            idx >= old(self).states@.len() ==> r == Err::<(), PinError>(PinError::OutOfRange) && final(self).states@ == old(self).states@,
            idx < old(self).states@.len() ==> r is Ok && final(self).states@ == old(self).states@.update(idx as int, state),
    {
        if idx >= self.states.len() {
            Err(PinError::OutOfRange)
        } else {
            self.states.set(idx, state);
            Ok(())
        }
    }
}

/// A simulator for a bulb.
pub struct BulbSimulator {
    /// The bulb's state.
    pub state: PinState,
}

impl BulbSimulator {
    /// Returns a new [`BulbSimulator`], disconnected.
    pub fn new() -> (r: Self)
        ensures
            r.state == PinState::Disconnected,
    {
        Self { state: PinState::Disconnected }
    }
}

impl ComponentSimulator for BulbSimulator {
    open spec fn wf(&self) -> bool {
        true
    }

    fn get_pin_state_high_level(&self, idx: usize) -> (r: Result<PinState, PinError>)
        ensures
            r == (if idx > 0 { Err(PinError::OutOfRange) } else { Ok(PinState::Disconnected) }),
    {
        if idx > 0 {
            Err(PinError::OutOfRange)
        } else {
            Ok(PinState::Disconnected)
        }
    }

    fn set_pin_state_high_level(&mut self, idx: usize, state: PinState) -> (r: Result<(), PinError>)
        ensures
            idx > 0 ==> r == Err::<(), PinError>(PinError::OutOfRange) && *final(self) == *old(self),
            idx == 0 ==> r is Ok && final(self).state == state,
    {
        if idx > 0 {
            Err(PinError::OutOfRange)
        } else {
            self.state = state;
            Ok(())
        }
    }

    fn get_pin_state_external(&self, idx: usize) -> (r: Result<PinState, PinError>)
        ensures
            r == (if idx > 0 { Err(PinError::OutOfRange) } else { Ok(self.state) }),
    {
        if idx > 0 {
            Err(PinError::OutOfRange)
        } else {
            Ok(self.state)
        }
    }

    fn set_pin_state_external(&mut self, idx: usize, state: PinState) -> (r: Result<(), PinError>)
        ensures
            idx > 0 ==> r == Err::<(), PinError>(PinError::OutOfRange) && *final(self) == *old(self),
            idx == 0 ==> r is Ok && final(self).state == state,
    {
        self.set_pin_state_high_level(idx, state)
    }
}

/// A simulator for a multi-bulb.
pub struct MultiBulbSimulator {
    /// The bulb states.
    pub states: Vec<PinState>,
}

impl MultiBulbSimulator {
    /// Returns a new [`MultiBulbSimulator`] of `size` bulbs, all disconnected.
    pub fn new(size: usize) -> (r: Self)
        ensures
            r.states@ == Seq::new(size as nat, |i: int| PinState::Disconnected),
    {
        Self { states: repeated(PinState::Disconnected, size) }
    }
}

impl ComponentSimulator for MultiBulbSimulator {
    open spec fn wf(&self) -> bool {
        true
    }

    fn get_pin_state_high_level(&self, idx: usize) -> (r: Result<PinState, PinError>)
        ensures
            r == (if idx >= self.states@.len() { Err(PinError::OutOfRange) } else { Ok(PinState::Disconnected) }),
    {
        if idx >= self.states.len() {
            Err(PinError::OutOfRange)
        } else {
            Ok(PinState::Disconnected)
        }
    }

    fn set_pin_state_high_level(&mut self, idx: usize, state: PinState) -> (r: Result<(), PinError>)
        ensures
            idx >= old(self).states@.len() ==> r == Err::<(), PinError>(PinError::OutOfRange) && final(self).states@ == old(self).states@,
            idx < old(self).states@.len() ==> r is Ok && final(self).states@ == old(self).states@.update(idx as int, state),
    {
        if idx >= self.states.len() {
            Err(PinError::OutOfRange)
        } else {
            self.states.set(idx, state);
            Ok(())
        }
    }

    fn get_pin_state_external(&self, idx: usize) -> (r: Result<PinState, PinError>)
        ensures
            r == (if idx >= self.states@.len() { Err(PinError::OutOfRange) } else { Ok(self.states@[idx as int]) }),
    {
        if idx >= self.states.len() {
            Err(PinError::OutOfRange)
        } else {
            Ok(self.states[idx])
        }
    }

    fn set_pin_state_external(&mut self, idx: usize, state: PinState) -> (r: Result<(), PinError>)
        ensures
            idx >= old(self).states@.len() ==> r == Err::<(), PinError>(PinError::OutOfRange) && final(self).states@ == old(self).states@,
            idx < old(self).states@.len() ==> r is Ok && final(self).states@ == old(self).states@.update(idx as int, state),
    {
        self.set_pin_state_high_level(idx, state)
    }
}

/// The state that a group of junction pins gives out: the first state that is not
/// disconnected, or disconnected if all are.
pub open spec fn first_connected(s: Seq<PinState>) -> PinState
    decreases s.len(),
{
    if s.len() == 0 {
        PinState::Disconnected
    } else if s[0] != PinState::Disconnected {
        s[0]
    } else {
        first_connected(s.drop_first())
    }
}

proof fn lemma_first_connected_push(s: Seq<PinState>, c: PinState)
    ensures
        first_connected(s.push(c)) == combined(first_connected(s), c),
    decreases s.len(),
{
    if s.len() == 0 {
        assert(s.push(c).drop_first() =~= seq![]);
        assert(s.push(c)[0] == c);
        assert(first_connected(s.push(c).drop_first()) == PinState::Disconnected);
    } else if s[0] != PinState::Disconnected {
        assert(s.push(c)[0] == s[0]);
    } else {
        assert(s.push(c)[0] == s[0]);
        lemma_first_connected_push(s.drop_first(), c);
        assert(s.push(c).drop_first() =~= s.drop_first().push(c));
    }
}

/// Combines the states from `start` to `end` in order, as a junction does.
fn combine_range(states: &Vec<PinState>, start: usize, end: usize) -> (r: PinState)
    requires
        start < end <= states@.len(),
    ensures
        r == first_connected(states@.subrange(start as int, end as int)),
{
    let mut acc = states[start];
    let mut k = start + 1;
    proof {
        lemma_first_connected_push(seq![], states@[start as int]);
        assert(states@.subrange(start as int, k as int) =~= seq![].push(states@[start as int]));
    }
    while k < end
        invariant
            start < k <= end <= states@.len(),
            acc == first_connected(states@.subrange(start as int, k as int)),
        decreases end - k,
    {
        proof {
            lemma_first_connected_push(states@.subrange(start as int, k as int), states@[k as int]);
            assert(states@.subrange(start as int, k + 1) =~= states@.subrange(start as int, k as int).push(states@[k as int]));
        }
        acc = acc.combine(&states[k]);
        k = k + 1;
    }
    acc
}

/// A simulator for a junction.
pub struct JunctionSimulator {
    /// The states driven into each of the junction's pins.
    pub states: Vec<PinState>,
}

impl JunctionSimulator {
    /// Returns a new [`JunctionSimulator`] with `size` pins, all disconnected.
    pub fn new(size: usize) -> (r: Self)
        ensures
            r.states@ == Seq::new(size as nat, |i: int| PinState::Disconnected),
    {
        Self { states: repeated(PinState::Disconnected, size) }
    }

    /// Returns the output state of the junction.
    pub fn get_state(&self) -> (r: PinState)
        requires
            self.states@.len() > 0,
        ensures
            r == first_connected(self.states@),
    {
        let r = combine_range(&self.states, 0, self.states.len());
        assert(self.states@.subrange(0, self.states@.len() as int) =~= self.states@);
        r
    }
}

impl ComponentSimulator for JunctionSimulator {
    open spec fn wf(&self) -> bool {
        true
    }

    fn get_pin_state_high_level(&self, idx: usize) -> (r: Result<PinState, PinError>)
        ensures
            r == (if idx >= self.states@.len() {
                Err(PinError::OutOfRange)
            } else if self.states@[idx as int] == PinState::Disconnected {
                Ok(first_connected(self.states@))
            } else {
                Ok(PinState::Disconnected)
            }),
    {
        if idx >= self.states.len() {
            Err(PinError::OutOfRange)
        } else if self.states[idx] == PinState::Disconnected {
            Ok(self.get_state())
        } else {
            Ok(PinState::Disconnected)
        }
    }

    fn set_pin_state_high_level(&mut self, idx: usize, state: PinState) -> (r: Result<(), PinError>)
        ensures
            idx >= old(self).states@.len() ==> r == Err::<(), PinError>(PinError::OutOfRange) && final(self).states@ == old(self).states@,
            idx < old(self).states@.len() ==> r is Ok && final(self).states@ == old(self).states@.update(idx as int, state),
    {
        if idx >= self.states.len() {
            Err(PinError::OutOfRange)
        } else {
            self.states.set(idx, state);
            Ok(())
        }
    }

    fn get_pin_state_external(&self, idx: usize) -> (r: Result<PinState, PinError>)
        ensures
            r == (if idx >= self.states@.len() { Err(PinError::OutOfRange) } else { Ok(first_connected(self.states@)) }),
    {
        if idx >= self.states.len() {
            Err(PinError::OutOfRange)
        } else {
            Ok(self.get_state())
        }
    }

    fn set_pin_state_external(&mut self, idx: usize, state: PinState) -> (r: Result<(), PinError>)
        ensures
            idx >= old(self).states@.len() ==> r == Err::<(), PinError>(PinError::OutOfRange) && final(self).states@ == old(self).states@,
            idx < old(self).states@.len() ==> r is Ok && final(self).states@ == old(self).states@.update(idx as int, state),
    {
        self.set_pin_state_high_level(idx, state)
    }
}

/// A simulator for a multi-junction: `size` junctions of three pins each; pin `i` is pin
/// `i % 3` of junction `i / 3`. The states are held in one list, three per junction.
pub struct MultiJunctionSimulator {
    /// The states driven into each pin, junction after junction.
    pub states: Vec<PinState>,
}

/// The three states of junction `g`.
pub open spec fn group_of(s: Seq<PinState>, g: int) -> Seq<PinState> {
    s.subrange(3 * g, 3 * g + 3)
}

impl MultiJunctionSimulator {
    /// Returns a new [`MultiJunctionSimulator`] of `size` junctions, all disconnected.
    pub fn new(size: usize) -> (r: Self)
        requires
            size <= usize::MAX / 3,
        ensures
            r.wf(),
            r.states@ == Seq::new(3 * size as nat, |i: int| PinState::Disconnected),
    {
        Self { states: repeated(PinState::Disconnected, 3 * size) }
    }

    /// Returns the output state of junction `idx`.
    pub fn get_state(&self, idx: usize) -> (r: PinState)
        requires
            self.wf(),
            idx < self.states@.len() / 3,
        ensures
            r == first_connected(group_of(self.states@, idx as int)),
    {
        let n = self.states.len();
        assert(3 * idx + 3 <= n) by (nonlinear_arith)
            requires
                idx < n / 3,
        ;
        combine_range(&self.states, 3 * idx, 3 * idx + 3)
    }
}

impl ComponentSimulator for MultiJunctionSimulator {
    open spec fn wf(&self) -> bool {
        self.states@.len() % 3 == 0
    }

    fn get_pin_state_high_level(&self, idx: usize) -> (r: Result<PinState, PinError>)
        ensures
            r == (if idx >= self.states@.len() {
                Err(PinError::OutOfRange)
            } else if self.states@[idx as int] == PinState::Disconnected {
                Ok(first_connected(group_of(self.states@, (idx / 3) as int)))
            } else {
                Ok(PinState::Disconnected)
            }),
    {
        if idx >= self.states.len() {
            Err(PinError::OutOfRange)
        } else if self.states[idx] == PinState::Disconnected {
            Ok(self.get_state(idx / 3))
        } else {
            Ok(PinState::Disconnected)
        }
    }

    fn set_pin_state_high_level(&mut self, idx: usize, state: PinState) -> (r: Result<(), PinError>)
        ensures
            idx >= old(self).states@.len() ==> r == Err::<(), PinError>(PinError::OutOfRange) && final(self).states@ == old(self).states@,
            idx < old(self).states@.len() ==> r is Ok && final(self).states@ == old(self).states@.update(idx as int, state),
    {
        if idx >= self.states.len() {
            Err(PinError::OutOfRange)
        } else {
            self.states.set(idx, state);
            Ok(())
        }
    }

    fn get_pin_state_external(&self, idx: usize) -> (r: Result<PinState, PinError>)
        ensures
            r == (if idx >= self.states@.len() {
                Err(PinError::OutOfRange)
            } else {
                Ok(first_connected(group_of(self.states@, (idx / 3) as int)))
            }),
    {
        if idx >= self.states.len() {
            Err(PinError::OutOfRange)
        } else {
            Ok(self.get_state(idx / 3))
        }
    }

    fn set_pin_state_external(&mut self, idx: usize, state: PinState) -> (r: Result<(), PinError>)
        ensures
            idx >= old(self).states@.len() ==> r == Err::<(), PinError>(PinError::OutOfRange) && final(self).states@ == old(self).states@,
            idx < old(self).states@.len() ==> r is Ok && final(self).states@ == old(self).states@.update(idx as int, state),
    {
        self.set_pin_state_high_level(idx, state)
    }
}

/// A junction splits a signal onto its other wires: when one pin alone is driven, the
/// junction gives the driven state, which every other pin then shows.
pub proof fn lemma_junction_spreads_single_driver(s: Seq<PinState>, i: int)
    requires
        0 <= i < s.len(),
        forall|j: int| 0 <= j < s.len() && j != i ==> s[j] == PinState::Disconnected,
    ensures
        first_connected(s) == s[i],
    decreases s.len(),
{
    if i > 0 {
        assert(s[0] == PinState::Disconnected);
        lemma_junction_spreads_single_driver(s.drop_first(), i - 1);
    } else if s[0] == PinState::Disconnected {
        lemma_junction_all_disconnected(s.drop_first());
    }
}

/// A junction that no pin drives gives disconnected.
pub proof fn lemma_junction_all_disconnected(s: Seq<PinState>)
    requires
        forall|j: int| 0 <= j < s.len() ==> s[j] == PinState::Disconnected,
    ensures
        first_connected(s) == PinState::Disconnected,
    decreases s.len(),
{
    if s.len() > 0 {
        lemma_junction_all_disconnected(s.drop_first());
    }
}

/// The junctions of a multi-junction are independent: setting a pin of one junction leaves
/// the states of every other junction as they were.
pub proof fn lemma_multi_junction_independent(s: Seq<PinState>, idx: int, st: PinState, g: int)
    requires
        s.len() % 3 == 0,
        0 <= idx < s.len(),
        0 <= g < s.len() / 3,
        g != idx / 3,
    ensures
        group_of(s.update(idx, st), g) == group_of(s, g),
{
    assert(3 * g + 3 <= s.len());
    assert(idx < 3 * g || idx >= 3 * g + 3);
    assert(group_of(s.update(idx, st), g) =~= group_of(s, g));
}

/// Each junction of a multi-junction combines all three of its pins: when only pin `j` of
/// junction `g` is driven, the junction gives that pin's state, which each of its other
/// pins then shows.
pub proof fn lemma_multi_junction_combines_its_three_pins(s: Seq<PinState>, g: int, j: int)
    requires
        s.len() % 3 == 0,
        0 <= g < s.len() / 3,
        0 <= j < 3,
        forall|q: int| 3 * g <= q < 3 * g + 3 && q != 3 * g + j ==> s[q] == PinState::Disconnected,
    ensures
        group_of(s, g).len() == 3,
        first_connected(group_of(s, g)) == s[3 * g + j],
{
    assert(3 * g + 3 <= s.len());
    let grp = group_of(s, g);
    assert(grp.len() == 3);
    assert(grp[j] == s[3 * g + j]);
    assert forall|q: int| 0 <= q < 3 && q != j implies grp[q] == PinState::Disconnected by {
        assert(grp[q] == s[3 * g + q]);
    }
    lemma_junction_spreads_single_driver(grp, j);
}

} // verus!
