use atlas::latches::{DFlipFlop, DLatch, MultiDFlipFlop, SRLatch};
use atlas::memory::{MemorySimulator, RomSimulator};
use atlas::pins::{PinError, PinState};
use atlas::simulators::{
    BulbSimulator, ComponentSimulator, JunctionSimulator, MultiBulbSimulator,
    MultiJunctionSimulator, MultiSwitchSimulator, PinSimulator, SwitchSimulator,
};

use PinState::{Disconnected, Off, On};

fn word_states(w: u16) -> Vec<PinState> {
    (0..16).map(|i| if (w >> (15 - i)) & 1 == 1 { On } else { Off }).collect()
}

#[test]
fn pin_keeps_inner_and_outer_states_apart() {
    let mut p = PinSimulator::new();
    assert_eq!(p.get_pin_state_high_level(0), Ok(Disconnected));
    p.set_pin_state_external(0, On).unwrap();
    assert_eq!(p.get_pin_state_high_level(0), Ok(On));
    assert_eq!(p.get_pin_state_external(0), Ok(Disconnected));
    p.set_pin_state_high_level(0, Off).unwrap();
    assert_eq!(p.get_pin_state_external(0), Ok(Off));
    assert_eq!(p.get_pin_state_high_level(0), Ok(On));
    assert!(matches!(p.get_pin_state_high_level(1), Err(PinError::OutOfRange)));
    assert!(matches!(p.set_pin_state_external(1, On), Err(PinError::OutOfRange)));
}

#[test]
fn switch_is_set_only_from_outside() {
    let mut s = SwitchSimulator::new();
    assert_eq!(s.get_pin_state_high_level(0), Ok(Off));
    s.set_pin_state_high_level(0, On).unwrap();
    assert_eq!(s.get_pin_state_high_level(0), Ok(Off));
    s.set_pin_state_external(0, On).unwrap();
    assert_eq!(s.get_pin_state_external(0), Ok(On));
    assert_eq!(s.set_pin_state_high_level(1, On), Err(PinError::OutOfRange));
}

#[test]
fn multi_switch_sets_each_switch() {
    let mut s = MultiSwitchSimulator::new(3);
    s.set_pin_state_external(1, On).unwrap();
    assert_eq!(s.get_pin_state_high_level(0), Ok(Off));
    assert_eq!(s.get_pin_state_high_level(1), Ok(On));
    assert_eq!(s.get_pin_state_high_level(3), Err(PinError::OutOfRange));
    assert_eq!(s.set_pin_state_external(3, On), Err(PinError::OutOfRange));
}

#[test]
fn bulbs_show_what_they_are_given() {
    let mut b = BulbSimulator::new();
    assert_eq!(b.get_pin_state_external(0), Ok(Disconnected));
    b.set_pin_state_high_level(0, On).unwrap();
    assert_eq!(b.get_pin_state_external(0), Ok(On));
    assert_eq!(b.get_pin_state_high_level(0), Ok(Disconnected));

    let mut m = MultiBulbSimulator::new(2);
    m.set_pin_state_high_level(1, Off).unwrap();
    assert_eq!(m.get_pin_state_external(1), Ok(Off));
    assert_eq!(m.get_pin_state_external(0), Ok(Disconnected));
    assert_eq!(m.get_pin_state_high_level(1), Ok(Disconnected));
    assert_eq!(m.get_pin_state_external(2), Err(PinError::OutOfRange));
}

#[test]
fn junction_spreads_the_first_connected_state() {
    let mut j = JunctionSimulator::new(3);
    assert_eq!(j.get_state(), Disconnected);
    j.set_pin_state_high_level(1, On).unwrap();
    assert_eq!(j.get_state(), On);
    assert_eq!(j.get_pin_state_high_level(0), Ok(On));
    assert_eq!(j.get_pin_state_high_level(1), Ok(Disconnected));
    assert_eq!(j.get_pin_state_high_level(2), Ok(On));
    j.set_pin_state_high_level(2, Off).unwrap();
    assert_eq!(j.get_state(), On);
    j.set_pin_state_high_level(0, Off).unwrap();
    assert_eq!(j.get_state(), Off);
    assert_eq!(j.get_pin_state_high_level(3), Err(PinError::OutOfRange));
}

#[test]
fn multi_junction_groups_pins_by_three() {
    let mut j = MultiJunctionSimulator::new(2);
    j.set_pin_state_high_level(4, On).unwrap();
    assert_eq!(j.get_state(0), Disconnected);
    assert_eq!(j.get_state(1), On);
    assert_eq!(j.get_pin_state_high_level(3), Ok(On));
    assert_eq!(j.get_pin_state_high_level(4), Ok(Disconnected));
    assert_eq!(j.get_pin_state_high_level(0), Ok(Disconnected));
    assert_eq!(j.get_pin_state_external(5), Ok(On));
    assert_eq!(j.get_pin_state_high_level(6), Err(PinError::OutOfRange));
}

#[test]
fn sr_latch_remembers() {
    let mut l = SRLatch::new();
    assert_eq!(l.get_pin_state_high_level(2), Ok(Off));
    assert_eq!(l.get_pin_state_high_level(3), Ok(On));
    l.set_pin_state_high_level(1, On).unwrap();
    l.set_pin_state_high_level(1, Off).unwrap();
    assert_eq!(l.get_pin_state_high_level(2), Ok(On));
    l.set_pin_state_high_level(0, On).unwrap();
    l.set_pin_state_high_level(0, Off).unwrap();
    assert_eq!(l.get_pin_state_high_level(2), Ok(Off));
    assert_eq!(l.get_pin_state_high_level(0), Ok(Disconnected));
    assert_eq!(l.set_pin_state_high_level(4, On), Err(PinError::OutOfRange));
}

#[test]
fn d_latch_is_transparent_while_enabled() {
    let mut l = DLatch::new();
    l.set_pin_state_high_level(0, On).unwrap();
    assert_eq!(l.get_pin_state_high_level(2), Ok(Off));
    l.set_pin_state_high_level(1, On).unwrap();
    assert_eq!(l.get_pin_state_high_level(2), Ok(On));
    l.set_pin_state_high_level(0, Off).unwrap();
    assert_eq!(l.get_pin_state_high_level(2), Ok(Off));
    l.set_pin_state_high_level(1, Off).unwrap();
    l.set_pin_state_high_level(0, On).unwrap();
    assert_eq!(l.get_pin_state_high_level(2), Ok(Off));
    assert_eq!(l.get_pin_state_high_level(3), Ok(On));
}

#[test]
fn d_flip_flop_takes_data_on_rising_edge() {
    let mut f = DFlipFlop::new();
    f.set_pin_state_high_level(0, On).unwrap();
    assert_eq!(f.get_pin_state_high_level(2), Ok(Off));
    f.set_pin_state_high_level(1, On).unwrap();
    assert_eq!(f.get_pin_state_high_level(2), Ok(On));
    f.set_pin_state_high_level(0, Off).unwrap();
    f.set_pin_state_high_level(1, On).unwrap();
    assert_eq!(f.get_pin_state_high_level(2), Ok(On));
    f.set_pin_state_high_level(1, Off).unwrap();
    f.set_pin_state_high_level(1, On).unwrap();
    assert_eq!(f.get_pin_state_high_level(2), Ok(Off));
    assert_eq!(f.get_pin_state_external(5), Err(PinError::OutOfRange));
}

#[test]
fn multi_d_flip_flop_stores_a_word() {
    let mut f = MultiDFlipFlop::new(3);
    assert_eq!(f.get_pin_state_high_level(4), Ok(Off));
    f.set_pin_state_high_level(0, On).unwrap();
    f.set_pin_state_high_level(2, On).unwrap();
    assert_eq!(f.get_pin_state_high_level(4), Ok(Off));
    f.set_pin_state_high_level(3, Off).unwrap();
    f.set_pin_state_high_level(3, On).unwrap();
    assert_eq!(f.get_pin_state_high_level(4), Ok(On));
    assert_eq!(f.get_pin_state_high_level(5), Ok(Disconnected));
    assert_eq!(f.get_pin_state_high_level(6), Ok(On));
    assert_eq!(f.get_pin_state_high_level(3), Ok(Disconnected));
    assert_eq!(f.get_pin_state_high_level(7), Err(PinError::OutOfRange));
    assert_eq!(f.set_pin_state_high_level(7, On), Err(PinError::OutOfRange));
}

#[test]
fn rom_shows_the_word_at_its_address() {
    let mut r = RomSimulator::new(2);
    r.give_memory(&[0x0001, 0x8000, 0xa5a5]);
    for k in 0..16 {
        assert_eq!(r.get_pin_state_high_level(2 + k), Ok(word_states(0x0001)[k]));
    }
    r.set_pin_state_high_level(0, On).unwrap();
    assert_eq!(r.address, 2);
    for k in 0..16 {
        assert_eq!(r.get_pin_state_high_level(2 + k), Ok(word_states(0xa5a5)[k]));
    }
    r.set_pin_state_high_level(0, Off).unwrap();
    r.set_pin_state_high_level(1, On).unwrap();
    assert_eq!(r.get_pin_state_high_level(2), Ok(On));
    assert_eq!(r.get_pin_state_high_level(17), Ok(Off));
    assert_eq!(r.get_pin_state_high_level(0), Ok(Disconnected));
    assert_eq!(r.get_pin_state_high_level(18), Err(PinError::OutOfRange));
    assert_eq!(r.set_pin_state_high_level(18, On), Err(PinError::OutOfRange));
    assert_eq!(r.data, vec![0x0001, 0x8000, 0xa5a5, 0x0000]);
}

#[test]
fn rom_without_address_pins_has_one_word() {
    let mut r = RomSimulator::new(0);
    assert_eq!(r.data.len(), 1);
    r.give_memory(&[0xffff]);
    assert_eq!(r.get_pin_state_external(15), Ok(On));
    assert_eq!(r.get_pin_state_external(16), Err(PinError::OutOfRange));
}

#[test]
fn memory_stores_the_input_on_a_rising_clock() {
    let mut m = MemorySimulator::new(2);
    let word: u16 = 0xa5c3;
    for (k, s) in word_states(word).into_iter().enumerate() {
        m.set_pin_state_high_level(k, s).unwrap();
    }
    assert_eq!(m.input, word);
    m.set_pin_state_high_level(16, On).unwrap();
    m.set_pin_state_high_level(17, Off).unwrap();
    assert_eq!(m.address, 2);
    for k in 0..16 {
        assert_eq!(m.get_pin_state_high_level(19 + k), Ok(Off));
    }
    m.set_pin_state_high_level(18, Off).unwrap();
    m.set_pin_state_high_level(18, On).unwrap();
    for k in 0..16 {
        assert_eq!(m.get_pin_state_high_level(19 + k), Ok(word_states(word)[k]));
    }
    assert_eq!(m.take_memory(), &[0, 0, word, 0]);
    assert_eq!(m.get_pin_state_high_level(18), Ok(Disconnected));
    assert_eq!(m.get_pin_state_high_level(35), Err(PinError::OutOfRange));
}

#[test]
fn memory_writes_only_on_the_edge() {
    let mut m = MemorySimulator::new(1);
    m.set_pin_state_high_level(15, On).unwrap();
    m.set_pin_state_high_level(17, On).unwrap();
    assert_eq!(m.take_memory(), &[1, 0]);
    m.set_pin_state_high_level(14, On).unwrap();
    m.set_pin_state_high_level(17, On).unwrap();
    assert_eq!(m.take_memory(), &[1, 0]);
    m.set_pin_state_high_level(16, On).unwrap();
    m.set_pin_state_high_level(17, Disconnected).unwrap();
    m.set_pin_state_high_level(17, On).unwrap();
    assert_eq!(m.take_memory(), &[1, 3]);
    assert_eq!(m.set_pin_state_external(34, On), Err(PinError::OutOfRange));
}

#[test]
fn memory_is_given_words() {
    let mut m = MemorySimulator::new(2);
    m.give_memory(&[7, 8]);
    assert_eq!(m.take_memory(), &[7, 8, 0, 0]);
    assert_eq!(m.get_pin_state_external(18 + 16), Ok(On));
    assert_eq!(m.get_pin_state_external(18 + 15), Ok(On));
    assert_eq!(m.get_pin_state_external(18 + 14), Ok(On));
    assert_eq!(m.get_pin_state_external(18 + 13), Ok(Off));
}
