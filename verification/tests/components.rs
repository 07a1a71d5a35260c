use atlas::components::{
    get_ct_name, get_ct_slug, is_ct_spawnable, ComponentOptions, ComponentType, ExternalPin,
};
use atlas::gates::{
    AndGateDrawer, NandGateDrawer, NorGateDrawer, NotGateDrawer, OrGateDrawer,
    TriStateBufferDrawer, XorGateDrawer,
};
use atlas::graphics::{NothingDrawer, RectangleChipDrawer, TextInfo};
use atlas::pins::{num_to_states, states_to_num, PinState};

use PinState::{Disconnected, Off, On};

#[test]
fn combine_prefers_the_connected_state() {
    assert_eq!(Disconnected.combine(&On), On);
    assert_eq!(Disconnected.combine(&Off), Off);
    assert_eq!(Disconnected.combine(&Disconnected), Disconnected);
    assert_eq!(On.combine(&Off), On);
    assert_eq!(Off.combine(&On), Off);
}

#[test]
fn toggle_swaps_on_and_off_only() {
    assert_eq!(On.toggle(), Off);
    assert_eq!(Off.toggle(), On);
    assert_eq!(Disconnected.toggle(), Disconnected);
}

#[test]
fn toggle_twice_gives_the_state_back() {
    for s in [On, Off, Disconnected] {
        assert_eq!(s.toggle().toggle(), s);
    }
}

#[test]
fn colours_of_the_states() {
    assert_eq!(On.get_colour(), "#fb016e");
    assert_eq!(Off.get_colour(), "#333");
    assert_eq!(Disconnected.get_colour(), "#999");
}

#[test]
fn bools_and_states() {
    assert!(On.to_bool());
    assert!(!Off.to_bool());
    assert!(!Disconnected.to_bool());
    assert_eq!(PinState::from_bool(true), On);
    assert_eq!(PinState::from_bool(false), Off);
    for b in [true, false] {
        assert_eq!(PinState::from_bool(b).to_bool(), b);
    }
}

#[test]
fn xor_treats_disconnected_as_off() {
    assert_eq!(On.xor(On), Off);
    assert_eq!(On.xor(Off), On);
    assert_eq!(Off.xor(On), On);
    assert_eq!(Off.xor(Off), Off);
    assert_eq!(On.xor(Disconnected), On);
    assert_eq!(Disconnected.xor(Disconnected), Off);
}

#[test]
fn states_to_num_reads_most_significant_first() {
    assert_eq!(states_to_num(&vec![]), 0);
    assert_eq!(states_to_num(&vec![On, Off, On]), 5);
    assert_eq!(states_to_num(&vec![Off, On, On, Disconnected]), 6);
    assert_eq!(states_to_num(&vec![Disconnected, On]), 1);
}

#[test]
fn num_to_states_has_no_leading_zero() {
    assert_eq!(num_to_states(0), Vec::<PinState>::new());
    assert_eq!(num_to_states(1), vec![On]);
    assert_eq!(num_to_states(6), vec![On, On, Off]);
    assert_eq!(num_to_states(10), vec![On, Off, On, Off]);
}

#[test]
fn numbers_round_trip_through_states() {
    for n in [0u32, 1, 2, 7, 255, 0x1234, 0xffff_ffff] {
        assert_eq!(states_to_num(&num_to_states(n)), n);
    }
}

#[test]
fn component_type_strings() {
    assert_eq!(ComponentType::Bulb.as_string(), "Bulb");
    assert_eq!(ComponentType::HalfAdder.as_string(), "Half Adder");
    assert_eq!(ComponentType::TwoBitMultiplexer.as_string(), "TwoBitMultiplexer");
}

#[test]
fn component_type_names_and_slugs() {
    assert_eq!(get_ct_name(ComponentType::NTransistor), "N-type Transistor");
    assert_eq!(get_ct_name(ComponentType::Adder), "8-bit Adder");
    assert_eq!(get_ct_name(ComponentType::DFlipFlop), "D Flip-Flop");
    assert_eq!(get_ct_slug(ComponentType::TriStateBuffer), "tristatebuffer");
    assert_eq!(get_ct_slug(ComponentType::MultiDFlipFlop), "multidflipflop");
    assert_eq!(get_ct_slug(ComponentType::Pin), "pin");
}

#[test]
fn spawnable_component_types() {
    assert!(is_ct_spawnable(ComponentType::AndGate));
    assert!(is_ct_spawnable(ComponentType::MultiSwitch));
    assert!(!is_ct_spawnable(ComponentType::Pin));
    assert!(!is_ct_spawnable(ComponentType::HalfAdder));
    assert!(!is_ct_spawnable(ComponentType::DFlipFlop));
}

#[test]
fn switches_and_expansion() {
    assert!(ComponentType::Switch.has_switches());
    assert!(ComponentType::MultiSwitch.has_switches());
    assert!(!ComponentType::Bulb.has_switches());
    assert!(!ComponentType::XorGate.should_expand_circuit());
    assert!(!ComponentType::NotGate.should_expand_circuit());
    assert!(ComponentType::Adder.should_expand_circuit());
}

#[test]
fn options_and_external_pins() {
    let o = ComponentOptions { size: 8 };
    assert_eq!(o.size, 8);
    let p = ExternalPin { component_idx: 3, pin_idx: 1 };
    assert_eq!(p, ExternalPin { component_idx: 3, pin_idx: 1 });
    assert_ne!(p, ExternalPin { component_idx: 3, pin_idx: 2 });
}

#[test]
fn drawers_are_made() {
    let _ = AndGateDrawer::new();
    let _ = NandGateDrawer::new();
    let _ = NorGateDrawer::new();
    let _ = NotGateDrawer::new();
    let _ = OrGateDrawer::new();
    let _ = TriStateBufferDrawer::new();
    let _ = XorGateDrawer::new();
    let _ = NothingDrawer::new();
    let d = RectangleChipDrawer::new(TextInfo { text: "ALU".to_string(), size: 40 });
    assert_eq!(d.text_info.text, "ALU");
    assert_eq!(d.text_info.size, 40);
}
