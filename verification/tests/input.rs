use brainworms::input::{
    button_pressed, input_down, input_up, key_down, key_is_state, key_up, AcceptedInputs,
    AmBindings, DebugCameraInputBinding, ElementState, KeyStates,
};
use std::collections::HashMap;

#[test]
fn a_recorded_key_is_read_back() {
    let mut states = KeyStates::new();
    assert_eq!(key_down(&states, &AcceptedInputs::KB(5)), None);
    states.record(AcceptedInputs::KB(5), ElementState::Pressed);
    assert_eq!(key_down(&states, &AcceptedInputs::KB(5)), Some(true));
    assert_eq!(key_up(&states, &AcceptedInputs::KB(5)), Some(false));
    states.record(AcceptedInputs::KB(5), ElementState::Released);
    assert_eq!(key_down(&states, &AcceptedInputs::KB(5)), Some(false));
    assert_eq!(key_is_state(&states, &AcceptedInputs::KB(5), &ElementState::Released), Some(true));
}

#[test]
fn keys_and_mouse_buttons_are_kept_apart() {
    let mut states = KeyStates::new();
    states.record(AcceptedInputs::M(5), ElementState::Pressed);
    assert_eq!(key_down(&states, &AcceptedInputs::M(5)), Some(true));
    assert_eq!(key_down(&states, &AcceptedInputs::KB(5)), None);
    assert_ne!(AcceptedInputs::M(5).code(), AcceptedInputs::KB(5).code());
    assert_eq!(AcceptedInputs::KB(u32::MAX).code(), 0xFFFF_FFFF);
    assert_eq!(AcceptedInputs::M(0).code(), 0x1_0000_0000);
}

#[test]
fn bound_actions_read_their_input() {
    let mut states = KeyStates::new();
    let mut bindings: HashMap<u64, AcceptedInputs> = HashMap::new();
    bindings.insert(DebugCameraInputBinding::Forwards.key(), AcceptedInputs::KB(17));
    assert_eq!(input_down(&states, &bindings, &DebugCameraInputBinding::Forwards), None);
    states.record(AcceptedInputs::KB(17), ElementState::Pressed);
    assert_eq!(input_down(&states, &bindings, &DebugCameraInputBinding::Forwards), Some(true));
    assert_eq!(input_up(&states, &bindings, &DebugCameraInputBinding::Forwards), Some(false));
    assert_eq!(input_down(&states, &bindings, &DebugCameraInputBinding::Backwards), None);
}

#[test]
fn scancode_table_lookup() {
    let mut map: HashMap<u32, bool> = HashMap::new();
    map.insert(3, true);
    map.insert(4, false);
    assert!(button_pressed(&map, 3));
    assert!(!button_pressed(&map, 4));
    assert!(!button_pressed(&map, 5));
}

#[test]
fn recording_one_key_leaves_the_others() {
    let mut map: HashMap<u32, bool> = HashMap::new();
    map.insert(1, true);
    map.insert(2, false);
    assert!(button_pressed(&map, 2) == false);
    map.insert(2, true);
    assert!(button_pressed(&map, 2));
    assert!(button_pressed(&map, 1));
}
