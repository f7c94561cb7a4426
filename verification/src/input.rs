//! Keyboard and mouse state bookkeeping and input bindings.
use std::collections::HashMap;
use vstd::prelude::*;

verus! {

broadcast use vstd::std_specs::hash::group_hash_axioms;

/// Whether a key or button is held down.
#[derive(Clone, Copy, PartialEq, Eq, Structural, Debug)]
pub enum ElementState {
    Pressed,
    Released,
}

/// A physical input: a keyboard key by its key code, or a mouse button by
/// its number.
#[derive(Clone, Copy, PartialEq, Eq, Structural, Debug)]
pub enum AcceptedInputs {
    KB(u32),
    M(u16),
}

/// First code used for mouse buttons; keyboard codes lie below it.
pub const MOUSE_CODE_BASE: u64 = 0x1_0000_0000u64;

impl AcceptedInputs {
    /// The code under which an input is recorded: key codes as they are,
    /// mouse buttons above all key codes.
    pub open spec fn spec_code(self) -> u64 {
        match self {
            AcceptedInputs::KB(k) => k as u64,
            AcceptedInputs::M(b) => (MOUSE_CODE_BASE + b) as u64,
        }
    }

    /// The code under which an input is recorded.
    pub fn code(&self) -> (c: u64)
        ensures
            c == self.spec_code(),
    {
        match self {
            AcceptedInputs::KB(k) => *k as u64,
            AcceptedInputs::M(b) => MOUSE_CODE_BASE + (*b as u64),
        }
    }
}

/// Distinct inputs are recorded under distinct codes.
pub proof fn lemma_codes_distinct(a: AcceptedInputs, b: AcceptedInputs)
    ensures
        a.spec_code() == b.spec_code() ==> a == b,
{
}

/// The last known state of each input.
#[derive(Debug)]
pub struct KeyStates {
    pub buttons: HashMap<u64, ElementState>,
}

impl View for KeyStates {
    type V = Map<u64, ElementState>;

    open spec fn view(&self) -> Map<u64, ElementState> {
        self.buttons@
    }
}

impl KeyStates {
    /// No input recorded.
    pub fn new() -> (s: KeyStates)
        ensures
            s@ == Map::<u64, ElementState>::empty(),
    {
        KeyStates { buttons: HashMap::new() }
    }

    /// Records the new state of an input.
    pub fn record(&mut self, input: AcceptedInputs, state: ElementState)
        ensures
            final(self)@ == old(self)@.insert(input.spec_code(), state),
    {
        let c = input.code();
        let _ = self.buttons.insert(c, state);
    }

    /// The last recorded state of an input.
    pub fn state_of(&self, input: &AcceptedInputs) -> (r: Option<ElementState>)
        ensures
            r == (if self@.contains_key(input.spec_code()) {
                Some(self@[input.spec_code()])
            } else {
                None
            }),
    {
        let c = input.code();
        match self.buttons.get(&c) {
            Some(s) => Some(*s),
            None => None,
        }
    }
}

/// Whether an input is in the given state; `None` where it was never recorded.
pub open spec fn key_is_state_spec(
    states: Map<u64, ElementState>,
    input: AcceptedInputs,
    state: ElementState,
) -> Option<bool> {
    if states.contains_key(input.spec_code()) {
        Some(states[input.spec_code()] == state)
    } else {
        None
    }
}

/// Whether an input is in the given state; `None` where it was never recorded.
pub fn key_is_state(input_status: &KeyStates, the_input: &AcceptedInputs, state: &ElementState) -> (r:
    Option<bool>)
    ensures
        r == key_is_state_spec(input_status@, *the_input, *state),
{
    let want_pressed = match state {
        ElementState::Pressed => true,
        ElementState::Released => false,
    };
    match input_status.state_of(the_input) {
        Some(k) => {
            let is_pressed = match k {
                ElementState::Pressed => true,
                ElementState::Released => false,
            };
            Some(is_pressed && want_pressed || !is_pressed && !want_pressed)
        },
        None => None,
    }
}

/// Whether an input is held down; `None` where it was never recorded.
pub fn key_down(input_status: &KeyStates, the_input: &AcceptedInputs) -> (r: Option<bool>)
    ensures
        r == key_is_state_spec(input_status@, *the_input, ElementState::Pressed),
{
    key_is_state(input_status, the_input, &ElementState::Pressed)
}

/// Whether an input is released; `None` where it was never recorded.
pub fn key_up(input_status: &KeyStates, the_input: &AcceptedInputs) -> (r: Option<bool>)
    ensures
        r == key_is_state_spec(input_status@, *the_input, ElementState::Released),
{
    key_is_state(input_status, the_input, &ElementState::Released)
}

/// Of a recorded input, exactly one of "down" and "up" holds; of an input never
/// recorded, neither is known.
pub proof fn lemma_down_is_not_up(states: Map<u64, ElementState>, input: AcceptedInputs)
    ensures
        key_is_state_spec(states, input, ElementState::Pressed) matches Some(d) ==> key_is_state_spec(
            states,
            input,
            ElementState::Released,
        ) == Some(!d),
        key_is_state_spec(states, input, ElementState::Pressed) is None <==> key_is_state_spec(
            states,
            input,
            ElementState::Released,
        ) is None,
{
}

/// Recording a state is what the next query of that input reads back.
pub proof fn lemma_record_then_query(
    states: Map<u64, ElementState>,
    input: AcceptedInputs,
    state: ElementState,
    asked: ElementState,
)
    ensures
        key_is_state_spec(states.insert(input.spec_code(), state), input, asked) == Some(state
            == asked),
{
}

/// Recording one input leaves what every other input reads as it was.
pub proof fn lemma_record_leaves_others(
    states: Map<u64, ElementState>,
    input: AcceptedInputs,
    other: AcceptedInputs,
    state: ElementState,
    asked: ElementState,
)
    requires
        other != input,
    ensures
        key_is_state_spec(states.insert(input.spec_code(), state), other, asked) == key_is_state_spec(
            states,
            other,
            asked,
        ),
{
    lemma_codes_distinct(input, other);
}

/// Logical actions that are bound to physical inputs.
pub trait AmBindings {
    /// The key under which this action's binding is kept.
    spec fn binding_key(&self) -> u64;

    /// The key under which this action's binding is kept.
    fn key(&self) -> (k: u64)
        ensures
            k == self.binding_key(),
    ;
}

/// Actions of the free-flying debug camera.
#[derive(Clone, Copy, PartialEq, Eq, Structural, Debug, Hash)]
pub enum DebugCameraInputBinding {
    Sprint,
    Forwards,
    Backwards,
    StrafeLeft,
    StrafeRight,
    LiftUp,
    Interact,
    Back,
    DebugProfiling,
    GrabWindow,
}

impl AmBindings for DebugCameraInputBinding {
    open spec fn binding_key(&self) -> u64 {
        match self {
            DebugCameraInputBinding::Sprint => 0,
            DebugCameraInputBinding::Forwards => 1,
            DebugCameraInputBinding::Backwards => 2,
            DebugCameraInputBinding::StrafeLeft => 3,
            DebugCameraInputBinding::StrafeRight => 4,
            DebugCameraInputBinding::LiftUp => 5,
            DebugCameraInputBinding::Interact => 6,
            DebugCameraInputBinding::Back => 7,
            DebugCameraInputBinding::DebugProfiling => 8,
            DebugCameraInputBinding::GrabWindow => 9,
        }
    }

    fn key(&self) -> (k: u64) {
        match self {
            DebugCameraInputBinding::Sprint => 0,
            DebugCameraInputBinding::Forwards => 1,
            DebugCameraInputBinding::Backwards => 2,
            DebugCameraInputBinding::StrafeLeft => 3,
            DebugCameraInputBinding::StrafeRight => 4,
            DebugCameraInputBinding::LiftUp => 5,
            DebugCameraInputBinding::Interact => 6,
            DebugCameraInputBinding::Back => 7,
            DebugCameraInputBinding::DebugProfiling => 8,
            DebugCameraInputBinding::GrabWindow => 9,
        }
    }
}

/// Which bindings are in force: the debug camera's, or a scene's own.
pub enum InputContexts<T: AmBindings> {
    Debug,
    Scene(T),
}

/// Contexts of the debug build: what the debug camera reacts to.
#[derive(Clone, Copy, PartialEq, Eq, Structural, Debug, Hash)]
pub enum DebugInputContext {
    Sprint,
    Forwards,
    Backwards,
    StrafeLeft,
    StrafeRight,
    LiftUp,
    Interact,
    Back,
    DebugProfiling,
    GrabWindow,
    Marker,
}

/// A set of input contexts a game switches between.
pub trait InputContext {
}

impl InputContext for DebugInputContext {
}

/// Whether the action bound by `binding` is in the given state; `None` where
/// the action is unbound or its input was never recorded.
pub open spec fn binding_is_state_spec(
    states: Map<u64, ElementState>,
    bindings: Map<u64, AcceptedInputs>,
    key: u64,
    state: ElementState,
) -> Option<bool> {
    if bindings.contains_key(key) {
        key_is_state_spec(states, bindings[key], state)
    } else {
        None
    }
}

/// Whether the input bound to an action is held down; `None` where the action
/// is unbound or its input was never recorded.
pub fn input_down<TO: AmBindings>(
    input_status: &KeyStates,
    keybindings: &HashMap<u64, AcceptedInputs>,
    binding: &TO,
) -> (r: Option<bool>)
    ensures
        r == binding_is_state_spec(
            input_status@,
            keybindings@,
            binding.binding_key(),
            ElementState::Pressed,
        ),
{
    match keybindings.get(&binding.key()) {
        Some(the_key) => key_down(input_status, the_key),
        None => None,
    }
}

/// Whether the input bound to an action is released; `None` where the action
/// is unbound or its input was never recorded.
pub fn input_up<TO: AmBindings>(
    input_status: &KeyStates,
    keybindings: &HashMap<u64, AcceptedInputs>,
    binding: &TO,
) -> (r: Option<bool>)
    ensures
        r == binding_is_state_spec(
            input_status@,
            keybindings@,
            binding.binding_key(),
            ElementState::Released,
        ),
{
    match keybindings.get(&binding.key()) {
        Some(the_key) => key_up(input_status, the_key),
        None => None,
    }
}

/// Whether `key` is recorded as held down in a scancode table; a key that
/// was never recorded counts as not pressed.
pub open spec fn scancode_pressed(map: Map<u32, bool>, key: u32) -> bool {
    map.contains_key(key) && map[key]
}

/// Recording a key's state in a scancode table is what the next lookup of
/// that key reads, and leaves every other key as it was.
pub proof fn lemma_scancode_record(map: Map<u32, bool>, key: u32, other: u32, down: bool)
    ensures
        scancode_pressed(map.insert(key, down), key) == down,
        other != key ==> scancode_pressed(map.insert(key, down), other) == scancode_pressed(map, other),
{
}

/// Whether `key` is recorded as held down in a scancode table; a key that
/// was never recorded counts as not pressed.
pub fn button_pressed(map: &HashMap<u32, bool>, key: u32) -> (pressed: bool)
    ensures
        pressed == scancode_pressed(map@, key),
{
    match map.get(&key) {
        Some(b) => *b,
        None => false,
    }
}

} // verus!
