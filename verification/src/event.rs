//! What a key does, and what a move of the pointer does.
//!
//! The viewer keeps its switches in [`Controls`]: the rotation mode, whether
//! the object turns, whether it is textured and whether it is lit. A key
//! either changes a switch or asks for something that is done with the
//! positions, the speed or the window, which are not kept here: that is its
//! [`Effect`], and whoever keeps them carries it out. In the same way a
//! sample of the pointer's position asks for a [`Look`].

use vstd::prelude::*;
use crate::rotation::{Axis, RotationMode};

verus! {

/// The keys that the viewer knows, and `Other` for the rest.
#[derive(Clone, Copy, Debug, PartialEq, Eq, Structural)]
pub enum Key {
    Escape,
    Plus,
    NumpadAdd,
    Minus,
    NumpadSubtract,
    R,
    Space,
    Right,
    Left,
    PageUp,
    PageDown,
    Up,
    Down,
    D,
    A,
    Home,
    End,
    W,
    S,
    T,
    L,
    C,
    O,
    Other,
}

/// The direction of a move along an axis.
#[derive(Clone, Copy, Debug, PartialEq, Eq, Structural)]
pub enum Sign {
    Plus,
    Minus,
}

/// What a key asks of whoever keeps the positions, the speed and the window.
#[derive(Clone, Copy, Debug, PartialEq, Eq, Structural)]
pub enum Effect {
    /// Nothing.
    Nothing,
    /// The viewer ends.
    Exit,
    /// The speed goes up by one step, within its limits.
    RaiseSpeed,
    /// The speed goes down by one step, within its limits.
    LowerSpeed,
    /// The object moves by the speed along the axis.
    MoveObject(Axis, Sign),
    /// The camera moves by the speed along the axis.
    MoveCamera(Axis, Sign),
    /// The camera turns to the centre of the object.
    AimAtObject,
    /// The mesh is drawn as lines where it was drawn as triangles, and as
    /// triangles where it was drawn as lines.
    SwitchPrimitives,
}

/// What a sample of the pointer's position asks of whoever keeps the
/// direction of the camera.
#[derive(Clone, Copy, Debug, PartialEq, Eq, Structural)]
pub enum Look {
    /// The position is remembered, and the camera stays as it is.
    Remember,
    /// The camera turns by the way that the pointer has gone since the
    /// position that was remembered: sideways by the way across, and up or
    /// down by the way down, taken with the sign. Then the position is
    /// remembered.
    Turn(Sign),
}

/// The switches of the viewer.
#[derive(Clone, Copy, Debug, PartialEq, Eq, Structural)]
pub struct Controls {
    pub rotation_mode: RotationMode,
    pub rotation_enabled: bool,
    pub textured: bool,
    pub lit: bool,
}

/// The switches when the viewer starts: the first rotation mode, the object
/// turning, neither textured nor lit.
pub open spec fn initial_controls() -> Controls {
    Controls {
        rotation_mode: RotationMode::at(0),
        rotation_enabled: true,
        textured: false,
        lit: false,
    }
}

/// The switches after a key.
pub open spec fn controls_after(controls: Controls, key: Key) -> Controls {
    match key {
        Key::R => Controls { rotation_mode: controls.rotation_mode.successor(), ..controls },
        Key::Space => Controls { rotation_enabled: !controls.rotation_enabled, ..controls },
        Key::T => Controls { textured: !controls.textured, ..controls },
        Key::L => Controls { lit: !controls.lit, ..controls },
        _ => controls,
    }
}

/// What a key asks for.
pub open spec fn effect_of(key: Key) -> Effect {
    match key {
        Key::Escape => Effect::Exit,
        Key::Plus | Key::NumpadAdd => Effect::RaiseSpeed,
        Key::Minus | Key::NumpadSubtract => Effect::LowerSpeed,
        Key::Right => Effect::MoveObject(Axis::X, Sign::Plus),
        Key::Left => Effect::MoveObject(Axis::X, Sign::Minus),
        Key::PageUp => Effect::MoveObject(Axis::Y, Sign::Plus),
        Key::PageDown => Effect::MoveObject(Axis::Y, Sign::Minus),
        Key::Up => Effect::MoveObject(Axis::Z, Sign::Plus),
        Key::Down => Effect::MoveObject(Axis::Z, Sign::Minus),
        Key::D => Effect::MoveCamera(Axis::X, Sign::Plus),
        Key::A => Effect::MoveCamera(Axis::X, Sign::Minus),
        Key::Home => Effect::MoveCamera(Axis::Y, Sign::Plus),
        Key::End => Effect::MoveCamera(Axis::Y, Sign::Minus),
        Key::W => Effect::MoveCamera(Axis::Z, Sign::Plus),
        Key::S => Effect::MoveCamera(Axis::Z, Sign::Minus),
        Key::C => Effect::AimAtObject,
        Key::O => Effect::SwitchPrimitives,
        Key::R | Key::Space | Key::T | Key::L | Key::Other => Effect::Nothing,
    }
}

impl Controls {
    /// The switches when the viewer starts.
    pub fn new() -> (controls: Controls)
        ensures
            controls == initial_controls(),
    {
        Controls {
            rotation_mode: RotationMode::new(),
            rotation_enabled: true,
            textured: false,
            lit: false,
        }
    }
}

/// Takes a key: changes the switch that the key stands for, and hands back
/// what the key asks for beyond the switches.
pub fn match_event_keyboard(key: Key, controls: &mut Controls) -> (effect: Effect)
    ensures
        *final(controls) == controls_after(*old(controls), key),
        effect == effect_of(key),
{
    match key {
        Key::Escape => Effect::Exit,
        Key::Plus | Key::NumpadAdd => Effect::RaiseSpeed,
        Key::Minus | Key::NumpadSubtract => Effect::LowerSpeed,
        Key::R => {
            controls.rotation_mode = controls.rotation_mode.next();
            Effect::Nothing
        },
        Key::Space => {
            controls.rotation_enabled = !controls.rotation_enabled;
            Effect::Nothing
        },
        Key::Right => Effect::MoveObject(Axis::X, Sign::Plus),
        Key::Left => Effect::MoveObject(Axis::X, Sign::Minus),
        Key::PageUp => Effect::MoveObject(Axis::Y, Sign::Plus),
        Key::PageDown => Effect::MoveObject(Axis::Y, Sign::Minus),
        Key::Up => Effect::MoveObject(Axis::Z, Sign::Plus),
        Key::Down => Effect::MoveObject(Axis::Z, Sign::Minus),
        Key::D => Effect::MoveCamera(Axis::X, Sign::Plus),
        Key::A => Effect::MoveCamera(Axis::X, Sign::Minus),
        Key::Home => Effect::MoveCamera(Axis::Y, Sign::Plus),
        Key::End => Effect::MoveCamera(Axis::Y, Sign::Minus),
        Key::W => Effect::MoveCamera(Axis::Z, Sign::Plus),
        Key::S => Effect::MoveCamera(Axis::Z, Sign::Minus),
        Key::T => {
            controls.textured = !controls.textured;
            Effect::Nothing
        },
        Key::L => {
            controls.lit = !controls.lit;
            Effect::Nothing
        },
        Key::C => Effect::AimAtObject,
        Key::O => Effect::SwitchPrimitives,
        Key::Other => Effect::Nothing,
    }
}

/// What a sample of the pointer's position asks for. `first` says that no
/// position is remembered yet, `facing_forward` that the camera looks along
/// the z axis in its positive direction.
pub open spec fn look_of(first: bool, facing_forward: bool) -> Look {
    if first {
        Look::Remember
    } else if facing_forward {
        Look::Turn(Sign::Minus)
    } else {
        Look::Turn(Sign::Plus)
    }
}

/// Takes a sample of the pointer's position. The first sample only has its
/// position remembered, so that the camera does not jump; every later one
/// turns the camera, up and down the right way round whichever way it faces.
pub fn match_event_mouse(first: bool, facing_forward: bool) -> (look: Look)
    ensures
        look == look_of(first, facing_forward),
        first ==> look == Look::Remember,
        !first ==> look != Look::Remember,
{
    if first {
        Look::Remember
    } else if facing_forward {
        Look::Turn(Sign::Minus)
    } else {
        Look::Turn(Sign::Plus)
    }
}

/// A key changes a switch or asks for something, never both; and a key that
/// changes a switch leaves the other three as they were.
pub proof fn lemma_key_does_one_thing(controls: Controls, key: Key)
    ensures
        effect_of(key) != Effect::Nothing ==> controls_after(controls, key) == controls,
        key != Key::R ==> controls_after(controls, key).rotation_mode == controls.rotation_mode,
        key != Key::Space ==> controls_after(controls, key).rotation_enabled
            == controls.rotation_enabled,
        key != Key::T ==> controls_after(controls, key).textured == controls.textured,
        key != Key::L ==> controls_after(controls, key).lit == controls.lit,
{
}

/// A switch that is thrown twice is where it was.
pub proof fn lemma_toggle_twice(controls: Controls, key: Key)
    requires
        key == Key::Space || key == Key::T || key == Key::L,
    ensures
        controls_after(controls_after(controls, key), key) == controls,
{
}

/// The controls after `presses` presses of the key that steps the rotation
/// mode.
pub open spec fn after_mode_presses(controls: Controls, presses: nat) -> Controls
    decreases presses,
{
    if presses == 0 {
        controls
    } else {
        controls_after(after_mode_presses(controls, (presses - 1) as nat), Key::R)
    }
}

/// The key that steps the rotation mode steps it round the circle and
/// touches nothing else.
pub proof fn lemma_mode_presses(controls: Controls, presses: nat)
    ensures
        after_mode_presses(controls, presses) == (Controls {
            rotation_mode: controls.rotation_mode.advance(presses),
            ..controls
        }),
    decreases presses,
{
    if presses > 0 {
        lemma_mode_presses(controls, (presses - 1) as nat);
    }
}

} // verus!
