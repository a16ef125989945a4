use objview::event::{match_event_keyboard, match_event_mouse, Controls, Effect, Key, Look, Sign};
use objview::projection::projection_axes;
use objview::rotation::{Axis, RotationMode};

const KEYS: [Key; 24] = [
    Key::Escape, Key::Plus, Key::NumpadAdd, Key::Minus, Key::NumpadSubtract, Key::R, Key::Space,
    Key::Right, Key::Left, Key::PageUp, Key::PageDown, Key::Up, Key::Down, Key::D, Key::A,
    Key::Home, Key::End, Key::W, Key::S, Key::T, Key::L, Key::C, Key::O, Key::Other,
];

#[test]
fn viewer_starts_turning_in_the_first_mode() {
    let c = Controls::new();
    assert_eq!(c.rotation_mode, RotationMode::Y);
    assert_eq!(c.rotation_mode.index(), 0);
    assert!(c.rotation_enabled);
    assert!(!c.textured);
    assert!(!c.lit);
}

#[test]
fn seven_steps_lead_back_to_the_first_mode() {
    let mut c = Controls::new();
    let mut seen: Vec<RotationMode> = Vec::new();
    for _ in 0..7 {
        assert!(!seen.contains(&c.rotation_mode));
        seen.push(c.rotation_mode);
        assert_eq!(match_event_keyboard(Key::R, &mut c), Effect::Nothing);
    }
    assert_eq!(c.rotation_mode, RotationMode::Y);
    assert_eq!(
        seen,
        vec![
            RotationMode::Y,
            RotationMode::X,
            RotationMode::Z,
            RotationMode::XY,
            RotationMode::ZY,
            RotationMode::ZX,
            RotationMode::YXZ,
        ]
    );
    assert_eq!(c, Controls::new());
}

#[test]
fn seven_steps_lead_back_to_any_mode() {
    for start in 0..7 {
        let first = RotationMode::from_index(start);
        let mut mode = first;
        for step in 1..=7 {
            mode = mode.next();
            assert_eq!(mode.index(), (start + step) % 7);
            assert_eq!(mode == first, step == 7);
        }
    }
}

#[test]
fn modes_and_their_places() {
    let all = [
        RotationMode::Y,
        RotationMode::X,
        RotationMode::Z,
        RotationMode::XY,
        RotationMode::ZY,
        RotationMode::ZX,
        RotationMode::YXZ,
    ];
    for (i, mode) in all.iter().enumerate() {
        assert_eq!(mode.index(), i);
        assert_eq!(RotationMode::from_index(i), *mode);
    }
    assert_eq!(RotationMode::from_index(7), RotationMode::YXZ);
    assert_eq!(RotationMode::from_index(usize::MAX), RotationMode::YXZ);
    assert_eq!(RotationMode::new(), RotationMode::Y);
}

#[test]
fn axes_of_each_mode_in_their_order() {
    assert_eq!(RotationMode::Y.axes(), vec![Axis::Y]);
    assert_eq!(RotationMode::X.axes(), vec![Axis::X]);
    assert_eq!(RotationMode::Z.axes(), vec![Axis::Z]);
    assert_eq!(RotationMode::XY.axes(), vec![Axis::X, Axis::Y]);
    assert_eq!(RotationMode::ZY.axes(), vec![Axis::Z, Axis::Y]);
    assert_eq!(RotationMode::ZX.axes(), vec![Axis::Z, Axis::X]);
    assert_eq!(RotationMode::YXZ.axes(), vec![Axis::Y, Axis::X, Axis::Z]);
}

#[test]
fn switches_flip_one_at_a_time() {
    let mut c = Controls::new();
    assert_eq!(match_event_keyboard(Key::T, &mut c), Effect::Nothing);
    assert_eq!(c, Controls { textured: true, ..Controls::new() });
    assert_eq!(match_event_keyboard(Key::L, &mut c), Effect::Nothing);
    assert_eq!(c, Controls { textured: true, lit: true, ..Controls::new() });
    assert_eq!(match_event_keyboard(Key::Space, &mut c), Effect::Nothing);
    assert_eq!(
        c,
        Controls { textured: true, lit: true, rotation_enabled: false, ..Controls::new() }
    );
    assert_eq!(match_event_keyboard(Key::T, &mut c), Effect::Nothing);
    assert_eq!(match_event_keyboard(Key::L, &mut c), Effect::Nothing);
    assert_eq!(match_event_keyboard(Key::Space, &mut c), Effect::Nothing);
    assert_eq!(c, Controls::new());
}

#[test]
fn keys_and_what_they_ask_for() {
    let expected = [
        Effect::Exit,
        Effect::RaiseSpeed,
        Effect::RaiseSpeed,
        Effect::LowerSpeed,
        Effect::LowerSpeed,
        Effect::Nothing,
        Effect::Nothing,
        Effect::MoveObject(Axis::X, Sign::Plus),
        Effect::MoveObject(Axis::X, Sign::Minus),
        Effect::MoveObject(Axis::Y, Sign::Plus),
        Effect::MoveObject(Axis::Y, Sign::Minus),
        Effect::MoveObject(Axis::Z, Sign::Plus),
        Effect::MoveObject(Axis::Z, Sign::Minus),
        Effect::MoveCamera(Axis::X, Sign::Plus),
        Effect::MoveCamera(Axis::X, Sign::Minus),
        Effect::MoveCamera(Axis::Y, Sign::Plus),
        Effect::MoveCamera(Axis::Y, Sign::Minus),
        Effect::MoveCamera(Axis::Z, Sign::Plus),
        Effect::MoveCamera(Axis::Z, Sign::Minus),
        Effect::Nothing,
        Effect::Nothing,
        Effect::AimAtObject,
        Effect::SwitchPrimitives,
        Effect::Nothing,
    ];
    for (key, effect) in KEYS.iter().zip(expected.iter()) {
        let mut c = Controls::new();
        assert_eq!(match_event_keyboard(*key, &mut c), *effect, "{:?}", key);
    }
}

#[test]
fn keys_that_ask_for_something_leave_the_switches() {
    for key in KEYS.iter() {
        let before = Controls {
            rotation_mode: RotationMode::ZX,
            rotation_enabled: false,
            textured: true,
            lit: false,
        };
        let mut c = before;
        let effect = match_event_keyboard(*key, &mut c);
        let changes = matches!(key, Key::R | Key::Space | Key::T | Key::L);
        assert_eq!(c != before, changes, "{:?}", key);
        if changes {
            assert_eq!(effect, Effect::Nothing);
        }
    }
}

#[test]
fn texture_plane_is_that_of_the_two_widest_extents() {
    let extents: [f32; 4] = [0.0, 1.0, 2.5, 4.0];
    for x in extents.iter() {
        for y in extents.iter() {
            for z in extents.iter() {
                let (first, second) = projection_axes(x > y, z > y, z > x);
                let left_out = if first != Axis::X && second != Axis::X {
                    *x
                } else if first != Axis::Y && second != Axis::Y {
                    *y
                } else {
                    *z
                };
                assert!(left_out <= *x && left_out <= *y && left_out <= *z);
                assert_ne!(first, second);
            }
        }
    }
    assert_eq!(projection_axes(true, true, false), (Axis::X, Axis::Z));
    assert_eq!(projection_axes(true, true, true), (Axis::X, Axis::Z));
    assert_eq!(projection_axes(true, false, false), (Axis::X, Axis::Y));
    assert_eq!(projection_axes(false, true, true), (Axis::Z, Axis::Y));
    assert_eq!(projection_axes(false, false, true), (Axis::Z, Axis::Y));
    assert_eq!(projection_axes(false, false, false), (Axis::X, Axis::Y));
}

#[test]
fn first_pointer_sample_is_only_remembered() {
    assert_eq!(match_event_mouse(true, true), Look::Remember);
    assert_eq!(match_event_mouse(true, false), Look::Remember);
}

#[test]
fn later_pointer_samples_turn_the_camera() {
    assert_eq!(match_event_mouse(false, true), Look::Turn(Sign::Minus));
    assert_eq!(match_event_mouse(false, false), Look::Turn(Sign::Plus));
}
