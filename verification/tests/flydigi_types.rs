use gilrs_core::flydigi::types::{
    ButtonEvent, ButtonState, DecodeError, FlydigiButton, FlydigiButtons, FlydigiInput,
    FLYDIGI_BUTTON_COUNT,
};

#[test]
fn bit_round_trip() {
    for bits in 0u16..=0xff {
        let bits = bits as u8;
        let buttons = FlydigiButtons::from_bits(bits);
        assert_eq!(buttons.to_bits(), bits & 0x3f);
    }
}

#[test]
fn button_masks_are_unique() {
    let mut seen = 0u8;
    for button in FlydigiButton::ALL {
        assert_eq!(seen & button.mask(), 0, "duplicated mask for {}", button.name());
        seen |= button.mask();
    }
    assert_eq!(seen, 0x3f);
}

#[test]
fn from_bits_ignores_unknown_bits() {
    // 0x40/0x80 are LM/RM on later devices and must not produce buttons.
    let buttons = FlydigiButtons::from_bits(0xc0);
    assert_eq!(buttons, FlydigiButtons::default());
    assert_eq!(buttons.to_bits(), 0);
}

#[test]
fn no_events_when_nothing_changes() {
    let mut state = ButtonState::new();
    let all = FlydigiButtons {
        c: true,
        z: true,
        m1: true,
        m2: true,
        m3: true,
        m4: true,
    };

    assert_eq!(state.update(all).count(), 6);
    assert_eq!(state.update(all).count(), 0);
    assert_eq!(state.update(all).count(), 0);
    assert_eq!(state.update(FlydigiButtons::default()).count(), 6);
    assert_eq!(state.update(FlydigiButtons::default()).count(), 0);
}

#[test]
fn single_press_and_release() {
    let mut state = ButtonState::new();

    let pressed = FlydigiButtons {
        m2: true,
        ..Default::default()
    };
    assert_eq!(
        state.update(pressed).collect(),
        vec![ButtonEvent::Pressed(FlydigiButton::M2)]
    );

    assert_eq!(
        state.update(FlydigiButtons::default()).collect(),
        vec![ButtonEvent::Released(FlydigiButton::M2)]
    );
}

#[test]
fn multiple_simultaneous_changes() {
    let mut state = ButtonState::new();
    let mut current = FlydigiButtons {
        m1: true,
        m2: true,
        ..Default::default()
    };
    state.update(current);

    current.m1 = false;
    current.m2 = false;
    current.c = true;
    current.z = true;
    let events = state.update(current).collect();

    assert!(events.contains(&ButtonEvent::Released(FlydigiButton::M1)));
    assert!(events.contains(&ButtonEvent::Released(FlydigiButton::M2)));
    assert!(events.contains(&ButtonEvent::Pressed(FlydigiButton::C)));
    assert!(events.contains(&ButtonEvent::Pressed(FlydigiButton::Z)));
    assert_eq!(events.len(), 4);
}

#[test]
fn presses_come_before_releases() {
    let mut state = ButtonState::new();
    let mut current = FlydigiButtons {
        m1: true,
        ..Default::default()
    };
    state.update(current);

    current.m1 = false;
    current.c = true;
    let events = state.update(current).collect();
    assert_eq!(
        events,
        vec![
            ButtonEvent::Pressed(FlydigiButton::C),
            ButtonEvent::Released(FlydigiButton::M1),
        ]
    );
}

#[test]
fn masks_are_the_documented_bits() {
    let masks: Vec<u8> = FlydigiButton::ALL.iter().map(|b| b.mask()).collect();
    assert_eq!(masks, vec![0x01, 0x02, 0x04, 0x08, 0x10, 0x20]);
    assert_eq!(FlydigiButton::ALL.len(), FLYDIGI_BUTTON_COUNT);
}

#[test]
fn button_names() {
    let names: Vec<&str> = FlydigiButton::ALL.iter().map(|b| b.name()).collect();
    assert_eq!(names, vec!["C", "Z", "M1", "M2", "M3", "M4"]);
}

#[test]
fn is_pressed_and_set_touch_one_button() {
    let mut buttons = FlydigiButtons::default();
    buttons.set(FlydigiButton::M3, true);
    assert!(buttons.is_pressed(FlydigiButton::M3));
    assert_eq!(buttons.to_bits(), 0x10);
    for button in FlydigiButton::ALL {
        if button != FlydigiButton::M3 {
            assert!(!buttons.is_pressed(button));
        }
    }
    buttons.set(FlydigiButton::M3, false);
    assert_eq!(buttons, FlydigiButtons::default());
}

#[test]
fn iter_lists_buttons_in_bit_order() {
    let buttons = FlydigiButtons::from_bits(0x22);
    assert_eq!(
        buttons.iter(),
        vec![
            (FlydigiButton::C, false),
            (FlydigiButton::Z, true),
            (FlydigiButton::M1, false),
            (FlydigiButton::M2, false),
            (FlydigiButton::M3, false),
            (FlydigiButton::M4, true),
        ]
    );
}

#[test]
fn state_round_trip_through_bits() {
    for bits in 0u8..=0x3f {
        let buttons = FlydigiButtons::from_bits(bits);
        assert_eq!(FlydigiButtons::from_bits(buttons.to_bits()), buttons);
    }
}

#[test]
fn previous_tracks_last_update() {
    let mut state = ButtonState::new();
    assert_eq!(state.previous(), FlydigiButtons::default());
    let current = FlydigiButtons::from_bits(0x09);
    let _ = state.update(current);
    assert_eq!(state.previous(), current);
    assert_eq!(ButtonState::default().previous(), FlydigiButtons::default());
}

#[test]
fn events_are_handed_out_one_at_a_time() {
    let mut state = ButtonState::new();
    state.update(FlydigiButtons::from_bits(0x30));
    let mut events = state.update(FlydigiButtons::from_bits(0x03));
    assert_eq!(events.next(), Some(ButtonEvent::Pressed(FlydigiButton::C)));
    assert_eq!(events.next(), Some(ButtonEvent::Pressed(FlydigiButton::Z)));
    assert_eq!(events.next(), Some(ButtonEvent::Released(FlydigiButton::M3)));
    assert_eq!(events.next(), Some(ButtonEvent::Released(FlydigiButton::M4)));
    assert_eq!(events.next(), None);
    assert_eq!(events.next(), None);
}

#[test]
fn decode_error_messages() {
    assert_eq!(DecodeError::TooShort.message(), "vendor report is too short");
    assert_eq!(
        DecodeError::UnexpectedReport.message(),
        "unexpected vendor report framing"
    );
}

#[test]
fn default_input_has_nothing_pressed() {
    assert_eq!(FlydigiInput::default().buttons, FlydigiButtons::default());
}
