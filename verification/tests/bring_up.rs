use echo_pedal::bringup::bring_up_sequence;
use echo_pedal::bringup::BringUp;
use echo_pedal::bringup::BusFailure;
use echo_pedal::bringup::CodecState;
use echo_pedal::bringup::BRING_UP_LENGTH;
use echo_pedal::codec::CodecShadow;
use echo_pedal::codec::REG_RESET;
use echo_pedal::control::BusAction;
use echo_pedal::control::ControlRegister;

fn expected_writes() -> [ControlRegister; 9] {
    [
        ControlRegister { address: 0x0f, value: 0 },
        ControlRegister { address: 0x06, value: 0b0_0111_0010 },
        ControlRegister { address: 0x00, value: 0b0_0001_0111 },
        ControlRegister { address: 0x04, value: 0b0_0001_0010 },
        ControlRegister { address: 0x05, value: 0b0_0000_0110 },
        ControlRegister { address: 0x07, value: 0b0_0100_1001 },
        ControlRegister { address: 0x08, value: 0b0_0000_0001 },
        ControlRegister { address: 0x09, value: 0x1 },
        ControlRegister { address: 0x06, value: 0b0_0110_0010 },
    ]
}

#[test]
fn bring_up_sequence_is_the_fixed_list() {
    assert_eq!(BRING_UP_LENGTH, 9);
    assert_eq!(bring_up_sequence(), expected_writes());
}

#[test]
fn bring_up_frames_on_the_wire() {
    let frames: Vec<[u8; 2]> = bring_up_sequence().iter().map(|r| r.frame()).collect();
    assert_eq!(
        frames,
        vec![
            [0x1e, 0x00],
            [0x0c, 0x72],
            [0x00, 0x17],
            [0x08, 0x12],
            [0x0a, 0x06],
            [0x0e, 0x49],
            [0x10, 0x01],
            [0x12, 0x01],
            [0x0c, 0x62],
        ]
    );
}

#[test]
fn bring_up_emits_every_write_in_order() {
    let mut bring_up = BringUp::new();
    let mut emitted = Vec::new();
    while let Some(register) = bring_up.pending() {
        emitted.push(register);
        assert!(bring_up.acknowledge(true).is_ok());
    }
    assert_eq!(emitted, expected_writes().to_vec());
    assert!(bring_up.is_complete());
    assert_eq!(bring_up.state(), CodecState::Active);
    assert_eq!(bring_up.failure(), None);
}

#[test]
fn bring_up_bus_actions_in_order() {
    let mut bring_up = BringUp::new();
    let mut actions = Vec::new();
    while let Some(register) = bring_up.pending() {
        actions.extend_from_slice(&register.transaction());
        bring_up.acknowledge(true).unwrap();
    }
    assert_eq!(actions.len(), 36);
    for (write, expected) in expected_writes().iter().enumerate() {
        let bytes = expected.frame();
        assert_eq!(actions[4 * write], BusAction::Select);
        assert_eq!(
            actions[4 * write + 1],
            BusAction::Transmit { first: bytes[0], second: bytes[1] }
        );
        assert_eq!(actions[4 * write + 2], BusAction::Deselect);
        assert_eq!(actions[4 * write + 3], BusAction::Hold { micros: 1 });
    }
}

#[test]
fn bring_up_pending_does_not_move_on_by_itself() {
    let bring_up = BringUp::new();
    assert_eq!(bring_up.pending(), Some(ControlRegister { address: REG_RESET, value: 0 }));
    assert_eq!(bring_up.pending(), Some(ControlRegister { address: REG_RESET, value: 0 }));
    assert_eq!(bring_up.state(), CodecState::Reset);
    assert!(!bring_up.is_complete());
}

#[test]
fn codec_state_moves_reset_configured_active() {
    let mut bring_up = BringUp::new();
    assert_eq!(bring_up.state(), CodecState::Reset);
    let expected = [
        CodecState::Reset,
        CodecState::Reset,
        CodecState::Reset,
        CodecState::Reset,
        CodecState::Reset,
        CodecState::Reset,
        CodecState::Configured,
        CodecState::Active,
        CodecState::Active,
    ];
    for state in expected {
        assert_eq!(bring_up.acknowledge(true), Ok(state));
        assert_eq!(bring_up.state(), state);
    }
    assert!(bring_up.is_complete());
}

#[test]
fn acknowledge_after_completion_changes_nothing() {
    let mut bring_up = BringUp::new();
    for _ in 0..9 {
        bring_up.acknowledge(true).unwrap();
    }
    assert_eq!(bring_up.pending(), None);
    assert_eq!(bring_up.acknowledge(true), Ok(CodecState::Active));
    assert_eq!(bring_up.acknowledge(false), Ok(CodecState::Active));
    assert!(bring_up.is_complete());
    assert_eq!(bring_up.failure(), None);
}

#[test]
fn bus_failure_aborts_bring_up() {
    let mut bring_up = BringUp::new();
    for _ in 0..3 {
        bring_up.acknowledge(true).unwrap();
    }
    assert_eq!(bring_up.pending(), Some(ControlRegister { address: 0x04, value: 0x12 }));
    assert_eq!(bring_up.acknowledge(false), Err(BusFailure { step: 3 }));
    assert_eq!(bring_up.failure(), Some(BusFailure { step: 3 }));
    assert_eq!(bring_up.pending(), None);
    assert_eq!(bring_up.state(), CodecState::Reset);
    assert!(!bring_up.is_complete());
    // no retry: later reports do not revive it
    assert_eq!(bring_up.acknowledge(true), Err(BusFailure { step: 3 }));
    assert_eq!(bring_up.acknowledge(false), Err(BusFailure { step: 3 }));
    assert_eq!(bring_up.pending(), None);
    assert_eq!(bring_up.state(), CodecState::Reset);
}

#[test]
fn bus_failure_on_first_and_last_write() {
    let mut bring_up = BringUp::new();
    assert_eq!(bring_up.acknowledge(false), Err(BusFailure { step: 0 }));
    assert_eq!(bring_up.state(), CodecState::Reset);

    let mut bring_up = BringUp::new();
    for _ in 0..8 {
        bring_up.acknowledge(true).unwrap();
    }
    assert_eq!(bring_up.acknowledge(false), Err(BusFailure { step: 8 }));
    assert_eq!(bring_up.state(), CodecState::Active);
    assert!(!bring_up.is_complete());
}

#[test]
fn every_bring_up_write_fits_the_frame() {
    for register in bring_up_sequence() {
        assert_eq!(ControlRegister::new(register.address, register.value), Some(register));
    }
}

#[test]
fn outputs_are_powered_last() {
    let writes = bring_up_sequence();
    assert_eq!(writes[0], ControlRegister { address: REG_RESET, value: 0 });
    assert_eq!(writes[1].address, 0x06);
    assert_eq!(writes[1].value & 0x10, 0x10);
    assert_eq!(writes[8].address, 0x06);
    assert_eq!(writes[8].value & 0x10, 0);
    assert_eq!(writes[7].address, 0x09);
    for register in &writes[..7] {
        assert_ne!(register.address, 0x09);
    }
}

fn replay(shadow: &mut CodecShadow) {
    for register in bring_up_sequence() {
        shadow.write(register);
    }
}

#[test]
fn replaying_bring_up_twice_is_the_same_as_once() {
    let mut once = CodecShadow::new();
    replay(&mut once);
    let mut twice = CodecShadow::new();
    replay(&mut twice);
    replay(&mut twice);
    assert_eq!(once, twice);
}

#[test]
fn bring_up_leaves_the_same_registers_whatever_was_there() {
    let mut clean = CodecShadow::new();
    replay(&mut clean);
    let mut dirty = CodecShadow::new();
    dirty.write(ControlRegister { address: 0x02, value: 0x17f });
    dirty.write(ControlRegister { address: 0x07, value: 0x003 });
    dirty.write(ControlRegister { address: 0x09, value: 0x001 });
    replay(&mut dirty);
    assert_eq!(clean, dirty);
}

#[test]
fn registers_after_bring_up() {
    let mut shadow = CodecShadow::new();
    replay(&mut shadow);
    assert_eq!(shadow.get(0x00), Some(0x17));
    assert_eq!(shadow.get(0x04), Some(0x12));
    assert_eq!(shadow.get(0x05), Some(0x06));
    assert_eq!(shadow.get(0x06), Some(0x62));
    assert_eq!(shadow.get(0x07), Some(0x49));
    assert_eq!(shadow.get(0x08), Some(0x01));
    assert_eq!(shadow.get(0x09), Some(0x01));
    for address in [0x01u8, 0x02, 0x03, 0x0a, 0x0f, 0x10, 0x7f] {
        assert_eq!(shadow.get(address), None);
    }
}
