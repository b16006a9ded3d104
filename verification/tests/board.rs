use rdx_hal::defines::{
    dc_driver_channels, fan_channels, io_connector_pins, stepper_pins, RDX_CHANNEL_DC,
    RDX_CHANNEL_FAN, RDX_CHANNEL_SERVO, RDX_PIN_DIR, RDX_PIN_IO1, RDX_PIN_IO2, RDX_PIN_ROT_CL,
    RDX_PIN_ROT_DT, RDX_PIN_ROT_SW, RDX_PIN_SC_EN, RDX_PIN_STEP, RDX_I2C_ADDR_LCD,
    RDX_I2C_ADDR_PCA9685, RDX_PIN_MISC,
};
use rdx_hal::display::{cursor_target, display_text};
use rdx_hal::panel::{
    navigation_for, reversed_navigation_for, EncoderStep, FanCommand, InputMark, InputPanel, MachineState, Navigation,
    SelectSwitch, MARK_HIGH, MARK_LOW,
};
use rdx_hal::pca_pin::{duty_cycle_counts, max_duty_cycle, pca_channel, PwmCounts, PCA_MAX_DUTY};
use pwm_pca9685::Channel;
use rdx_hal::RdxServos;

#[test]
fn stepper_pins_pair_direction_and_step() {
    assert_eq!(stepper_pins(0), (23, 24));
    assert_eq!(stepper_pins(1), (22, 25));
    assert_eq!(stepper_pins(2), (12, 5));
    assert_eq!(stepper_pins(3), (20, 6));
}

#[test]
fn dc_drivers_take_consecutive_channels() {
    assert_eq!(dc_driver_channels(0), (8, 9));
    assert_eq!(dc_driver_channels(1), (10, 11));
    assert_eq!(dc_driver_channels(2), (12, 13));
    assert_eq!(fan_channels(), (14, 15));
}

#[test]
fn io_connectors() {
    assert_eq!(io_connector_pins(1), [4, 27, 21, 13]);
    assert_eq!(io_connector_pins(2), [10, 9, 11, 8]);
}

#[test]
fn board_constants() {
    assert_eq!(RDX_I2C_ADDR_LCD, 0x27);
    assert_eq!(RDX_I2C_ADDR_PCA9685, 0x40);
    assert_eq!(RDX_PIN_MISC, RDX_PIN_STEP);
}

#[test]
fn claimed_pins_are_distinct() {
    let mut pins: Vec<u8> = Vec::new();
    pins.extend_from_slice(&RDX_PIN_DIR);
    pins.extend_from_slice(&RDX_PIN_STEP);
    pins.push(RDX_PIN_SC_EN);
    pins.extend_from_slice(&RDX_PIN_IO1);
    pins.extend_from_slice(&RDX_PIN_IO2);
    pins.extend_from_slice(&[RDX_PIN_ROT_DT, RDX_PIN_ROT_CL, RDX_PIN_ROT_SW]);
    assert_eq!(pins.len(), 20);
    for i in 0..pins.len() {
        for j in (i + 1)..pins.len() {
            assert_ne!(pins[i], pins[j]);
        }
    }
}

#[test]
fn every_channel_assigned_once() {
    let mut channels: Vec<u8> = Vec::new();
    channels.extend_from_slice(&RDX_CHANNEL_SERVO);
    channels.extend_from_slice(&RDX_CHANNEL_DC);
    channels.extend_from_slice(&RDX_CHANNEL_FAN);
    let expected: Vec<u8> = (0..16).collect();
    assert_eq!(channels, expected);
}

#[test]
fn duty_cycle_counts_rise_at_start() {
    assert_eq!(max_duty_cycle(), 4095);
    assert_eq!(PCA_MAX_DUTY, 4095);
    assert_eq!(duty_cycle_counts(0), PwmCounts { on: 0, off: 0 });
    assert_eq!(duty_cycle_counts(2048), PwmCounts { on: 0, off: 2048 });
    assert_eq!(duty_cycle_counts(4095), PwmCounts { on: 0, off: 4095 });
}

#[test]
fn encoder_turns_move_the_cursor() {
    assert_eq!(navigation_for(EncoderStep::Clockwise), Navigation::Up);
    assert_eq!(navigation_for(EncoderStep::Anticlockwise), Navigation::Down);
    assert_eq!(navigation_for(EncoderStep::Idle), Navigation::Stay);
}

#[test]
fn switch_selects_once_per_press() {
    let mut switch = SelectSwitch::new();
    let readings = [true, true, true, false, false, true, false, true, true];
    let expected = [true, false, false, false, false, true, false, true, false];
    for (r, e) in readings.iter().zip(expected.iter()) {
        assert_eq!(switch.update(*r), *e);
    }
}

#[test]
fn switch_held_at_start_selects_at_once() {
    let mut switch = SelectSwitch::new();
    assert!(switch.update(true));
    assert!(!switch.update(true));
    assert!(!switch.update(false));
    assert!(switch.armed);
}

#[test]
fn refresh_writes_changed_inputs_only() {
    let mut panel = InputPanel::new();
    let marks = panel.refresh([true, false, false, true]);
    assert_eq!(
        marks,
        vec![
            InputMark { col: 7, row: 1, mark: MARK_HIGH },
            InputMark { col: 10, row: 1, mark: MARK_HIGH },
        ]
    );
    assert_eq!(panel.shown, [true, false, false, true]);
    let marks = panel.refresh([true, true, false, false]);
    assert_eq!(
        marks,
        vec![
            InputMark { col: 8, row: 1, mark: MARK_HIGH },
            InputMark { col: 10, row: 1, mark: MARK_LOW },
        ]
    );
    assert_eq!(MARK_HIGH, b'X');
    assert_eq!(MARK_LOW, b' ');
}

#[test]
fn refresh_with_same_levels_writes_nothing() {
    let mut panel = InputPanel::new();
    assert!(panel.refresh([false, false, false, false]).is_empty());
    panel.refresh([false, true, true, false]);
    assert!(panel.refresh([false, true, true, false]).is_empty());
}

#[test]
fn options_buttons_toggle() {
    let mut state = MachineState::new();
    assert!(state.stepper_enabled && state.fan_active);
    assert_eq!(state.toggle_fan(), FanCommand::Stop);
    assert!(!state.fan_active);
    assert_eq!(state.toggle_fan(), FanCommand::DriveHalf);
    assert!(state.fan_active);
    state.toggle_steppers();
    assert!(!state.stepper_enabled);
    assert!(state.fan_active);
    state.toggle_steppers();
    assert!(state.stepper_enabled);
}

#[test]
fn display_text_decodes_utf8() {
    assert_eq!(display_text(b"Version: 0.1.0"), Some("Version: 0.1.0"));
    assert_eq!(display_text("Grüße".as_bytes()), Some("Grüße"));
    assert_eq!(display_text(&[0x41, 0xff, 0x42]), None);
    assert_eq!(display_text(b""), Some(""));
}

#[test]
fn cursor_target_swaps_and_truncates() {
    assert_eq!(cursor_target(7, 1), (1, 7));
    assert_eq!(cursor_target(19, 3), (3, 19));
    assert_eq!(cursor_target(300, 257), (1, 44));
}

#[test]
fn servos_hold_positions() {
    let servos = RdxServos(0, 1, 2, 3, 4, 5, 6, 7, 8);
    assert_eq!(servos.0 + servos.8, 8);
}

#[test]
fn channel_numbers_map_to_driver_channels() {
    assert_eq!(pca_channel(0), Channel::C0);
    assert_eq!(pca_channel(8), Channel::C8);
    assert_eq!(pca_channel(15), Channel::C15);
    let (a, b) = fan_channels();
    assert_eq!((pca_channel(a), pca_channel(b)), (Channel::C14, Channel::C15));
}

#[test]
fn reversed_encoder_turns_move_the_other_way() {
    assert_eq!(reversed_navigation_for(EncoderStep::Clockwise), Navigation::Down);
    assert_eq!(reversed_navigation_for(EncoderStep::Anticlockwise), Navigation::Up);
    assert_eq!(reversed_navigation_for(EncoderStep::Idle), Navigation::Stay);
}

#[test]
fn display_text_of_concatenation() {
    let a = "RDX ".as_bytes();
    let b = "Grüße".as_bytes();
    let both: Vec<u8> = a.iter().chain(b.iter()).copied().collect();
    let joined = format!("{}{}", display_text(a).unwrap(), display_text(b).unwrap());
    assert_eq!(display_text(&both), Some(joined.as_str()));
}
