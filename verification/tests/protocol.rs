use modsim::{
    default_baud_rate, default_data_bits, default_parity, default_stop_bits, default_tcp_bind,
    default_unit_id, default_update_ms, dispatch, evaluation, needs_evaluation, rtu_plan,
    serial_settings, Config, DataBits, DeviceConfig, DispatchError, DynamicsSpec, Evaluation,
    GlobalConfig, LoggingConfig, Parity, RegisterItemConfig, Request, Response, RtuConfig,
    RtuMode, RtuPlan, Scalar, SerialSettings, SimState, StopBits, TcpConfig, TransportError,
};

fn state_with_register(address: u16, initial: u16) -> SimState {
    let config = RegisterItemConfig { address, initial, update_ms: None, dynamics: None };
    SimState::new(500, false, vec![], vec![], vec![config], vec![], 0)
}

fn rtu(mode: RtuMode, device: Option<&str>, data_bits: u8, parity: Parity, stop_bits: u8) -> RtuConfig {
    RtuConfig {
        mode,
        device: device.map(String::from),
        baud_rate: 19200,
        data_bits,
        parity,
        stop_bits,
    }
}

fn bare_config() -> Config {
    Config {
        logging: None,
        global: None,
        tcp: None,
        rtu: None,
        device: DeviceConfig {
            unit_id: default_unit_id(),
            coils: vec![],
            discrete_inputs: vec![],
            holding_registers: vec![],
            input_registers: vec![],
        },
    }
}

#[test]
fn defaults_are_the_documented_ones() {
    assert_eq!(default_update_ms(), 500);
    assert_eq!(default_tcp_bind(), "0.0.0.0:5020");
    assert_eq!(default_baud_rate(), 9600);
    assert_eq!(default_data_bits(), 8);
    assert_eq!(default_parity(), Parity::NoParity);
    assert_eq!(default_stop_bits(), 1);
    assert_eq!(default_unit_id(), 1);
}

#[test]
fn absent_sections_fall_back() {
    let config = bare_config();
    assert!(!config.log_value_updates());
    assert_eq!(config.global_update_ms(), 500);
    assert!(!config.has_transport());
}

#[test]
fn present_sections_are_used() {
    let mut config = bare_config();
    config.logging = Some(LoggingConfig { log_value_updates: true });
    config.global = Some(GlobalConfig { update_ms: 25 });
    config.tcp = Some(TcpConfig { bind: default_tcp_bind() });
    assert!(config.log_value_updates());
    assert_eq!(config.global_update_ms(), 25);
    assert!(config.has_transport());
    let mut config = bare_config();
    config.rtu = Some(rtu(RtuMode::PseudoPty, None, 8, Parity::NoParity, 1));
    assert!(config.has_transport());
}

#[test]
fn read_holding_registers_through_the_dispatcher() {
    let mut state = state_with_register(0, 123);
    let response = dispatch(&mut state, Request::ReadHoldingRegisters(0, 1), 0);
    assert_eq!(response, Ok(Response::ReadHoldingRegisters(vec![123])));
}

#[test]
fn reads_are_answered_from_their_own_class() {
    let mut state = state_with_register(4, 7);
    state.write_single_coil(4, true, 0);
    assert_eq!(dispatch(&mut state, Request::ReadCoils(3, 3), 0), Ok(Response::ReadCoils(vec![false, true, false])));
    assert_eq!(dispatch(&mut state, Request::ReadDiscreteInputs(4, 1), 0), Ok(Response::ReadDiscreteInputs(vec![false])));
    assert_eq!(dispatch(&mut state, Request::ReadHoldingRegisters(3, 3), 0), Ok(Response::ReadHoldingRegisters(vec![0, 7, 0])));
    assert_eq!(dispatch(&mut state, Request::ReadInputRegisters(4, 2), 0), Ok(Response::ReadInputRegisters(vec![0, 0])));
    assert_eq!(state.coils.len(), 1);
    assert_eq!(state.holding_registers.len(), 1);
    assert!(state.discrete_inputs.is_empty());
    assert!(state.input_registers.is_empty());
}

#[test]
fn single_writes_echo_address_and_value() {
    let mut state = state_with_register(0, 0);
    assert_eq!(dispatch(&mut state, Request::WriteSingleCoil(12, true), 5), Ok(Response::WriteSingleCoil(12, true)));
    assert_eq!(dispatch(&mut state, Request::WriteSingleRegister(12, 900), 5), Ok(Response::WriteSingleRegister(12, 900)));
    assert_eq!(state.read_coils(12, 1), vec![true]);
    assert_eq!(state.read_holding_registers(12, 1), vec![900]);
    assert_eq!(state.holding_registers[&12].next_due, 505);
}

#[test]
fn range_writes_echo_address_and_count() {
    let mut state = state_with_register(0, 0);
    assert_eq!(
        dispatch(&mut state, Request::WriteMultipleCoils(20, vec![true, true, false, true]), 0),
        Ok(Response::WriteMultipleCoils(20, 4))
    );
    assert_eq!(
        dispatch(&mut state, Request::WriteMultipleRegisters(20, vec![5, 6]), 0),
        Ok(Response::WriteMultipleRegisters(20, 2))
    );
    assert_eq!(state.read_coils(20, 4), vec![true, true, false, true]);
    assert_eq!(state.read_holding_registers(20, 2), vec![5, 6]);
}

#[test]
fn an_unsupported_request_fails_and_touches_nothing() {
    let mut state = state_with_register(1, 2);
    let before = state.clone();
    let response = dispatch(&mut state, Request::Unsupported, 77);
    assert_eq!(response, Err(DispatchError::UnsupportedRequest));
    assert_eq!(DispatchError::UnsupportedRequest.message(), "unsupported request");
    assert_eq!(state.holding_registers, before.holding_registers);
    assert_eq!(state.coils, before.coils);
    assert_eq!(state.discrete_inputs, before.discrete_inputs);
    assert_eq!(state.input_registers, before.input_registers);
}

#[test]
fn serial_settings_follow_the_configuration() {
    let settings = serial_settings(&rtu(RtuMode::Serial, Some("/dev/ttyUSB0"), 7, Parity::Even, 2));
    assert_eq!(
        settings,
        SerialSettings { baud_rate: 19200, data_bits: DataBits::Seven, parity: Parity::Even, stop_bits: StopBits::Two }
    );
    assert_eq!(serial_settings(&rtu(RtuMode::Serial, None, 5, Parity::Odd, 1)).data_bits, DataBits::Five);
    assert_eq!(serial_settings(&rtu(RtuMode::Serial, None, 6, Parity::Odd, 1)).data_bits, DataBits::Six);
    assert_eq!(serial_settings(&rtu(RtuMode::Serial, None, 8, Parity::Odd, 1)).data_bits, DataBits::Eight);
    let odd = serial_settings(&rtu(RtuMode::Serial, None, 9, Parity::NoParity, 3));
    assert_eq!(odd.data_bits, DataBits::Eight);
    assert_eq!(odd.stop_bits, StopBits::One);
    assert_eq!(odd.parity, Parity::NoParity);
}

#[test]
fn serial_mode_needs_a_device() {
    let missing = rtu(RtuMode::Serial, None, 8, Parity::NoParity, 1);
    assert_eq!(rtu_plan(&missing), Err(TransportError::MissingDevice));
    assert_eq!(TransportError::MissingDevice.message(), "rtu.device is required for serial mode");
    let named = rtu(RtuMode::Serial, Some("/dev/ttyS1"), 8, Parity::NoParity, 1);
    assert_eq!(rtu_plan(&named), Ok(RtuPlan::Serial(serial_settings(&named))));
    let pty = rtu(RtuMode::PseudoPty, None, 8, Parity::NoParity, 1);
    assert_eq!(rtu_plan(&pty), Ok(RtuPlan::PseudoPty));
}

#[test]
fn a_waveform_without_a_period_is_constant() {
    let one = Scalar { bits: 1.0f64.to_bits() };
    let two = Scalar { bits: 2.0f64.to_bits() };
    assert_eq!(evaluation(&None, 7), Evaluation::Keep);
    assert_eq!(evaluation(&Some(DynamicsSpec::Static), 7), Evaluation::Keep);
    assert_eq!(
        evaluation(&Some(DynamicsSpec::Sine { amplitude: one, offset: two, period_ms: 0 }), 7),
        Evaluation::Constant(two)
    );
    assert_eq!(
        evaluation(&Some(DynamicsSpec::Ramp { min: one, max: two, period_ms: 0 }), 7),
        Evaluation::Constant(one)
    );
    assert_eq!(
        evaluation(&Some(DynamicsSpec::Step { low: two, high: one, period_ms: 0 }), 7),
        Evaluation::Constant(two)
    );
}

#[test]
fn a_step_is_low_then_high_in_each_period() {
    let low = Scalar { bits: 3.0f64.to_bits() };
    let high = Scalar { bits: 9.0f64.to_bits() };
    let step = Some(DynamicsSpec::Step { low, high, period_ms: 1000 });
    assert_eq!(evaluation(&step, 0), Evaluation::Constant(low));
    assert_eq!(evaluation(&step, 499), Evaluation::Constant(low));
    assert_eq!(evaluation(&step, 500), Evaluation::Constant(high));
    assert_eq!(evaluation(&step, 999), Evaluation::Constant(high));
    assert_eq!(evaluation(&step, 1000), Evaluation::Constant(low));
    assert_eq!(evaluation(&step, 2750), Evaluation::Constant(high));
    let odd = Some(DynamicsSpec::Step { low, high, period_ms: 5 });
    assert_eq!(evaluation(&odd, 2), Evaluation::Constant(low));
    assert_eq!(evaluation(&odd, 3), Evaluation::Constant(high));
    let wide = Some(DynamicsSpec::Step { low, high, period_ms: u64::MAX });
    assert_eq!(evaluation(&wide, u64::MAX / 2), Evaluation::Constant(low));
    assert_eq!(evaluation(&wide, u64::MAX / 2 + 1), Evaluation::Constant(high));
    assert_eq!(evaluation(&wide, u64::MAX), Evaluation::Constant(low));
}

#[test]
fn other_waveforms_take_their_formula() {
    let one = Scalar { bits: 1.0f64.to_bits() };
    let two = Scalar { bits: 2.0f64.to_bits() };
    assert_eq!(
        evaluation(&Some(DynamicsSpec::Sine { amplitude: one, offset: two, period_ms: 1 }), 0),
        Evaluation::Formula
    );
    assert_eq!(
        evaluation(&Some(DynamicsSpec::Ramp { min: one, max: two, period_ms: 1000 }), 250),
        Evaluation::Formula
    );
    assert_eq!(
        evaluation(&Some(DynamicsSpec::Clamp { min: one, max: two }), 0),
        Evaluation::Formula
    );
    assert_eq!(
        evaluation(&Some(DynamicsSpec::RandomWalk { min: one, max: two, step: one }), 0),
        Evaluation::Formula
    );
    assert_eq!(
        evaluation(&Some(DynamicsSpec::Noise { min: one, max: two }), 0),
        Evaluation::Formula
    );
    let script = DynamicsSpec::Script { expr: String::from("t * 2"), min: None, max: Some(two) };
    assert_eq!(evaluation(&Some(script), 0), Evaluation::Formula);
    assert!(!needs_evaluation(&None));
    assert!(!needs_evaluation(&Some(DynamicsSpec::Static)));
    assert!(needs_evaluation(&Some(DynamicsSpec::Noise { min: one, max: two })));
}

#[test]
fn the_echoed_count_is_the_number_of_values_in_sixteen_bits() {
    let mut state = state_with_register(0, 0);
    let values: Vec<u16> = (0..65_537u32).map(|value| (value % 7) as u16).collect();
    assert_eq!(
        dispatch(&mut state, Request::WriteMultipleRegisters(0, values), 0),
        Ok(Response::WriteMultipleRegisters(0, 1))
    );
    assert_eq!(state.holding_registers.len(), 65_536);
    assert_eq!(state.read_holding_registers(0, 3), vec![0, 1, 2]);
    assert_eq!(state.read_holding_registers(65_535, 1), vec![(65_536u32 % 7) as u16]);
    let flags = vec![true; 65_535];
    assert_eq!(
        dispatch(&mut state, Request::WriteMultipleCoils(9, flags), 0),
        Ok(Response::WriteMultipleCoils(9, 65_535))
    );
    assert_eq!(dispatch(&mut state, Request::WriteMultipleCoils(9, vec![]), 0), Ok(Response::WriteMultipleCoils(9, 0)));
}
