use std::collections::BTreeMap;

use modsim::{
    BoolItemConfig, DynamicsSpec, Evaluations, RegisterItemConfig, Scalar, SimState,
};

fn no_evaluations() -> Evaluations {
    Evaluations {
        coils: BTreeMap::new(),
        discrete_inputs: BTreeMap::new(),
        holding_registers: BTreeMap::new(),
        input_registers: BTreeMap::new(),
    }
}

fn empty_state(global_update_ms: u64) -> SimState {
    SimState::new(global_update_ms, false, vec![], vec![], vec![], vec![], 0)
}

fn ramp() -> DynamicsSpec {
    DynamicsSpec::Ramp {
        min: Scalar { bits: 0.0f64.to_bits() },
        max: Scalar { bits: 100.0f64.to_bits() },
        period_ms: 1000,
    }
}

fn register(address: u16, initial: u16, update_ms: Option<u64>, dynamics: Option<DynamicsSpec>) -> RegisterItemConfig {
    RegisterItemConfig { address, initial, update_ms, dynamics }
}

fn coil(address: u16, initial: bool, update_ms: Option<u64>, dynamics: Option<DynamicsSpec>) -> BoolItemConfig {
    BoolItemConfig { address, initial, update_ms, dynamics }
}

#[test]
fn new_creates_configured_points() {
    let state = SimState::new(
        500,
        true,
        vec![coil(3, true, None, None)],
        vec![coil(3, false, Some(50), None)],
        vec![register(0, 123, None, None), register(7, 9, Some(20), Some(ramp()))],
        vec![register(0, 77, Some(1000), None)],
        1_000,
    );
    assert_eq!(state.global_update_ms, 500);
    assert!(state.log_value_updates);
    assert_eq!(state.start_time, 1_000);
    assert_eq!(state.coils.len(), 1);
    assert_eq!(state.discrete_inputs.len(), 1);
    assert_eq!(state.holding_registers.len(), 2);
    assert_eq!(state.input_registers.len(), 1);
    let item = &state.holding_registers[&7];
    assert_eq!(item.value, 9);
    assert_eq!(item.last_value, 9);
    assert_eq!(item.update_ms, 20);
    assert_eq!(item.next_due, 1_020);
    assert_eq!(item.dynamics, Some(ramp()));
    let item = &state.coils[&3];
    assert!(item.value);
    assert_eq!(item.update_ms, 500);
    assert_eq!(item.next_due, 1_500);
    assert_eq!(state.discrete_inputs[&3].next_due, 1_050);
}

#[test]
fn new_keeps_the_later_of_two_entries_for_one_address() {
    let state = SimState::new(
        500,
        false,
        vec![],
        vec![],
        vec![register(4, 1, None, None), register(4, 2, Some(30), None)],
        vec![],
        0,
    );
    assert_eq!(state.holding_registers.len(), 1);
    assert_eq!(state.read_holding_registers(4, 1), vec![2]);
    assert_eq!(state.holding_registers[&4].update_ms, 30);
}

#[test]
fn new_saturates_the_first_deadline() {
    let state = SimState::new(u64::MAX, false, vec![coil(0, false, None, None)], vec![], vec![], vec![], 5);
    assert_eq!(state.coils[&0].next_due, u64::MAX);
}

#[test]
fn reading_an_unmapped_address_gives_the_default_and_creates_nothing() {
    let state = empty_state(500);
    assert_eq!(state.read_coils(10, 3), vec![false, false, false]);
    assert_eq!(state.read_discrete_inputs(10, 2), vec![false, false]);
    assert_eq!(state.read_holding_registers(10, 3), vec![0, 0, 0]);
    assert_eq!(state.read_input_registers(10, 1), vec![0]);
    assert!(state.coils.is_empty());
    assert!(state.discrete_inputs.is_empty());
    assert!(state.holding_registers.is_empty());
    assert!(state.input_registers.is_empty());
}

#[test]
fn reading_nothing_gives_nothing() {
    let state = empty_state(500);
    assert_eq!(state.read_coils(0, 0), Vec::<bool>::new());
    assert_eq!(state.read_holding_registers(65535, 0), Vec::<u16>::new());
}

#[test]
fn reading_twice_gives_the_same() {
    let mut state = empty_state(500);
    state.write_multiple_registers(5, &[1, 2, 3], 0);
    let first = state.read_holding_registers(4, 6);
    let second = state.read_holding_registers(4, 6);
    assert_eq!(first, second);
    assert_eq!(first, vec![0, 1, 2, 3, 0, 0]);
}

#[test]
fn a_write_is_read_back() {
    let mut state = empty_state(500);
    state.write_single_coil(9, true, 40);
    state.write_single_register(9, 0xbeef, 40);
    assert_eq!(state.read_coils(9, 1), vec![true]);
    assert_eq!(state.read_holding_registers(9, 1), vec![0xbeef]);
    assert_eq!(state.read_discrete_inputs(9, 1), vec![false]);
    assert_eq!(state.read_input_registers(9, 1), vec![0]);
}

#[test]
fn a_write_to_an_unmapped_address_creates_a_constant_point() {
    let mut state = empty_state(250);
    state.write_single_register(2, 11, 1_000);
    let item = &state.holding_registers[&2];
    assert_eq!(item.value, 11);
    assert_eq!(item.last_value, 11);
    assert_eq!(item.dynamics, None);
    assert_eq!(item.update_ms, 250);
    assert_eq!(item.next_due, 1_250);
}

#[test]
fn a_write_to_a_configured_point_changes_only_its_value() {
    let mut state = SimState::new(
        500,
        false,
        vec![],
        vec![],
        vec![register(2, 5, Some(100), Some(ramp()))],
        vec![],
        0,
    );
    state.write_single_register(2, 60, 30);
    let item = &state.holding_registers[&2];
    assert_eq!(item.value, 60);
    assert_eq!(item.last_value, 5);
    assert_eq!(item.dynamics, Some(ramp()));
    assert_eq!(item.update_ms, 100);
    assert_eq!(item.next_due, 100);
}

#[test]
fn a_range_write_is_read_back_in_order() {
    let mut state = empty_state(500);
    state.write_multiple_registers(100, &[10, 20, 30], 0);
    assert_eq!(state.read_holding_registers(100, 1), vec![10]);
    assert_eq!(state.read_holding_registers(101, 1), vec![20]);
    assert_eq!(state.read_holding_registers(102, 1), vec![30]);
    assert_eq!(state.read_holding_registers(99, 1), vec![0]);
    assert_eq!(state.holding_registers.len(), 3);
    state.write_multiple_coils(100, &[true, false, true], 0);
    assert_eq!(state.read_coils(99, 5), vec![false, true, false, true, false]);
}

#[test]
fn an_empty_range_write_changes_nothing() {
    let mut state = empty_state(500);
    state.write_multiple_coils(1, &[], 0);
    state.write_multiple_registers(1, &[], 0);
    assert!(state.coils.is_empty());
    assert!(state.holding_registers.is_empty());
}

#[test]
fn addresses_saturate_at_the_top_on_both_paths() {
    let mut state = empty_state(500);
    state.write_multiple_registers(65534, &[1, 2, 3], 0);
    assert_eq!(state.holding_registers.len(), 2);
    assert_eq!(state.read_holding_registers(65534, 1), vec![1]);
    assert_eq!(state.read_holding_registers(65535, 1), vec![3]);
    assert_eq!(state.read_holding_registers(65534, 4), vec![1, 3, 3, 3]);
    assert_eq!(state.read_holding_registers(0, 1), vec![0]);
    state.write_multiple_coils(65535, &[false, true], 0);
    assert_eq!(state.read_coils(65535, 2), vec![true, true]);
}

#[test]
fn min_tick_is_the_least_interval_floored_at_ten() {
    assert_eq!(empty_state(500).min_tick_ms(), 500);
    assert_eq!(empty_state(3).min_tick_ms(), 10);
    let state = SimState::new(
        500,
        false,
        vec![coil(0, false, Some(200), None)],
        vec![coil(0, false, Some(70), None)],
        vec![register(0, 0, Some(90), None)],
        vec![register(0, 0, Some(80), None), register(1, 0, None, None)],
        0,
    );
    assert_eq!(state.min_tick_ms(), 70);
    let state = SimState::new(500, false, vec![], vec![], vec![register(0, 0, Some(1), None)], vec![], 0);
    assert_eq!(state.min_tick_ms(), 10);
}

#[test]
fn min_tick_ignores_points_created_by_writes_only_if_not_asked_again() {
    let mut state = empty_state(40);
    let period = state.min_tick_ms();
    state.write_single_coil(0, true, 0);
    assert_eq!(period, 40);
    assert_eq!(state.min_tick_ms(), 40);
}

#[test]
fn elapsed_counts_from_the_origin() {
    let state = SimState::new(500, false, vec![], vec![], vec![], vec![], 1_000);
    assert_eq!(state.elapsed_ms(1_250), 250);
    assert_eq!(state.elapsed_ms(1_000), 0);
    assert_eq!(state.elapsed_ms(10), 0);
}

#[test]
fn pending_lists_due_points_with_a_waveform() {
    let state = SimState::new(
        500,
        false,
        vec![coil(5, false, Some(100), Some(ramp())), coil(1, false, Some(100), None)],
        vec![coil(2, false, Some(300), Some(ramp()))],
        vec![
            register(9, 0, Some(100), Some(ramp())),
            register(3, 0, Some(100), Some(DynamicsSpec::Static)),
            register(4, 0, Some(50), Some(ramp())),
        ],
        vec![register(8, 0, None, Some(ramp()))],
        0,
    );
    let due = state.pending(100);
    assert_eq!(due.coils, vec![5]);
    assert_eq!(due.discrete_inputs, Vec::<u16>::new());
    assert_eq!(due.holding_registers, vec![4, 9]);
    assert_eq!(due.input_registers, Vec::<u16>::new());
    let due = state.pending(49);
    assert_eq!(due.holding_registers, Vec::<u16>::new());
    let due = state.pending(500);
    assert_eq!(due.discrete_inputs, vec![2]);
    assert_eq!(due.input_registers, vec![8]);
}

#[test]
fn a_tick_before_the_deadline_changes_nothing() {
    let mut state = SimState::new(
        500,
        true,
        vec![],
        vec![],
        vec![register(0, 5, Some(100), Some(ramp()))],
        vec![],
        0,
    );
    let mut evaluated = no_evaluations();
    evaluated.holding_registers.insert(0, 25);
    let changed = state.tick(99, &evaluated);
    assert_eq!(changed.holding_registers, Vec::<u16>::new());
    let item = &state.holding_registers[&0];
    assert_eq!(item.value, 5);
    assert_eq!(item.last_value, 5);
    assert_eq!(item.next_due, 100);
}

#[test]
fn a_due_point_is_evaluated_once_and_rescheduled_from_now() {
    let mut state = SimState::new(
        500,
        true,
        vec![],
        vec![],
        vec![register(0, 5, Some(100), Some(ramp()))],
        vec![],
        0,
    );
    let mut evaluated = no_evaluations();
    evaluated.holding_registers.insert(0, 13);
    let changed = state.tick(130, &evaluated);
    assert_eq!(changed.holding_registers, vec![0]);
    let item = &state.holding_registers[&0];
    assert_eq!(item.value, 13);
    assert_eq!(item.last_value, 5);
    assert_eq!(item.next_due, 230);

    let mut evaluated = no_evaluations();
    evaluated.holding_registers.insert(0, 22);
    let changed = state.tick(229, &evaluated);
    assert_eq!(changed.holding_registers, Vec::<u16>::new());
    assert_eq!(state.read_holding_registers(0, 1), vec![13]);

    let changed = state.tick(230, &evaluated);
    assert_eq!(changed.holding_registers, vec![0]);
    let item = &state.holding_registers[&0];
    assert_eq!(item.value, 22);
    assert_eq!(item.last_value, 13);
    assert_eq!(item.next_due, 330);
}

#[test]
fn a_point_without_a_waveform_is_never_evaluated() {
    let mut state = SimState::new(
        100,
        true,
        vec![coil(1, true, None, None)],
        vec![],
        vec![register(1, 8, None, Some(DynamicsSpec::Static))],
        vec![],
        0,
    );
    state.write_single_register(2, 44, 0);
    let mut evaluated = no_evaluations();
    evaluated.coils.insert(1, false);
    evaluated.holding_registers.insert(1, 99);
    evaluated.holding_registers.insert(2, 99);
    let changed = state.tick(100, &evaluated);
    assert_eq!(changed.coils, Vec::<u16>::new());
    assert_eq!(changed.holding_registers, Vec::<u16>::new());
    assert_eq!(state.read_coils(1, 1), vec![true]);
    assert_eq!(state.read_holding_registers(1, 2), vec![8, 44]);
    assert_eq!(state.holding_registers[&1].next_due, 200);
    assert_eq!(state.holding_registers[&2].next_due, 200);
}

#[test]
fn a_due_point_without_an_evaluation_keeps_its_value() {
    let script = DynamicsSpec::Script { expr: String::from("t +"), min: None, max: None };
    let mut state = SimState::new(
        100,
        true,
        vec![],
        vec![],
        vec![],
        vec![register(6, 17, None, Some(script))],
        0,
    );
    let mut now = 100;
    while now <= 1_000 {
        let changed = state.tick(now, &no_evaluations());
        assert_eq!(changed.input_registers, Vec::<u16>::new());
        assert_eq!(state.read_input_registers(6, 1), vec![17]);
        assert_eq!(state.input_registers[&6].next_due, now + 100);
        now += 100;
    }
}

#[test]
fn a_write_to_a_dynamic_point_lasts_until_its_next_evaluation() {
    let mut state = SimState::new(
        100,
        false,
        vec![coil(0, false, None, Some(ramp()))],
        vec![],
        vec![],
        vec![],
        0,
    );
    state.write_single_coil(0, true, 10);
    assert_eq!(state.read_coils(0, 1), vec![true]);
    let mut evaluated = no_evaluations();
    evaluated.coils.insert(0, false);
    state.tick(50, &evaluated);
    assert_eq!(state.read_coils(0, 1), vec![true]);
    state.tick(100, &evaluated);
    assert_eq!(state.read_coils(0, 1), vec![false]);
    assert!(state.coils[&0].last_value);
}

#[test]
fn changes_are_listed_only_when_reporting_is_on() {
    let configs = vec![coil(2, false, Some(10), Some(ramp())), coil(1, false, Some(10), Some(ramp())), coil(3, true, Some(10), Some(ramp()))];
    let mut evaluated = no_evaluations();
    evaluated.coils.insert(1, true);
    evaluated.coils.insert(2, true);
    evaluated.coils.insert(3, true);
    let mut loud = SimState::new(500, true, configs.clone(), configs.clone(), vec![], vec![], 0);
    let changed = loud.tick(10, &evaluated);
    assert_eq!(changed.coils, vec![1, 2]);
    assert_eq!(changed.discrete_inputs, Vec::<u16>::new());
    assert_eq!(loud.read_coils(1, 3), vec![true, true, true]);
    assert_eq!(loud.read_discrete_inputs(1, 3), vec![false, false, true]);
    let mut quiet = SimState::new(500, false, configs.clone(), vec![], vec![], vec![], 0);
    let changed = quiet.tick(10, &evaluated);
    assert_eq!(changed.coils, Vec::<u16>::new());
    assert_eq!(quiet.read_coils(1, 3), vec![true, true, true]);
}

#[test]
fn a_tick_saturates_the_next_deadline() {
    let mut state = SimState::new(500, false, vec![coil(0, false, Some(10), None)], vec![], vec![], vec![], 0);
    state.tick(u64::MAX - 3, &no_evaluations());
    assert_eq!(state.coils[&0].next_due, u64::MAX);
}

#[test]
fn writes_to_distinct_addresses_all_persist() {
    let mut state = empty_state(500);
    let mut address: u16 = 0;
    while address < 64 {
        state.write_single_register(address * 3, 1000 + address, 0);
        let mut earlier: u16 = 0;
        while earlier <= address {
            assert_eq!(state.read_holding_registers(earlier * 3, 1), vec![1000 + earlier]);
            earlier += 1;
        }
        address += 1;
    }
}
