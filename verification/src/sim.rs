//! The simulation engine: four sparse address spaces whose points are
//! re-evaluated on their own schedules against one shared clock.
//!
//! Time is a count of milliseconds on a monotonic clock that the caller
//! reads; the engine never reads a clock itself. Timestamps saturate at
//! `u64::MAX`, and addresses past the top of the 16-bit space saturate at
//! `u16::MAX`, on the read path and on the write path alike.

use std::collections::BTreeMap;
use vstd::prelude::*;
use vstd::std_specs::btree::*;
use crate::config::{is_dynamic, BoolItemConfig, DynamicsSpec, RegisterItemConfig};
use crate::space::{
    build_bools, build_registers, min_interval_bools, min_interval_registers, pending_bools,
    pending_registers, read_range_bool, read_range_register, tick_bools, tick_registers,
    write_bool, write_register,
};

verus! {

/// One simulated coil or discrete input.
#[derive(Debug, Clone, PartialEq, Eq)]
pub struct SimBoolItem {
    pub value: bool,
    pub last_value: bool,
    pub dynamics: Option<DynamicsSpec>,
    pub update_ms: u64,
    pub next_due: u64,
}

/// One simulated holding or input register.
#[derive(Debug, Clone, PartialEq, Eq)]
pub struct SimRegisterItem {
    pub value: u16,
    pub last_value: u16,
    pub dynamics: Option<DynamicsSpec>,
    pub update_ms: u64,
    pub next_due: u64,
}

/// The engine: four independent address spaces and the settings they share.
#[derive(Debug, Clone)]
pub struct SimState {
    pub coils: BTreeMap<u16, SimBoolItem>,
    pub discrete_inputs: BTreeMap<u16, SimBoolItem>,
    pub holding_registers: BTreeMap<u16, SimRegisterItem>,
    pub input_registers: BTreeMap<u16, SimRegisterItem>,
    pub global_update_ms: u64,
    pub log_value_updates: bool,
    /// The clock reading from which waveform time is counted.
    pub start_time: u64,
}

/// The mathematical content of a [`SimState`].
pub struct SimStateView {
    pub coils: Map<u16, SimBoolItem>,
    pub discrete_inputs: Map<u16, SimBoolItem>,
    pub holding_registers: Map<u16, SimRegisterItem>,
    pub input_registers: Map<u16, SimRegisterItem>,
    pub global_update_ms: u64,
    pub log_value_updates: bool,
    pub start_time: u64,
}

impl View for SimState {
    type V = SimStateView;

    open spec fn view(&self) -> SimStateView {
        SimStateView {
            coils: self.coils@,
            discrete_inputs: self.discrete_inputs@,
            holding_registers: self.holding_registers@,
            input_registers: self.input_registers@,
            global_update_ms: self.global_update_ms,
            log_value_updates: self.log_value_updates,
            start_time: self.start_time,
        }
    }
}

/// Freshly evaluated values, by address, for the points of each class.
///
/// Evaluating a waveform is floating-point work that the caller does; the
/// engine decides which points are due and what becomes of them.
#[derive(Debug, Clone)]
pub struct Evaluations {
    pub coils: BTreeMap<u16, bool>,
    pub discrete_inputs: BTreeMap<u16, bool>,
    pub holding_registers: BTreeMap<u16, u16>,
    pub input_registers: BTreeMap<u16, u16>,
}

/// Addresses of points, by class, each list in ascending order.
#[derive(Debug, Clone, PartialEq, Eq)]
pub struct AddressLists {
    pub coils: Vec<u16>,
    pub discrete_inputs: Vec<u16>,
    pub holding_registers: Vec<u16>,
    pub input_registers: Vec<u16>,
}

/// Whether the addresses stand in ascending order, none twice.
pub open spec fn strictly_increasing(addresses: Seq<u16>) -> bool {
    forall|i: int, j: int| 0 <= i < j < addresses.len() ==> addresses[i] < addresses[j]
}

/// Whether `list` holds exactly the addresses that `wanted` admits, each
/// once, in ascending order.
pub open spec fn lists_exactly(list: Seq<u16>, wanted: spec_fn(u16) -> bool) -> bool {
    &&& strictly_increasing(list)
    &&& forall|a: u16| #![trigger list.contains(a)] #![trigger wanted(a)] list.contains(a) <==> wanted(a)
}

/// The entry of a map at an address, if there is one.
pub open spec fn lookup<V>(entries: Map<u16, V>, address: u16) -> Option<V> {
    if entries.contains_key(address) {
        Some(entries[address])
    } else {
        None
    }
}

/// A bit point after a tick at `now_ms`. A point that is not yet due is
/// untouched. A due point remembers its value as `last_value`, is scheduled
/// `update_ms` after `now_ms`, and takes the evaluated value if it has a
/// waveform and one was supplied; otherwise it keeps its value.
pub open spec fn ticked_bool(item: SimBoolItem, now_ms: u64, evaluated: Option<bool>) -> SimBoolItem {
    if item.next_due <= now_ms {
        SimBoolItem {
            value: if is_dynamic(item.dynamics) && evaluated is Some {
                evaluated->Some_0
            } else {
                item.value
            },
            last_value: item.value,
            next_due: deadline(now_ms, item.update_ms),
            ..item
        }
    } else {
        item
    }
}

/// A register point after a tick at `now_ms`; see [`ticked_bool`].
pub open spec fn ticked_register(
    item: SimRegisterItem,
    now_ms: u64,
    evaluated: Option<u16>,
) -> SimRegisterItem {
    if item.next_due <= now_ms {
        SimRegisterItem {
            value: if is_dynamic(item.dynamics) && evaluated is Some {
                evaluated->Some_0
            } else {
                item.value
            },
            last_value: item.value,
            next_due: deadline(now_ms, item.update_ms),
            ..item
        }
    } else {
        item
    }
}

/// A bit address space after a tick: the same addresses, each point ticked.
pub open spec fn ticked_bools(
    points: Map<u16, SimBoolItem>,
    now_ms: u64,
    evaluated: Map<u16, bool>,
) -> Map<u16, SimBoolItem> {
    Map::new(
        |a: u16| points.contains_key(a),
        |a: u16| ticked_bool(points[a], now_ms, lookup(evaluated, a)),
    )
}

/// A register address space after a tick: the same addresses, each point ticked.
pub open spec fn ticked_registers(
    points: Map<u16, SimRegisterItem>,
    now_ms: u64,
    evaluated: Map<u16, u16>,
) -> Map<u16, SimRegisterItem> {
    Map::new(
        |a: u16| points.contains_key(a),
        |a: u16| ticked_register(points[a], now_ms, lookup(evaluated, a)),
    )
}

/// Whether the tick changes the value of the bit point at `address`.
pub open spec fn bool_changes(
    points: Map<u16, SimBoolItem>,
    now_ms: u64,
    evaluated: Map<u16, bool>,
    address: u16,
) -> bool {
    points.contains_key(address) && ticked_bool(
        points[address],
        now_ms,
        lookup(evaluated, address),
    ).value != points[address].value
}

/// Whether the tick changes the value of the register point at `address`.
pub open spec fn register_changes(
    points: Map<u16, SimRegisterItem>,
    now_ms: u64,
    evaluated: Map<u16, u16>,
    address: u16,
) -> bool {
    points.contains_key(address) && ticked_register(
        points[address],
        now_ms,
        lookup(evaluated, address),
    ).value != points[address].value
}

/// Whether the bit point at `address` is due at `now_ms` and has a waveform
/// to evaluate.
pub open spec fn bool_pending(points: Map<u16, SimBoolItem>, now_ms: u64, address: u16) -> bool {
    points.contains_key(address) && points[address].next_due <= now_ms && is_dynamic(
        points[address].dynamics,
    )
}

/// Whether the register point at `address` is due at `now_ms` and has a
/// waveform to evaluate.
pub open spec fn register_pending(
    points: Map<u16, SimRegisterItem>,
    now_ms: u64,
    address: u16,
) -> bool {
    points.contains_key(address) && points[address].next_due <= now_ms && is_dynamic(
        points[address].dynamics,
    )
}

impl SimStateView {
    /// The state after a tick at `now_ms`: every point of every class ticked,
    /// the settings as they were.
    pub open spec fn ticked(self, now_ms: u64, evaluated: Evaluations) -> SimStateView {
        SimStateView {
            coils: ticked_bools(self.coils, now_ms, evaluated.coils@),
            discrete_inputs: ticked_bools(self.discrete_inputs, now_ms, evaluated.discrete_inputs@),
            holding_registers: ticked_registers(
                self.holding_registers,
                now_ms,
                evaluated.holding_registers@,
            ),
            input_registers: ticked_registers(
                self.input_registers,
                now_ms,
                evaluated.input_registers@,
            ),
            ..self
        }
    }

    /// Whether `ms` is the floored global interval or the floored interval
    /// of some point.
    pub open spec fn has_interval(self, ms: u64) -> bool {
        ||| ms == floored(self.global_update_ms)
        ||| exists|a: u16|
            self.coils.contains_key(a) && ms == floored(#[trigger] self.coils[a].update_ms)
        ||| exists|a: u16|
            self.discrete_inputs.contains_key(a) && ms == floored(
                #[trigger] self.discrete_inputs[a].update_ms,
            )
        ||| exists|a: u16|
            self.holding_registers.contains_key(a) && ms == floored(
                #[trigger] self.holding_registers[a].update_ms,
            )
        ||| exists|a: u16|
            self.input_registers.contains_key(a) && ms == floored(
                #[trigger] self.input_registers[a].update_ms,
            )
    }
}

/// The instant `update_ms` after `now_ms`, saturating at the end of time.
pub open spec fn deadline(now_ms: u64, update_ms: u64) -> u64 {
    if now_ms + update_ms > u64::MAX {
        u64::MAX
    } else {
        (now_ms + update_ms) as u64
    }
}

/// The address `offset` places after `address`, saturating at the top of
/// the 16-bit space.
pub open spec fn offset_address(address: u16, offset: int) -> u16 {
    if address + offset > u16::MAX {
        u16::MAX
    } else {
        (address + offset) as u16
    }
}

/// What a read of one bit address yields: the point's value, or `false`
/// where no point exists.
pub open spec fn read_bool(points: Map<u16, SimBoolItem>, address: u16) -> bool {
    if points.contains_key(address) {
        points[address].value
    } else {
        false
    }
}

/// What a read of one register address yields: the point's value, or `0`
/// where no point exists.
pub open spec fn read_register(points: Map<u16, SimRegisterItem>, address: u16) -> u16 {
    if points.contains_key(address) {
        points[address].value
    } else {
        0
    }
}

pub open spec fn read_bool_range(points: Map<u16, SimBoolItem>, address: u16, count: nat) -> Seq<
    bool,
> {
    Seq::new(count, |i: int| read_bool(points, offset_address(address, i)))
}

pub open spec fn read_register_range(
    points: Map<u16, SimRegisterItem>,
    address: u16,
    count: nat,
) -> Seq<u16> {
    Seq::new(count, |i: int| read_register(points, offset_address(address, i)))
}

/// The address space after one bit write: an existing point only changes its
/// value; a missing one is created constant, on the global interval.
pub open spec fn written_bool(
    points: Map<u16, SimBoolItem>,
    address: u16,
    value: bool,
    global_update_ms: u64,
    now_ms: u64,
) -> Map<u16, SimBoolItem> {
    if points.contains_key(address) {
        points.insert(address, SimBoolItem { value, ..points[address] })
    } else {
        points.insert(
            address,
            SimBoolItem {
                value,
                last_value: value,
                dynamics: None,
                update_ms: global_update_ms,
                next_due: deadline(now_ms, global_update_ms),
            },
        )
    }
}

/// The address space after one register write; see [`written_bool`].
pub open spec fn written_register(
    points: Map<u16, SimRegisterItem>,
    address: u16,
    value: u16,
    global_update_ms: u64,
    now_ms: u64,
) -> Map<u16, SimRegisterItem> {
    if points.contains_key(address) {
        points.insert(address, SimRegisterItem { value, ..points[address] })
    } else {
        points.insert(
            address,
            SimRegisterItem {
                value,
                last_value: value,
                dynamics: None,
                update_ms: global_update_ms,
                next_due: deadline(now_ms, global_update_ms),
            },
        )
    }
}

/// The address space after a range write: the single-write rule applied to
/// `address`, `address + 1`, ... in that order, one value each.
pub open spec fn written_bools(
    points: Map<u16, SimBoolItem>,
    address: u16,
    values: Seq<bool>,
    global_update_ms: u64,
    now_ms: u64,
) -> Map<u16, SimBoolItem>
    decreases values.len(),
{
    if values.len() == 0 {
        points
    } else {
        written_bool(
            written_bools(points, address, values.drop_last(), global_update_ms, now_ms),
            offset_address(address, values.len() - 1),
            values.last(),
            global_update_ms,
            now_ms,
        )
    }
}

/// The address space after a range write of registers; see [`written_bools`].
pub open spec fn written_registers(
    points: Map<u16, SimRegisterItem>,
    address: u16,
    values: Seq<u16>,
    global_update_ms: u64,
    now_ms: u64,
) -> Map<u16, SimRegisterItem>
    decreases values.len(),
{
    if values.len() == 0 {
        points
    } else {
        written_register(
            written_registers(points, address, values.drop_last(), global_update_ms, now_ms),
            offset_address(address, values.len() - 1),
            values.last(),
            global_update_ms,
            now_ms,
        )
    }
}

/// Executable form of [`offset_address`].
pub fn address_at(address: u16, offset: usize) -> (target: u16)
    ensures
        target == offset_address(address, offset as int),
{
    if offset > 0xffff {
        u16::MAX
    } else {
        address.saturating_add(offset as u16)
    }
}

/// A refresh interval as the ticker honours it: never under 10 ms, so that
/// the ticker cannot spin.
pub open spec fn floored(update_ms: u64) -> u64 {
    if update_ms < 10 {
        10
    } else {
        update_ms
    }
}

/// The point that a bit configuration entry creates at the clock reading
/// `start`: its own interval where it names one, the global one otherwise.
pub open spec fn configured_bool(config: BoolItemConfig, global_update_ms: u64, start: u64) -> SimBoolItem {
    let update_ms = match config.update_ms {
        Some(ms) => ms,
        None => global_update_ms,
    };
    SimBoolItem {
        value: config.initial,
        last_value: config.initial,
        dynamics: config.dynamics,
        update_ms,
        next_due: deadline(start, update_ms),
    }
}

/// The point that a register configuration entry creates; see [`configured_bool`].
pub open spec fn configured_register(
    config: RegisterItemConfig,
    global_update_ms: u64,
    start: u64,
) -> SimRegisterItem {
    let update_ms = match config.update_ms {
        Some(ms) => ms,
        None => global_update_ms,
    };
    SimRegisterItem {
        value: config.initial,
        last_value: config.initial,
        dynamics: config.dynamics,
        update_ms,
        next_due: deadline(start, update_ms),
    }
}

/// The bit address space that a list of configuration entries creates. Where
/// two entries name one address, the later one stands.
pub open spec fn configured_bools(
    configs: Seq<BoolItemConfig>,
    global_update_ms: u64,
    start: u64,
) -> Map<u16, SimBoolItem>
    decreases configs.len(),
{
    if configs.len() == 0 {
        Map::empty()
    } else {
        configured_bools(configs.drop_last(), global_update_ms, start).insert(
            configs.last().address,
            configured_bool(configs.last(), global_update_ms, start),
        )
    }
}

/// The register address space that a list of configuration entries creates;
/// see [`configured_bools`].
pub open spec fn configured_registers(
    configs: Seq<RegisterItemConfig>,
    global_update_ms: u64,
    start: u64,
) -> Map<u16, SimRegisterItem>
    decreases configs.len(),
{
    if configs.len() == 0 {
        Map::empty()
    } else {
        configured_registers(configs.drop_last(), global_update_ms, start).insert(
            configs.last().address,
            configured_register(configs.last(), global_update_ms, start),
        )
    }
}

impl Evaluations {
    /// No evaluation for any point.
    pub fn new() -> (evaluated: Evaluations)
        ensures
            evaluated.coils@ == Map::<u16, bool>::empty(),
            evaluated.discrete_inputs@ == Map::<u16, bool>::empty(),
            evaluated.holding_registers@ == Map::<u16, u16>::empty(),
            evaluated.input_registers@ == Map::<u16, u16>::empty(),
    {
        Evaluations {
            coils: BTreeMap::new(),
            discrete_inputs: BTreeMap::new(),
            holding_registers: BTreeMap::new(),
            input_registers: BTreeMap::new(),
        }
    }
}

impl SimState {
    /// Creates the engine at the clock reading `now_ms`, which becomes its
    /// time origin. Every configured point is first due one interval later.
    pub fn new(
        global_update_ms: u64,
        log_value_updates: bool,
        coils: Vec<BoolItemConfig>,
        discrete_inputs: Vec<BoolItemConfig>,
        holding_registers: Vec<RegisterItemConfig>,
        input_registers: Vec<RegisterItemConfig>,
        now_ms: u64,
    ) -> (state: SimState)
        ensures
            state@ == (SimStateView {
                coils: configured_bools(coils@, global_update_ms, now_ms),
                discrete_inputs: configured_bools(discrete_inputs@, global_update_ms, now_ms),
                holding_registers: configured_registers(
                    holding_registers@,
                    global_update_ms,
                    now_ms,
                ),
                input_registers: configured_registers(input_registers@, global_update_ms, now_ms),
                global_update_ms,
                log_value_updates,
                start_time: now_ms,
            }),
    {
        let coils = build_bools(coils, global_update_ms, now_ms);
        let discrete_inputs = build_bools(discrete_inputs, global_update_ms, now_ms);
        let holding_registers = build_registers(holding_registers, global_update_ms, now_ms);
        let input_registers = build_registers(input_registers, global_update_ms, now_ms);
        SimState {
            coils,
            discrete_inputs,
            holding_registers,
            input_registers,
            global_update_ms,
            log_value_updates,
            start_time: now_ms,
        }
    }

    /// The period on which to drive the ticker: the least of the global
    /// interval and every point's own, none taken under 10 ms.
    pub fn min_tick_ms(&self) -> (least: u64)
        ensures
            self@.has_interval(least),
            forall|ms: u64| self@.has_interval(ms) ==> least <= ms,
    {
        let start = if self.global_update_ms < 10 {
            10
        } else {
            self.global_update_ms
        };
        let least = min_interval_bools(&self.coils, start);
        let least = min_interval_bools(&self.discrete_inputs, least);
        let least = min_interval_registers(&self.holding_registers, least);
        let least = min_interval_registers(&self.input_registers, least);
        least
    }

    /// The points that are due at `now_ms` and have a waveform to evaluate.
    /// The caller evaluates them and hands the results to [`SimState::tick`].
    pub fn pending(&self, now_ms: u64) -> (due: AddressLists)
        ensures
            lists_exactly(due.coils@, |a: u16| bool_pending(self@.coils, now_ms, a)),
            lists_exactly(
                due.discrete_inputs@,
                |a: u16| bool_pending(self@.discrete_inputs, now_ms, a),
            ),
            lists_exactly(
                due.holding_registers@,
                |a: u16| register_pending(self@.holding_registers, now_ms, a),
            ),
            lists_exactly(
                due.input_registers@,
                |a: u16| register_pending(self@.input_registers, now_ms, a),
            ),
    {
        AddressLists {
            coils: pending_bools(&self.coils, now_ms),
            discrete_inputs: pending_bools(&self.discrete_inputs, now_ms),
            holding_registers: pending_registers(&self.holding_registers, now_ms),
            input_registers: pending_registers(&self.input_registers, now_ms),
        }
    }

    /// Advances every point that is due at the clock reading `now_ms`, and
    /// lists the points whose value changed, if changes are to be reported.
    pub fn tick(&mut self, now_ms: u64, evaluated: &Evaluations) -> (changed: AddressLists)
        ensures
            final(self)@ == old(self)@.ticked(now_ms, *evaluated),
            lists_exactly(
                changed.coils@,
                |a: u16|
                    old(self)@.log_value_updates && bool_changes(
                        old(self)@.coils,
                        now_ms,
                        evaluated.coils@,
                        a,
                    ),
            ),
            lists_exactly(
                changed.discrete_inputs@,
                |a: u16|
                    old(self)@.log_value_updates && bool_changes(
                        old(self)@.discrete_inputs,
                        now_ms,
                        evaluated.discrete_inputs@,
                        a,
                    ),
            ),
            lists_exactly(
                changed.holding_registers@,
                |a: u16|
                    old(self)@.log_value_updates && register_changes(
                        old(self)@.holding_registers,
                        now_ms,
                        evaluated.holding_registers@,
                        a,
                    ),
            ),
            lists_exactly(
                changed.input_registers@,
                |a: u16|
                    old(self)@.log_value_updates && register_changes(
                        old(self)@.input_registers,
                        now_ms,
                        evaluated.input_registers@,
                        a,
                    ),
            ),
    {
        let report = self.log_value_updates;
        let coils = tick_bools(&mut self.coils, now_ms, &evaluated.coils, report);
        let discrete_inputs = tick_bools(
            &mut self.discrete_inputs,
            now_ms,
            &evaluated.discrete_inputs,
            report,
        );
        let holding_registers = tick_registers(
            &mut self.holding_registers,
            now_ms,
            &evaluated.holding_registers,
            report,
        );
        let input_registers = tick_registers(
            &mut self.input_registers,
            now_ms,
            &evaluated.input_registers,
            report,
        );
        AddressLists { coils, discrete_inputs, holding_registers, input_registers }
    }

    /// Milliseconds of waveform time at the clock reading `now_ms`; a reading
    /// before the origin counts as the origin.
    pub fn elapsed_ms(&self, now_ms: u64) -> (elapsed: u64)
        ensures
            elapsed == if now_ms >= self@.start_time {
                now_ms - self@.start_time
            } else {
                0
            },
    {
        now_ms.saturating_sub(self.start_time)
    }

    /// The values of `count` coils from `address` on, `false` where there
    /// is no point. Past the top of the address space the top address
    /// repeats.
    pub fn read_coils(&self, address: u16, count: u16) -> (values: Vec<bool>)
        ensures
            values@ == read_bool_range(self@.coils, address, count as nat),
    {
        read_range_bool(&self.coils, address, count)
    }

    /// The values of `count` discrete inputs from `address` on; see
    /// [`SimState::read_coils`].
    pub fn read_discrete_inputs(&self, address: u16, count: u16) -> (values: Vec<bool>)
        ensures
            values@ == read_bool_range(self@.discrete_inputs, address, count as nat),
    {
        read_range_bool(&self.discrete_inputs, address, count)
    }

    /// The values of `count` holding registers from `address` on, `0` where
    /// there is no point. Past the top of the address space the top address
    /// repeats.
    pub fn read_holding_registers(&self, address: u16, count: u16) -> (values: Vec<u16>)
        ensures
            values@ == read_register_range(self@.holding_registers, address, count as nat),
    {
        read_range_register(&self.holding_registers, address, count)
    }

    /// The values of `count` input registers from `address` on; see
    /// [`SimState::read_holding_registers`].
    pub fn read_input_registers(&self, address: u16, count: u16) -> (values: Vec<u16>)
        ensures
            values@ == read_register_range(self@.input_registers, address, count as nat),
    {
        read_range_register(&self.input_registers, address, count)
    }

    /// Writes one coil at the clock reading `now_ms`.
    pub fn write_single_coil(&mut self, address: u16, value: bool, now_ms: u64)
        ensures
            final(self)@ == (SimStateView {
                coils: written_bool(
                    old(self)@.coils,
                    address,
                    value,
                    old(self)@.global_update_ms,
                    now_ms,
                ),
                ..old(self)@
            }),
    {
        write_bool(&mut self.coils, address, value, self.global_update_ms, now_ms);
    }

    /// Writes the coils `address`, `address + 1`, ... in that order. Values
    /// that would fall past the top of the address space go to the top
    /// address, where the last of them stands.
    pub fn write_multiple_coils(&mut self, address: u16, values: &[bool], now_ms: u64)
        ensures
            final(self)@ == (SimStateView {
                coils: written_bools(
                    old(self)@.coils,
                    address,
                    values@,
                    old(self)@.global_update_ms,
                    now_ms,
                ),
                ..old(self)@
            }),
    {
        let mut offset: usize = 0;
        while offset < values.len()
            invariant
                offset <= values.len(),
                self@ == (SimStateView {
                    coils: written_bools(
                        old(self)@.coils,
                        address,
                        values@.take(offset as int),
                        old(self)@.global_update_ms,
                        now_ms,
                    ),
                    ..old(self)@
                }),
            decreases values.len() - offset,
        {
            let target = address_at(address, offset);
            proof {
                let next = values@.take(offset + 1);
                assert(next.drop_last() =~= values@.take(offset as int));
                assert(next.last() == values@[offset as int]);
            }
            write_bool(&mut self.coils, target, values[offset], self.global_update_ms, now_ms);
            offset += 1;
        }
        assert(values@.take(offset as int) =~= values@);
    }

    /// Writes one holding register at the clock reading `now_ms`.
    pub fn write_single_register(&mut self, address: u16, value: u16, now_ms: u64)
        ensures
            final(self)@ == (SimStateView {
                holding_registers: written_register(
                    old(self)@.holding_registers,
                    address,
                    value,
                    old(self)@.global_update_ms,
                    now_ms,
                ),
                ..old(self)@
            }),
    {
        write_register(&mut self.holding_registers, address, value, self.global_update_ms, now_ms);
    }

    /// Writes the holding registers `address`, `address + 1`, ... in that
    /// order. Values that would fall past the top of the address space go to
    /// the top address, where the last of them stands.
    pub fn write_multiple_registers(&mut self, address: u16, values: &[u16], now_ms: u64)
        ensures
            final(self)@ == (SimStateView {
                holding_registers: written_registers(
                    old(self)@.holding_registers,
                    address,
                    values@,
                    old(self)@.global_update_ms,
                    now_ms,
                ),
                ..old(self)@
            }),
    {
        let mut offset: usize = 0;
        while offset < values.len()
            invariant
                offset <= values.len(),
                self@ == (SimStateView {
                    holding_registers: written_registers(
                        old(self)@.holding_registers,
                        address,
                        values@.take(offset as int),
                        old(self)@.global_update_ms,
                        now_ms,
                    ),
                    ..old(self)@
                }),
            decreases values.len() - offset,
        {
            let target = address_at(address, offset);
            proof {
                let next = values@.take(offset + 1);
                assert(next.drop_last() =~= values@.take(offset as int));
                assert(next.last() == values@[offset as int]);
            }
            write_register(
                &mut self.holding_registers,
                target,
                values[offset],
                self.global_update_ms,
                now_ms,
            );
            offset += 1;
        }
        assert(values@.take(offset as int) =~= values@);
    }
}

} // verus!
