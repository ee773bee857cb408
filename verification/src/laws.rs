//! Laws of the engine, stated over the functions that its contracts use.

use vstd::prelude::*;
use crate::config::{BoolItemConfig, RegisterItemConfig};
use crate::dispatch::{answer_to, state_after, DispatchError, RequestView, ResponseView};
use crate::sim::{
    configured_bool, configured_bools, configured_register, configured_registers, deadline,
    lookup, offset_address, read_bool, read_bool_range, read_register, read_register_range,
    ticked_bool, ticked_bools, ticked_register, ticked_registers, written_bool, written_bools,
    lists_exactly, strictly_increasing, written_register, written_registers, Evaluations,
    SimBoolItem, SimRegisterItem, SimStateView,
};

verus! {

/// An ascending list is fixed by what it holds: two lists that hold exactly
/// the same addresses, each in ascending order, are one list. So a contract
/// that says what a list holds, and that it ascends, says what the list is.
pub proof fn lemma_listing_is_unique(
    first: Seq<u16>,
    second: Seq<u16>,
    wanted: spec_fn(u16) -> bool,
)
    requires
        lists_exactly(first, wanted),
        lists_exactly(second, wanted),
    ensures
        first == second,
    decreases first.len(),
{
    if first.len() == 0 {
        if second.len() > 0 {
            assert(second.contains(second[0]));
            assert(first.contains(second[0]));
        }
        assert(first =~= second);
    } else {
        let top = first.last();
        assert(first.contains(top));
        assert(second.contains(top));
        assert(second.len() > 0);
        let other = second.last();
        assert(second.contains(other));
        assert(first.contains(other));
        let at = choose|k: int| 0 <= k < first.len() && first[k] == other;
        let back = choose|k: int| 0 <= k < second.len() && second[k] == top;
        assert(other <= top);
        assert(top <= other);
        let below = |a: u16| wanted(a) && a < top;
        let shorter = first.drop_last();
        let other_shorter = second.drop_last();
        assert forall|a: u16| shorter.contains(a) <==> #[trigger] below(a) by {
            if shorter.contains(a) {
                let k = choose|k: int| 0 <= k < shorter.len() && shorter[k] == a;
                assert(first[k] == a);
                assert(first.contains(a));
            }
            if below(a) {
                assert(first.contains(a));
                let k = choose|k: int| 0 <= k < first.len() && first[k] == a;
                assert(k < first.len() - 1);
                assert(shorter[k] == a);
            }
        }
        assert forall|a: u16| other_shorter.contains(a) <==> #[trigger] below(a) by {
            if other_shorter.contains(a) {
                let k = choose|k: int| 0 <= k < other_shorter.len() && other_shorter[k] == a;
                assert(second[k] == a);
                assert(second.contains(a));
            }
            if below(a) {
                assert(second.contains(a));
                let k = choose|k: int| 0 <= k < second.len() && second[k] == a;
                assert(k < second.len() - 1);
                assert(other_shorter[k] == a);
            }
        }
        assert(strictly_increasing(shorter));
        assert(strictly_increasing(other_shorter));
        lemma_listing_is_unique(shorter, other_shorter, below);
        assert(first =~= shorter.push(top));
        assert(second =~= other_shorter.push(other));
    }
}

/// A tick at which no bit point is due leaves the address space as it was,
/// whatever evaluations it is handed.
pub proof fn lemma_idle_tick_keeps_bools(
    points: Map<u16, SimBoolItem>,
    now_ms: u64,
    evaluated: Map<u16, bool>,
)
    requires
        forall|a: u16| points.contains_key(a) ==> now_ms < points[a].next_due,
    ensures
        ticked_bools(points, now_ms, evaluated) == points,
{
    assert(ticked_bools(points, now_ms, evaluated) =~= points);
}

/// A tick at which no register point is due leaves the address space as it
/// was, whatever evaluations it is handed.
pub proof fn lemma_idle_tick_keeps_registers(
    points: Map<u16, SimRegisterItem>,
    now_ms: u64,
    evaluated: Map<u16, u16>,
)
    requires
        forall|a: u16| points.contains_key(a) ==> now_ms < points[a].next_due,
    ensures
        ticked_registers(points, now_ms, evaluated) == points,
{
    assert(ticked_registers(points, now_ms, evaluated) =~= points);
}

/// With no write and no due tick in between, the engine is the same, and so
/// is every read of it: a tick at which no point of any class is due
/// changes nothing.
pub proof fn lemma_idle_tick_keeps_state(state: SimStateView, now_ms: u64, evaluated: Evaluations)
    requires
        forall|a: u16| state.coils.contains_key(a) ==> now_ms < state.coils[a].next_due,
        forall|a: u16|
            state.discrete_inputs.contains_key(a) ==> now_ms < state.discrete_inputs[a].next_due,
        forall|a: u16|
            state.holding_registers.contains_key(a) ==> now_ms
                < state.holding_registers[a].next_due,
        forall|a: u16|
            state.input_registers.contains_key(a) ==> now_ms < state.input_registers[a].next_due,
    ensures
        state.ticked(now_ms, evaluated) == state,
{
    lemma_idle_tick_keeps_bools(state.coils, now_ms, evaluated.coils@);
    lemma_idle_tick_keeps_bools(state.discrete_inputs, now_ms, evaluated.discrete_inputs@);
    lemma_idle_tick_keeps_registers(
        state.holding_registers,
        now_ms,
        evaluated.holding_registers@,
    );
    lemma_idle_tick_keeps_registers(state.input_registers, now_ms, evaluated.input_registers@);
}

/// A tick creates and removes no point, and changes what a read yields only
/// at addresses whose point is due.
pub proof fn lemma_tick_keeps_reads_of_points_not_due(
    points: Map<u16, SimBoolItem>,
    registers: Map<u16, SimRegisterItem>,
    now_ms: u64,
    evaluated_bools: Map<u16, bool>,
    evaluated_registers: Map<u16, u16>,
    address: u16,
)
    ensures
        ticked_bools(points, now_ms, evaluated_bools).dom() == points.dom(),
        ticked_registers(registers, now_ms, evaluated_registers).dom() == registers.dom(),
        !(points.contains_key(address) && points[address].next_due <= now_ms) ==> read_bool(
            ticked_bools(points, now_ms, evaluated_bools),
            address,
        ) == read_bool(points, address),
        !(registers.contains_key(address) && registers[address].next_due <= now_ms)
            ==> read_register(ticked_registers(registers, now_ms, evaluated_registers), address)
            == read_register(registers, address),
{
    assert(ticked_bools(points, now_ms, evaluated_bools).dom() =~= points.dom());
    assert(ticked_registers(registers, now_ms, evaluated_registers).dom() =~= registers.dom());
}

/// A read of an address without a point yields the class default: `false`
/// for a bit, `0` for a register.
pub proof fn lemma_read_of_unmapped_address_is_default(
    points: Map<u16, SimBoolItem>,
    registers: Map<u16, SimRegisterItem>,
    address: u16,
    count: nat,
    i: int,
)
    requires
        0 <= i < count,
    ensures
        !points.contains_key(offset_address(address, i)) ==> read_bool_range(
            points,
            address,
            count,
        )[i] == false,
        !registers.contains_key(offset_address(address, i)) ==> read_register_range(
            registers,
            address,
            count,
        )[i] == 0,
{
}

/// A request that is not a write leaves the engine as it was: a read
/// creates no point, and an unsupported request touches nothing.
pub proof fn lemma_only_writes_change_the_engine(
    state: SimStateView,
    request: RequestView,
    now_ms: u64,
)
    requires
        !(request is WriteSingleCoil),
        !(request is WriteSingleRegister),
        !(request is WriteMultipleCoils),
        !(request is WriteMultipleRegisters),
    ensures
        state_after(state, request, now_ms) == state,
{
}

/// Reading is idempotent: a request that is not a write, served twice with
/// nothing in between, is answered the same both times.
pub proof fn lemma_reading_twice_agrees(
    state: SimStateView,
    request: RequestView,
    first_ms: u64,
    second_ms: u64,
)
    requires
        !(request is WriteSingleCoil),
        !(request is WriteSingleRegister),
        !(request is WriteMultipleCoils),
        !(request is WriteMultipleRegisters),
    ensures
        answer_to(state_after(state, request, first_ms), request) == answer_to(state, request),
        state_after(state_after(state, request, first_ms), request, second_ms) == state,
{
}

/// A written value is read back through the dispatcher: after a single
/// write to an address, a read of that address alone answers with the
/// written value.
pub proof fn lemma_dispatched_write_is_read_back(
    state: SimStateView,
    address: u16,
    flag: bool,
    word: u16,
    now_ms: u64,
)
    ensures
        answer_to(
            state_after(state, RequestView::WriteSingleCoil(address, flag), now_ms),
            RequestView::ReadCoils(address, 1),
        ) == Ok::<ResponseView, DispatchError>(ResponseView::ReadCoils(seq![flag])),
        answer_to(
            state_after(state, RequestView::WriteSingleRegister(address, word), now_ms),
            RequestView::ReadHoldingRegisters(address, 1),
        ) == Ok::<ResponseView, DispatchError>(ResponseView::ReadHoldingRegisters(seq![word])),
{
    lemma_write_then_read_bool(state.coils, address, flag, state.global_update_ms, now_ms);
    lemma_write_then_read_register(
        state.holding_registers,
        address,
        word,
        state.global_update_ms,
        now_ms,
    );
}

/// A range written through the dispatcher is read back through it, where
/// the range stays inside the address space.
pub proof fn lemma_dispatched_range_is_read_back(
    state: SimStateView,
    address: u16,
    flags: Seq<bool>,
    words: Seq<u16>,
    now_ms: u64,
)
    requires
        address + flags.len() <= 0x1_0000,
        address + words.len() <= 0x1_0000,
        flags.len() <= 0xffff,
        words.len() <= 0xffff,
    ensures
        answer_to(
            state_after(state, RequestView::WriteMultipleCoils(address, flags), now_ms),
            RequestView::ReadCoils(address, flags.len() as u16),
        ) == Ok::<ResponseView, DispatchError>(ResponseView::ReadCoils(flags)),
        answer_to(
            state_after(state, RequestView::WriteMultipleRegisters(address, words), now_ms),
            RequestView::ReadHoldingRegisters(address, words.len() as u16),
        ) == Ok::<ResponseView, DispatchError>(ResponseView::ReadHoldingRegisters(words)),
{
    lemma_range_write_then_read_bools(
        state.coils,
        address,
        flags,
        state.global_update_ms,
        now_ms,
    );
    lemma_range_write_then_read_registers(
        state.holding_registers,
        address,
        words,
        state.global_update_ms,
        now_ms,
    );
}

/// A write to an address followed by a read of it yields the written value,
/// and the write changes no other address.
pub proof fn lemma_write_then_read_bool(
    points: Map<u16, SimBoolItem>,
    address: u16,
    value: bool,
    global_update_ms: u64,
    now_ms: u64,
)
    ensures
        read_bool(written_bool(points, address, value, global_update_ms, now_ms), address)
            == value,
        read_bool_range(
            written_bool(points, address, value, global_update_ms, now_ms),
            address,
            1,
        ) == seq![value],
        forall|other: u16|
            other != address ==> lookup(
                written_bool(points, address, value, global_update_ms, now_ms),
                other,
            ) == lookup(points, other),
{
    assert(read_bool_range(
        written_bool(points, address, value, global_update_ms, now_ms),
        address,
        1,
    ) =~= seq![value]);
}

/// A write to a register followed by a read of it yields the written value,
/// and the write changes no other address.
pub proof fn lemma_write_then_read_register(
    points: Map<u16, SimRegisterItem>,
    address: u16,
    value: u16,
    global_update_ms: u64,
    now_ms: u64,
)
    ensures
        read_register(
            written_register(points, address, value, global_update_ms, now_ms),
            address,
        ) == value,
        read_register_range(
            written_register(points, address, value, global_update_ms, now_ms),
            address,
            1,
        ) == seq![value],
        forall|other: u16|
            other != address ==> lookup(
                written_register(points, address, value, global_update_ms, now_ms),
                other,
            ) == lookup(points, other),
{
    assert(read_register_range(
        written_register(points, address, value, global_update_ms, now_ms),
        address,
        1,
    ) =~= seq![value]);
}

/// A range write that stays inside the address space is read back value by
/// value, and changes no address outside its range.
pub proof fn lemma_range_write_then_read_bools(
    points: Map<u16, SimBoolItem>,
    address: u16,
    values: Seq<bool>,
    global_update_ms: u64,
    now_ms: u64,
)
    requires
        address + values.len() <= 0x1_0000,
    ensures
        forall|i: int|
            0 <= i < values.len() ==> read_bool(
                written_bools(points, address, values, global_update_ms, now_ms),
                #[trigger] offset_address(address, i),
            ) == values[i],
        read_bool_range(
            written_bools(points, address, values, global_update_ms, now_ms),
            address,
            values.len(),
        ) == values,
        forall|other: u16|
            !(address <= other < address + values.len()) ==> lookup(
                written_bools(points, address, values, global_update_ms, now_ms),
                other,
            ) == lookup(points, other),
    decreases values.len(),
{
    let after = written_bools(points, address, values, global_update_ms, now_ms);
    if values.len() > 0 {
        let front = values.drop_last();
        lemma_range_write_then_read_bools(points, address, front, global_update_ms, now_ms);
        let before = written_bools(points, address, front, global_update_ms, now_ms);
        let top = offset_address(address, values.len() - 1);
        assert(after == written_bool(before, top, values.last(), global_update_ms, now_ms));
        assert forall|i: int| 0 <= i < values.len() implies read_bool(
            after,
            #[trigger] offset_address(address, i),
        ) == values[i] by {
            if i < values.len() - 1 {
                assert(front[i] == values[i]);
                assert(offset_address(address, i) != top);
            }
        }
        assert forall|other: u16| !(address <= other < address + values.len()) implies lookup(
            after,
            other,
        ) == lookup(points, other) by {
            assert(other != top);
            assert(lookup(before, other) == lookup(points, other));
        }
    }
    assert(read_bool_range(after, address, values.len()) =~= values);
}

/// A range write of registers that stays inside the address space is read
/// back value by value, and changes no address outside its range.
pub proof fn lemma_range_write_then_read_registers(
    points: Map<u16, SimRegisterItem>,
    address: u16,
    values: Seq<u16>,
    global_update_ms: u64,
    now_ms: u64,
)
    requires
        address + values.len() <= 0x1_0000,
    ensures
        forall|i: int|
            0 <= i < values.len() ==> read_register(
                written_registers(points, address, values, global_update_ms, now_ms),
                #[trigger] offset_address(address, i),
            ) == values[i],
        read_register_range(
            written_registers(points, address, values, global_update_ms, now_ms),
            address,
            values.len(),
        ) == values,
        forall|other: u16|
            !(address <= other < address + values.len()) ==> lookup(
                written_registers(points, address, values, global_update_ms, now_ms),
                other,
            ) == lookup(points, other),
    decreases values.len(),
{
    let after = written_registers(points, address, values, global_update_ms, now_ms);
    if values.len() > 0 {
        let front = values.drop_last();
        lemma_range_write_then_read_registers(points, address, front, global_update_ms, now_ms);
        let before = written_registers(points, address, front, global_update_ms, now_ms);
        let top = offset_address(address, values.len() - 1);
        assert(after == written_register(before, top, values.last(), global_update_ms, now_ms));
        assert forall|i: int| 0 <= i < values.len() implies read_register(
            after,
            #[trigger] offset_address(address, i),
        ) == values[i] by {
            if i < values.len() - 1 {
                assert(front[i] == values[i]);
                assert(offset_address(address, i) != top);
            }
        }
        assert forall|other: u16| !(address <= other < address + values.len()) implies lookup(
            after,
            other,
        ) == lookup(points, other) by {
            assert(other != top);
            assert(lookup(before, other) == lookup(points, other));
        }
    }
    assert(read_register_range(after, address, values.len()) =~= values);
}

/// A range write that runs past the top of the address space leaves its
/// last value at the top address.
pub proof fn lemma_range_write_past_the_top(
    points: Map<u16, SimRegisterItem>,
    bits: Map<u16, SimBoolItem>,
    address: u16,
    values: Seq<u16>,
    flags: Seq<bool>,
    global_update_ms: u64,
    now_ms: u64,
)
    ensures
        address + values.len() > 0xffff ==> read_register(
            written_registers(points, address, values, global_update_ms, now_ms),
            0xffff,
        ) == values.last(),
        address + flags.len() > 0xffff ==> read_bool(
            written_bools(bits, address, flags, global_update_ms, now_ms),
            0xffff,
        ) == flags.last(),
{
}

/// Writes to distinct addresses do not disturb one another: in either order
/// they leave the same address space, in which each address holds what was
/// written to it.
pub proof fn lemma_writes_to_distinct_addresses_commute(
    points: Map<u16, SimRegisterItem>,
    bits: Map<u16, SimBoolItem>,
    first: u16,
    second: u16,
    value: u16,
    other_value: u16,
    flag: bool,
    other_flag: bool,
    global_update_ms: u64,
    now_ms: u64,
)
    requires
        first != second,
    ensures
        written_register(
            written_register(points, first, value, global_update_ms, now_ms),
            second,
            other_value,
            global_update_ms,
            now_ms,
        ) == written_register(
            written_register(points, second, other_value, global_update_ms, now_ms),
            first,
            value,
            global_update_ms,
            now_ms,
        ),
        read_register(
            written_register(
                written_register(points, first, value, global_update_ms, now_ms),
                second,
                other_value,
                global_update_ms,
                now_ms,
            ),
            first,
        ) == value,
        written_bool(
            written_bool(bits, first, flag, global_update_ms, now_ms),
            second,
            other_flag,
            global_update_ms,
            now_ms,
        ) == written_bool(
            written_bool(bits, second, other_flag, global_update_ms, now_ms),
            first,
            flag,
            global_update_ms,
            now_ms,
        ),
        read_bool(
            written_bool(
                written_bool(bits, first, flag, global_update_ms, now_ms),
                second,
                other_flag,
                global_update_ms,
                now_ms,
            ),
            first,
        ) == flag,
{
    assert(written_register(
        written_register(points, first, value, global_update_ms, now_ms),
        second,
        other_value,
        global_update_ms,
        now_ms,
    ) =~= written_register(
        written_register(points, second, other_value, global_update_ms, now_ms),
        first,
        value,
        global_update_ms,
        now_ms,
    ));
    assert(written_bool(
        written_bool(bits, first, flag, global_update_ms, now_ms),
        second,
        other_flag,
        global_update_ms,
        now_ms,
    ) =~= written_bool(
        written_bool(bits, second, other_flag, global_update_ms, now_ms),
        first,
        flag,
        global_update_ms,
        now_ms,
    ));
}

/// The register address space after a run of single writes, each an address
/// and a value, applied in order.
pub open spec fn written_each(
    points: Map<u16, SimRegisterItem>,
    writes: Seq<(u16, u16)>,
    global_update_ms: u64,
    now_ms: u64,
) -> Map<u16, SimRegisterItem>
    decreases writes.len(),
{
    if writes.len() == 0 {
        points
    } else {
        written_register(
            written_each(points, writes.drop_last(), global_update_ms, now_ms),
            writes.last().0,
            writes.last().1,
            global_update_ms,
            now_ms,
        )
    }
}

/// No update is lost: after any run of single writes to pairwise distinct
/// addresses, in whatever order they were applied, every written address
/// holds the value written to it, and every other address is as before.
pub proof fn lemma_distinct_writes_all_persist(
    points: Map<u16, SimRegisterItem>,
    writes: Seq<(u16, u16)>,
    global_update_ms: u64,
    now_ms: u64,
)
    requires
        forall|i: int, j: int| 0 <= i < j < writes.len() ==> writes[i].0 != writes[j].0,
    ensures
        forall|i: int|
            0 <= i < writes.len() ==> read_register(
                written_each(points, writes, global_update_ms, now_ms),
                (#[trigger] writes[i]).0,
            ) == writes[i].1,
        forall|other: u16|
            (forall|i: int| 0 <= i < writes.len() ==> (#[trigger] writes[i]).0 != other)
                ==> lookup(written_each(points, writes, global_update_ms, now_ms), other)
                == lookup(points, other),
    decreases writes.len(),
{
    if writes.len() > 0 {
        let front = writes.drop_last();
        assert forall|i: int, j: int| 0 <= i < j < front.len() implies front[i].0
            != front[j].0 by {
            assert(front[i] == writes[i] && front[j] == writes[j]);
        }
        lemma_distinct_writes_all_persist(points, front, global_update_ms, now_ms);
        let before = written_each(points, front, global_update_ms, now_ms);
        let after = written_each(points, writes, global_update_ms, now_ms);
        let last = writes.len() - 1;
        assert forall|i: int| 0 <= i < writes.len() implies read_register(
            after,
            (#[trigger] writes[i]).0,
        ) == writes[i].1 by {
            if i < last {
                assert(front[i] == writes[i]);
                assert(writes[i].0 != writes[last].0);
            }
        }
        assert forall|other: u16|
            (forall|i: int|
                0 <= i < writes.len() ==> (#[trigger] writes[i]).0 != other) implies lookup(
            after,
            other,
        ) == lookup(points, other) by {
            assert(writes[last].0 != other);
            assert forall|i: int| 0 <= i < front.len() implies (#[trigger] front[i]).0
                != other by {
                assert(front[i] == writes[i]);
            }
        }
    }
}

/// A point that is evaluated at `first_ms` is next due exactly `update_ms`
/// later. A tick before that leaves it untouched; a tick at or after it
/// evaluates the point once more, measured from that tick.
pub proof fn lemma_register_is_evaluated_once_per_interval(
    item: SimRegisterItem,
    first_ms: u64,
    second_ms: u64,
    first_value: Option<u16>,
    second_value: Option<u16>,
)
    requires
        item.next_due <= first_ms,
        first_ms + item.update_ms <= u64::MAX,
    ensures
        ticked_register(item, first_ms, first_value).next_due == first_ms + item.update_ms,
        ticked_register(item, first_ms, first_value).last_value == item.value,
        second_ms < first_ms + item.update_ms ==> ticked_register(
            ticked_register(item, first_ms, first_value),
            second_ms,
            second_value,
        ) == ticked_register(item, first_ms, first_value),
        second_ms >= first_ms + item.update_ms ==> ticked_register(
            ticked_register(item, first_ms, first_value),
            second_ms,
            second_value,
        ).last_value == ticked_register(item, first_ms, first_value).value && ticked_register(
            ticked_register(item, first_ms, first_value),
            second_ms,
            second_value,
        ).next_due == deadline(second_ms, item.update_ms),
{
}

/// The law of [`lemma_register_is_evaluated_once_per_interval`], for a bit point.
pub proof fn lemma_bool_is_evaluated_once_per_interval(
    item: SimBoolItem,
    first_ms: u64,
    second_ms: u64,
    first_value: Option<bool>,
    second_value: Option<bool>,
)
    requires
        item.next_due <= first_ms,
        first_ms + item.update_ms <= u64::MAX,
    ensures
        ticked_bool(item, first_ms, first_value).next_due == first_ms + item.update_ms,
        ticked_bool(item, first_ms, first_value).last_value == item.value,
        second_ms < first_ms + item.update_ms ==> ticked_bool(
            ticked_bool(item, first_ms, first_value),
            second_ms,
            second_value,
        ) == ticked_bool(item, first_ms, first_value),
        second_ms >= first_ms + item.update_ms ==> ticked_bool(
            ticked_bool(item, first_ms, first_value),
            second_ms,
            second_value,
        ).last_value == ticked_bool(item, first_ms, first_value).value && ticked_bool(
            ticked_bool(item, first_ms, first_value),
            second_ms,
            second_value,
        ).next_due == deadline(second_ms, item.update_ms),
{
}

/// A point for which no evaluation is supplied, or which has no waveform,
/// keeps its value through a tick, due or not.
pub proof fn lemma_unevaluated_point_keeps_its_value(
    bit: SimBoolItem,
    register: SimRegisterItem,
    now_ms: u64,
    evaluated_bit: Option<bool>,
    evaluated_register: Option<u16>,
)
    ensures
        (evaluated_bit is None || !crate::config::is_dynamic(bit.dynamics)) ==> ticked_bool(
            bit,
            now_ms,
            evaluated_bit,
        ).value == bit.value,
        (evaluated_register is None || !crate::config::is_dynamic(register.dynamics))
            ==> ticked_register(register, now_ms, evaluated_register).value == register.value,
{
}

/// The address space that a configuration creates holds, at the address of
/// an entry that no later entry repeats, the point of that entry; and it
/// holds a point only at addresses that some entry names.
pub proof fn lemma_configured_bools_hold_the_last_entry(
    configs: Seq<BoolItemConfig>,
    global_update_ms: u64,
    start: u64,
)
    ensures
        forall|i: int|
            0 <= i < configs.len() && (forall|j: int|
                i < j < configs.len() ==> configs[j].address != configs[i].address)
                ==> lookup(
                configured_bools(configs, global_update_ms, start),
                #[trigger] configs[i].address,
            ) == Some(configured_bool(configs[i], global_update_ms, start)),
        forall|a: u16|
            configured_bools(configs, global_update_ms, start).contains_key(a) ==> exists|i: int|
                0 <= i < configs.len() && #[trigger] configs[i].address == a,
    decreases configs.len(),
{
    if configs.len() > 0 {
        let front = configs.drop_last();
        lemma_configured_bools_hold_the_last_entry(front, global_update_ms, start);
        let whole = configured_bools(configs, global_update_ms, start);
        assert forall|i: int|
            0 <= i < configs.len() && (forall|j: int|
                i < j < configs.len() ==> configs[j].address != configs[i].address) implies lookup(
            whole,
            #[trigger] configs[i].address,
        ) == Some(configured_bool(configs[i], global_update_ms, start)) by {
            if i < configs.len() - 1 {
                assert(front[i] == configs[i]);
                assert(configs[configs.len() - 1].address != configs[i].address);
                assert forall|j: int| i < j < front.len() implies front[j].address
                    != front[i].address by {
                    assert(front[j] == configs[j]);
                }
            }
        }
        assert forall|a: u16| whole.contains_key(a) implies exists|i: int|
            0 <= i < configs.len() && #[trigger] configs[i].address == a by {
            if a == configs.last().address {
                assert(configs[configs.len() - 1].address == a);
            } else {
                let i = choose|i: int| 0 <= i < front.len() && #[trigger] front[i].address == a;
                assert(configs[i].address == a);
            }
        }
    }
}

/// The law of [`lemma_configured_bools_hold_the_last_entry`], for registers.
pub proof fn lemma_configured_registers_hold_the_last_entry(
    configs: Seq<RegisterItemConfig>,
    global_update_ms: u64,
    start: u64,
)
    ensures
        forall|i: int|
            0 <= i < configs.len() && (forall|j: int|
                i < j < configs.len() ==> configs[j].address != configs[i].address)
                ==> lookup(
                configured_registers(configs, global_update_ms, start),
                #[trigger] configs[i].address,
            ) == Some(configured_register(configs[i], global_update_ms, start)),
        forall|a: u16|
            configured_registers(configs, global_update_ms, start).contains_key(a) ==> exists|
                i: int,
            | 0 <= i < configs.len() && #[trigger] configs[i].address == a,
    decreases configs.len(),
{
    if configs.len() > 0 {
        let front = configs.drop_last();
        lemma_configured_registers_hold_the_last_entry(front, global_update_ms, start);
        let whole = configured_registers(configs, global_update_ms, start);
        assert forall|i: int|
            0 <= i < configs.len() && (forall|j: int|
                i < j < configs.len() ==> configs[j].address != configs[i].address) implies lookup(
            whole,
            #[trigger] configs[i].address,
        ) == Some(configured_register(configs[i], global_update_ms, start)) by {
            if i < configs.len() - 1 {
                assert(front[i] == configs[i]);
                assert(configs[configs.len() - 1].address != configs[i].address);
                assert forall|j: int| i < j < front.len() implies front[j].address
                    != front[i].address by {
                    assert(front[j] == configs[j]);
                }
            }
        }
        assert forall|a: u16| whole.contains_key(a) implies exists|i: int|
            0 <= i < configs.len() && #[trigger] configs[i].address == a by {
            if a == configs.last().address {
                assert(configs[configs.len() - 1].address == a);
            } else {
                let i = choose|i: int| 0 <= i < front.len() && #[trigger] front[i].address == a;
                assert(configs[i].address == a);
            }
        }
    }
}

} // verus!
