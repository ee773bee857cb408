//! Work on one address space: the reads, writes, ticks and listings that
//! the engine performs on each of its four maps.

use std::collections::BTreeMap;
use vstd::prelude::*;
use vstd::std_specs::btree::*;
use vstd::laws_cmp::group_laws_cmp;
use crate::config::{needs_evaluation, BoolItemConfig, RegisterItemConfig};
use crate::keys::sorted_keys;
use crate::sim::{
    bool_changes, bool_pending, configured_bools, configured_registers, floored, lookup,
    offset_address, read_bool, read_bool_range, read_register, read_register_range,
    register_changes, register_pending, strictly_increasing, ticked_bool, ticked_bools,
    ticked_register, ticked_registers, written_bool, written_register, SimBoolItem,
    SimRegisterItem,
};

verus! {

broadcast use {group_btree_axioms, group_laws_cmp};

/// A place at which a listed address stands.
proof fn position(addresses: Seq<u16>, address: u16) -> (j: int)
    requires
        addresses.contains(address),
    ensures
        0 <= j < addresses.len(),
        addresses[j] == address,
{
    choose|j: int| 0 <= j < addresses.len() && addresses[j] == address
}

/// Whether `listed` holds, in ascending order, exactly the wanted addresses
/// that stand before place `i` of the ascending `keys`.
spec fn lists_before(keys: Seq<u16>, i: int, listed: Seq<u16>, wanted: spec_fn(u16) -> bool) -> bool {
    &&& strictly_increasing(listed)
    &&& forall|a: u16|
        #![trigger listed.contains(a)]
        #![trigger wanted(a)]
        listed.contains(a) <==> wanted(a) && (i < keys.len() ==> a < keys[i])
}

/// Nothing is listed before the first place.
proof fn lemma_listing_starts(keys: Seq<u16>, wanted: spec_fn(u16) -> bool)
    requires
        strictly_increasing(keys),
        forall|a: u16| #[trigger] wanted(a) ==> keys.contains(a),
    ensures
        lists_before(keys, 0, Seq::empty(), wanted),
{
    assert forall|a: u16| #[trigger] wanted(a) implies 0 < keys.len() && keys[0] <= a by {
        let j = position(keys, a);
    }
}

/// Taking the address at place `i` if it is wanted, and leaving it if not,
/// extends the listing to place `i + 1`.
proof fn lemma_listing_grows(
    keys: Seq<u16>,
    i: int,
    listed: Seq<u16>,
    grown: Seq<u16>,
    wanted: spec_fn(u16) -> bool,
)
    requires
        strictly_increasing(keys),
        forall|a: u16| #[trigger] wanted(a) ==> keys.contains(a),
        0 <= i < keys.len(),
        lists_before(keys, i, listed, wanted),
        grown == if wanted(keys[i]) {
            listed.push(keys[i])
        } else {
            listed
        },
    ensures
        lists_before(keys, i + 1, grown, wanted),
{
    let a = keys[i];
    assert forall|x: u16|
        #![trigger grown.contains(x)]
        #![trigger wanted(x)]
        grown.contains(x) <==> wanted(x) && (i + 1 < keys.len() ==> x < keys[i + 1]) by {
        if wanted(a) {
            vstd::seq_lib::lemma_seq_contains_after_push(listed, a, x);
        }
        if wanted(x) && x != a {
            let j = position(keys, x);
            assert(j < i ==> x < a);
            assert(j > i ==> (i + 1 < keys.len() && keys[i + 1] <= x));
        }
    }
    if wanted(a) {
        assert forall|p: int, q: int| 0 <= p < q < grown.len() implies grown[p] < grown[q] by {
            if q == listed.len() {
                assert(listed.contains(listed[p]));
            }
        }
    }
}

/// Reads `count` bit addresses from `address` on.
pub(crate) fn read_range_bool(map: &BTreeMap<u16, SimBoolItem>, address: u16, count: u16) -> (values: Vec<bool>)
    ensures
        values@ == read_bool_range(map@, address, count as nat),
{
    let mut values: Vec<bool> = Vec::new();
    let mut offset: u16 = 0;
    while offset < count
        invariant
            offset <= count,
            values@.len() == offset,
            forall|i: int|
                0 <= i < offset ==> values@[i] == read_bool(map@, offset_address(address, i)),
        decreases count - offset,
    {
        let target = address.saturating_add(offset);
        let value = match map.get(&target) {
            Some(item) => item.value,
            None => false,
        };
        values.push(value);
        offset += 1;
    }
    assert(values@ =~= read_bool_range(map@, address, count as nat));
    values
}

/// Reads `count` register addresses from `address` on.
pub(crate) fn read_range_register(map: &BTreeMap<u16, SimRegisterItem>, address: u16, count: u16) -> (values:
    Vec<u16>)
    ensures
        values@ == read_register_range(map@, address, count as nat),
{
    let mut values: Vec<u16> = Vec::new();
    let mut offset: u16 = 0;
    while offset < count
        invariant
            offset <= count,
            values@.len() == offset,
            forall|i: int|
                0 <= i < offset ==> values@[i] == read_register(map@, offset_address(address, i)),
        decreases count - offset,
    {
        let target = address.saturating_add(offset);
        let value = match map.get(&target) {
            Some(item) => item.value,
            None => 0,
        };
        values.push(value);
        offset += 1;
    }
    assert(values@ =~= read_register_range(map@, address, count as nat));
    values
}

/// Writes one bit address: an existing point changes its value only, a
/// missing one is created.
pub(crate) fn write_bool(
    map: &mut BTreeMap<u16, SimBoolItem>,
    address: u16,
    value: bool,
    global_update_ms: u64,
    now_ms: u64,
)
    ensures
        final(map)@ == written_bool(old(map)@, address, value, global_update_ms, now_ms),
{
    match map.remove(&address) {
        Some(mut item) => {
            item.value = value;
            map.insert(address, item);
        },
        None => {
            map.insert(
                address,
                SimBoolItem {
                    value,
                    last_value: value,
                    dynamics: None,
                    update_ms: global_update_ms,
                    next_due: now_ms.saturating_add(global_update_ms),
                },
            );
        },
    }
    assert(map@ =~= written_bool(old(map)@, address, value, global_update_ms, now_ms));
}

/// Writes one register address: an existing point changes its value only,
/// a missing one is created.
pub(crate) fn write_register(
    map: &mut BTreeMap<u16, SimRegisterItem>,
    address: u16,
    value: u16,
    global_update_ms: u64,
    now_ms: u64,
)
    ensures
        final(map)@ == written_register(old(map)@, address, value, global_update_ms, now_ms),
{
    match map.remove(&address) {
        Some(mut item) => {
            item.value = value;
            map.insert(address, item);
        },
        None => {
            map.insert(
                address,
                SimRegisterItem {
                    value,
                    last_value: value,
                    dynamics: None,
                    update_ms: global_update_ms,
                    next_due: now_ms.saturating_add(global_update_ms),
                },
            );
        },
    }
    assert(map@ =~= written_register(old(map)@, address, value, global_update_ms, now_ms));
}

/// Creates the bit points of a configuration, in its order.
pub(crate) fn build_bools(configs: Vec<BoolItemConfig>, global_update_ms: u64, start: u64) -> (map: BTreeMap<
    u16,
    SimBoolItem,
>)
    ensures
        map@ == configured_bools(configs@, global_update_ms, start),
{
    let mut map: BTreeMap<u16, SimBoolItem> = BTreeMap::new();
    let ghost all = configs@;
    for config in it: configs
        invariant
            it.seq() == all,
            map@ == configured_bools(all.take(it.index()), global_update_ms, start),
    {
        proof {
            let next = all.take(it.index() + 1);
            assert(next.drop_last() =~= all.take(it.index()));
            assert(next.last() == config);
        }
        let update_ms = match config.update_ms {
            Some(ms) => ms,
            None => global_update_ms,
        };
        map.insert(
            config.address,
            SimBoolItem {
                value: config.initial,
                last_value: config.initial,
                dynamics: config.dynamics,
                update_ms,
                next_due: start.saturating_add(update_ms),
            },
        );
    }
    assert(all.take(all.len() as int) =~= all);
    map
}

/// Creates the register points of a configuration, in its order.
pub(crate) fn build_registers(configs: Vec<RegisterItemConfig>, global_update_ms: u64, start: u64) -> (map: BTreeMap<
    u16,
    SimRegisterItem,
>)
    ensures
        map@ == configured_registers(configs@, global_update_ms, start),
{
    let mut map: BTreeMap<u16, SimRegisterItem> = BTreeMap::new();
    let ghost all = configs@;
    for config in it: configs
        invariant
            it.seq() == all,
            map@ == configured_registers(all.take(it.index()), global_update_ms, start),
    {
        proof {
            let next = all.take(it.index() + 1);
            assert(next.drop_last() =~= all.take(it.index()));
            assert(next.last() == config);
        }
        let update_ms = match config.update_ms {
            Some(ms) => ms,
            None => global_update_ms,
        };
        map.insert(
            config.address,
            SimRegisterItem {
                value: config.initial,
                last_value: config.initial,
                dynamics: config.dynamics,
                update_ms,
                next_due: start.saturating_add(update_ms),
            },
        );
    }
    assert(all.take(all.len() as int) =~= all);
    map
}

/// Ticks every bit point once, in ascending order of address, and lists
/// the addresses whose value changed if `report` is set.
pub(crate) fn tick_bools(
    map: &mut BTreeMap<u16, SimBoolItem>,
    now_ms: u64,
    evaluated: &BTreeMap<u16, bool>,
    report: bool,
) -> (changed: Vec<u16>)
    ensures
        final(map)@ == ticked_bools(old(map)@, now_ms, evaluated@),
        strictly_increasing(changed@),
        forall|a: u16|
            changed@.contains(a) <==> report && bool_changes(old(map)@, now_ms, evaluated@, a),
{
    let keys = sorted_keys(map);
    let mut changed: Vec<u16> = Vec::new();
    let mut i: usize = 0;
    let ghost wanted = |a: u16| report && bool_changes(old(map)@, now_ms, evaluated@, a);
    proof {
        lemma_listing_starts(keys@, wanted);
    }
    while i < keys.len()
        invariant
            i <= keys.len(),
            strictly_increasing(keys@),
            forall|a: u16| keys@.contains(a) <==> old(map)@.contains_key(a),
            wanted == |a: u16| report && bool_changes(old(map)@, now_ms, evaluated@, a),
            map@.dom() == old(map)@.dom(),
            forall|j: int|
                0 <= j < i ==> map@[keys@[j]] == ticked_bool(
                    old(map)@[keys@[j]],
                    now_ms,
                    lookup(evaluated@, keys@[j]),
                ),
            forall|j: int| i <= j < keys.len() ==> map@[keys@[j]] == old(map)@[keys@[j]],
            lists_before(keys@, i as int, changed@, wanted),
        decreases keys.len() - i,
    {
        let a = keys[i];
        let ghost before = map@;
        let ghost listed = changed@;
        assert(keys@.contains(a));
        let due = match map.get(&a) {
            Some(item) => item.next_due <= now_ms,
            None => false,
        };
        let mut differs = false;
        if due {
            match map.remove(&a) {
                Some(mut item) => {
                    let fresh = if needs_evaluation(&item.dynamics) {
                        match evaluated.get(&a) {
                            Some(value) => *value,
                            None => item.value,
                        }
                    } else {
                        item.value
                    };
                    differs = fresh != item.value;
                    item.last_value = item.value;
                    item.value = fresh;
                    item.next_due = now_ms.saturating_add(item.update_ms);
                    map.insert(a, item);
                },
                None => {},
            }
        }
        if report && differs {
            changed.push(a);
        }
        proof {
            assert(map@.dom() =~= before.dom());
            assert(map@[a] == ticked_bool(old(map)@[a], now_ms, lookup(evaluated@, a)));
            assert forall|j: int| 0 <= j < keys.len() && j != i implies map@[keys@[j]]
                == before[keys@[j]] by {
                assert(keys@[j] != a);
            }
            lemma_listing_grows(keys@, i as int, listed, changed@, wanted);
        }
        i += 1;
    }
    assert(map@ =~= ticked_bools(old(map)@, now_ms, evaluated@)) by {
        assert forall|x: u16| old(map)@.contains_key(x) implies map@[x] == ticked_bool(
            old(map)@[x],
            now_ms,
            lookup(evaluated@, x),
        ) by {
            let j = position(keys@, x);
            assert(map@[keys@[j]] == ticked_bool(
                old(map)@[keys@[j]],
                now_ms,
                lookup(evaluated@, keys@[j]),
            ));
        }
    }
    changed
}

/// Ticks every register point once, in ascending order of address, and
/// lists the addresses whose value changed if `report` is set.
pub(crate) fn tick_registers(
    map: &mut BTreeMap<u16, SimRegisterItem>,
    now_ms: u64,
    evaluated: &BTreeMap<u16, u16>,
    report: bool,
) -> (changed: Vec<u16>)
    ensures
        final(map)@ == ticked_registers(old(map)@, now_ms, evaluated@),
        strictly_increasing(changed@),
        forall|a: u16|
            changed@.contains(a) <==> report && register_changes(old(map)@, now_ms, evaluated@, a),
{
    let keys = sorted_keys(map);
    let mut changed: Vec<u16> = Vec::new();
    let mut i: usize = 0;
    let ghost wanted = |a: u16| report && register_changes(old(map)@, now_ms, evaluated@, a);
    proof {
        lemma_listing_starts(keys@, wanted);
    }
    while i < keys.len()
        invariant
            i <= keys.len(),
            strictly_increasing(keys@),
            forall|a: u16| keys@.contains(a) <==> old(map)@.contains_key(a),
            wanted == |a: u16| report && register_changes(old(map)@, now_ms, evaluated@, a),
            map@.dom() == old(map)@.dom(),
            forall|j: int|
                0 <= j < i ==> map@[keys@[j]] == ticked_register(
                    old(map)@[keys@[j]],
                    now_ms,
                    lookup(evaluated@, keys@[j]),
                ),
            forall|j: int| i <= j < keys.len() ==> map@[keys@[j]] == old(map)@[keys@[j]],
            lists_before(keys@, i as int, changed@, wanted),
        decreases keys.len() - i,
    {
        let a = keys[i];
        let ghost before = map@;
        let ghost listed = changed@;
        assert(keys@.contains(a));
        let due = match map.get(&a) {
            Some(item) => item.next_due <= now_ms,
            None => false,
        };
        let mut differs = false;
        if due {
            match map.remove(&a) {
                Some(mut item) => {
                    let fresh = if needs_evaluation(&item.dynamics) {
                        match evaluated.get(&a) {
                            Some(value) => *value,
                            None => item.value,
                        }
                    } else {
                        item.value
                    };
                    differs = fresh != item.value;
                    item.last_value = item.value;
                    item.value = fresh;
                    item.next_due = now_ms.saturating_add(item.update_ms);
                    map.insert(a, item);
                },
                None => {},
            }
        }
        if report && differs {
            changed.push(a);
        }
        proof {
            assert(map@.dom() =~= before.dom());
            assert(map@[a] == ticked_register(old(map)@[a], now_ms, lookup(evaluated@, a)));
            assert forall|j: int| 0 <= j < keys.len() && j != i implies map@[keys@[j]]
                == before[keys@[j]] by {
                assert(keys@[j] != a);
            }
            lemma_listing_grows(keys@, i as int, listed, changed@, wanted);
        }
        i += 1;
    }
    assert(map@ =~= ticked_registers(old(map)@, now_ms, evaluated@)) by {
        assert forall|x: u16| old(map)@.contains_key(x) implies map@[x] == ticked_register(
            old(map)@[x],
            now_ms,
            lookup(evaluated@, x),
        ) by {
            let j = position(keys@, x);
            assert(map@[keys@[j]] == ticked_register(
                old(map)@[keys@[j]],
                now_ms,
                lookup(evaluated@, keys@[j]),
            ));
        }
    }
    changed
}

/// Lists the bit points that are due and have a waveform.
pub(crate) fn pending_bools(map: &BTreeMap<u16, SimBoolItem>, now_ms: u64) -> (due: Vec<u16>)
    ensures
        strictly_increasing(due@),
        forall|a: u16| due@.contains(a) <==> bool_pending(map@, now_ms, a),
{
    let keys = sorted_keys(map);
    let mut due: Vec<u16> = Vec::new();
    let mut i: usize = 0;
    let ghost wanted = |a: u16| bool_pending(map@, now_ms, a);
    proof {
        lemma_listing_starts(keys@, wanted);
    }
    while i < keys.len()
        invariant
            i <= keys.len(),
            strictly_increasing(keys@),
            forall|a: u16| keys@.contains(a) <==> map@.contains_key(a),
            wanted == |a: u16| bool_pending(map@, now_ms, a),
            lists_before(keys@, i as int, due@, wanted),
        decreases keys.len() - i,
    {
        let a = keys[i];
        let ghost listed = due@;
        assert(keys@.contains(a));
        let pending = match map.get(&a) {
            Some(item) => item.next_due <= now_ms && needs_evaluation(&item.dynamics),
            None => false,
        };
        if pending {
            due.push(a);
        }
        proof {
            lemma_listing_grows(keys@, i as int, listed, due@, wanted);
        }
        i += 1;
    }
    due
}

/// Lists the register points that are due and have a waveform.
pub(crate) fn pending_registers(map: &BTreeMap<u16, SimRegisterItem>, now_ms: u64) -> (due: Vec<u16>)
    ensures
        strictly_increasing(due@),
        forall|a: u16| due@.contains(a) <==> register_pending(map@, now_ms, a),
{
    let keys = sorted_keys(map);
    let mut due: Vec<u16> = Vec::new();
    let mut i: usize = 0;
    let ghost wanted = |a: u16| register_pending(map@, now_ms, a);
    proof {
        lemma_listing_starts(keys@, wanted);
    }
    while i < keys.len()
        invariant
            i <= keys.len(),
            strictly_increasing(keys@),
            forall|a: u16| keys@.contains(a) <==> map@.contains_key(a),
            wanted == |a: u16| register_pending(map@, now_ms, a),
            lists_before(keys@, i as int, due@, wanted),
        decreases keys.len() - i,
    {
        let a = keys[i];
        let ghost listed = due@;
        assert(keys@.contains(a));
        let pending = match map.get(&a) {
            Some(item) => item.next_due <= now_ms && needs_evaluation(&item.dynamics),
            None => false,
        };
        if pending {
            due.push(a);
        }
        proof {
            lemma_listing_grows(keys@, i as int, listed, due@, wanted);
        }
        i += 1;
    }
    due
}

/// The least of `start` and the floored intervals of the bit points.
pub(crate) fn min_interval_bools(map: &BTreeMap<u16, SimBoolItem>, start: u64) -> (least: u64)
    ensures
        least <= start,
        forall|a: u16| map@.contains_key(a) ==> least <= floored(map@[a].update_ms),
        least == start || exists|a: u16|
            map@.contains_key(a) && least == floored(#[trigger] map@[a].update_ms),
{
    let keys = sorted_keys(map);
    let mut least = start;
    let mut i: usize = 0;
    while i < keys.len()
        invariant
            i <= keys.len(),
            forall|a: u16| keys@.contains(a) <==> map@.contains_key(a),
            least <= start,
            forall|j: int| 0 <= j < i ==> least <= floored(map@[keys@[j]].update_ms),
            least == start || exists|a: u16|
                map@.contains_key(a) && least == floored(#[trigger] map@[a].update_ms),
        decreases keys.len() - i,
    {
        let a = keys[i];
        assert(keys@.contains(a));
        match map.get(&a) {
            Some(item) => {
                let interval = if item.update_ms < 10 {
                    10
                } else {
                    item.update_ms
                };
                if interval < least {
                    least = interval;
                }
            },
            None => {},
        }
        i += 1;
    }
    proof {
        assert forall|a: u16| map@.contains_key(a) implies least <= floored(map@[a].update_ms) by {
            let j = position(keys@, a);
        }
    }
    least
}

/// The least of `start` and the floored intervals of the register points.
pub(crate) fn min_interval_registers(map: &BTreeMap<u16, SimRegisterItem>, start: u64) -> (least: u64)
    ensures
        least <= start,
        forall|a: u16| map@.contains_key(a) ==> least <= floored(map@[a].update_ms),
        least == start || exists|a: u16|
            map@.contains_key(a) && least == floored(#[trigger] map@[a].update_ms),
{
    let keys = sorted_keys(map);
    let mut least = start;
    let mut i: usize = 0;
    while i < keys.len()
        invariant
            i <= keys.len(),
            forall|a: u16| keys@.contains(a) <==> map@.contains_key(a),
            least <= start,
            forall|j: int| 0 <= j < i ==> least <= floored(map@[keys@[j]].update_ms),
            least == start || exists|a: u16|
                map@.contains_key(a) && least == floored(#[trigger] map@[a].update_ms),
        decreases keys.len() - i,
    {
        let a = keys[i];
        assert(keys@.contains(a));
        match map.get(&a) {
            Some(item) => {
                let interval = if item.update_ms < 10 {
                    10
                } else {
                    item.update_ms
                };
                if interval < least {
                    least = interval;
                }
            },
            None => {},
        }
        i += 1;
    }
    proof {
        assert forall|a: u16| map@.contains_key(a) implies least <= floored(map@[a].update_ms) by {
            let j = position(keys@, a);
        }
    }
    least
}

} // verus!
