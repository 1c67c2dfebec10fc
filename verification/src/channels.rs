//! Maps by channel.

use std::collections::BTreeMap;
use vstd::prelude::*;
use vstd::std_specs::btree::*;

verus! {

/// What stands under a channel.
pub(crate) fn at<V>(map: &BTreeMap<u32, V>, channel: u32) -> (r: Option<&V>)
    ensures
        match r {
            Some(value) => map@.contains_key(channel) && map@[channel] == *value,
            None => !map@.contains_key(channel),
        },
{
    broadcast use group_btree_axioms;

    map.get(&channel)
}

/// Puts something under a channel.
pub(crate) fn put<V>(map: &mut BTreeMap<u32, V>, channel: u32, value: V)
    ensures
        final(map)@ == old(map)@.insert(channel, value),
{
    broadcast use group_btree_axioms;

    map.insert(channel, value);
}

/// Removes what stands under a channel.
pub(crate) fn drop_at<V>(map: &mut BTreeMap<u32, V>, channel: u32)
    ensures
        final(map)@ == old(map)@.remove(channel),
{
    broadcast use group_btree_axioms;

    map.remove(&channel);
}

/// Whether a list is the channels of a map, lowest first.
pub open spec fn lists_channels(list: Seq<u32>, channels: Set<u32>) -> bool {
    &&& forall|i: int, j: int| 0 <= i < j < list.len() ==> list[i] < list[j]
    &&& forall|channel: u32| #[trigger] list.contains(channel) <==> channels.contains(channel)
}

/// The channels of a map, lowest first.
pub(crate) fn ids<V>(map: &BTreeMap<u32, V>) -> (r: Vec<u32>)
    ensures
        lists_channels(r@, map@.dom()),
{
    broadcast use group_btree_axioms;

    let mut out: Vec<u32> = Vec::new();
    for channel in it: map.keys()
        invariant
            forall|a: int, b: int| 0 <= a < b < out@.len() ==> out@[a] < out@[b],
            forall|other: u32| #[trigger]
                out@.contains(other) <==> it.seq().unref().take(it.index()).contains(other),
            it.seq().unref().to_set() == map@.dom(),
    {
        let ghost n = it.index();
        let ghost before = out@;
        let ghost all = it.seq().unref();
        insert_sorted(&mut out, *channel);
        proof {
            assert(all[n] == *channel);
            assert(all.take(n + 1) =~= all.take(n).push(*channel));
            assert forall|other: u32| #[trigger] out@.contains(other) <==> all.take(n + 1).contains(
                other,
            ) by {
                let taken = all.take(n);
                let more = all.take(n + 1);
                assert(more[n] == *channel);
                if more.contains(other) && other != *channel {
                    let k = choose|k: int| 0 <= k < more.len() && more[k] == other;
                    assert(taken[k] == other);
                    assert(before.contains(other));
                }
                if out@.contains(other) && other != *channel {
                    assert(before.contains(other));
                    let k = choose|k: int| 0 <= k < taken.len() && taken[k] == other;
                    assert(more[k] == other);
                }
            }
        }
    }
    proof {
        let all = vstd::std_specs::iter::IteratorSpec::remaining(&map.keys()).unref();
        assert(all.take(all.len() as int) =~= all);
        assert forall|channel: u32| #[trigger] out@.contains(channel) <==> map@.dom().contains(
            channel,
        ) by {
            assert(all.to_set().contains(channel) <==> all.contains(channel));
        }
    }
    out
}

/// Puts a number where it belongs in a rising list, unless it is there.
pub(crate) fn insert_sorted(sorted: &mut Vec<u32>, value: u32)
    requires
        forall|a: int, b: int| 0 <= a < b < old(sorted)@.len() ==> old(sorted)@[a] < old(sorted)@[b],
    ensures
        forall|a: int, b: int|
            0 <= a < b < final(sorted)@.len() ==> final(sorted)@[a] < final(sorted)@[b],
        forall|other: u32| #[trigger]
            final(sorted)@.contains(other) <==> (other == value || old(sorted)@.contains(other)),
{
    let ghost before = sorted@;
    let mut i: usize = 0;
    while i < sorted.len() && sorted[i] < value
        invariant
            i <= sorted.len(),
            sorted@ == before,
            before == old(sorted)@,
            forall|a: int| 0 <= a < i ==> before[a] < value,
        decreases sorted.len() - i,
    {
        i += 1;
    }
    if i < sorted.len() && sorted[i] == value {
        assert(before[i as int] == value);
        return ;
    }
    sorted.insert(i, value);
    proof {
        let after = sorted@;
        assert forall|other: u32| #[trigger] after.contains(other) <==> (other == value
            || before.contains(other)) by {
            assert(after[i as int] == value);
            if after.contains(other) && other != value {
                let k = choose|k: int| 0 <= k < after.len() && after[k] == other;
                if k < i {
                    assert(before[k] == other);
                } else {
                    assert(before[k - 1] == other);
                }
            }
            if before.contains(other) {
                let k = choose|k: int| 0 <= k < before.len() && before[k] == other;
                if k < i {
                    assert(after[k] == other);
                } else {
                    assert(after[k + 1] == other);
                }
            }
        }
    }
}

} // verus!
