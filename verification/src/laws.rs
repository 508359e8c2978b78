use vstd::prelude::*;

use vstd::seq_lib::{to_multiset_remove, to_multiset_update};

use crate::layout::{item_at, items_of, list_fits, slot_offset, store_item, HEADER_LEN};

verus! {

/// Round trip of a slot write: storing `item` in the slot at `index` and
/// reading that slot back yields `item`, byte for byte. Through the
/// contracts of the list operations this is exactly why `set(i, x)` then
/// `get(i)` returns `x` for any live `i`, and why `push(x)` — a store
/// into the slot at the old `count` — followed by `get(count - 1)`
/// returns `x`.
pub proof fn lemma_store_round_trip(data: Seq<u8>, item_size: nat, index: nat, item: Seq<u8>)
    requires
        item.len() == item_size,
        slot_offset(item_size, index) + item_size <= data.len(),
    ensures
        item_at(store_item(data, item_size, index, item), item_size, index) == item,
{
    assert(item_at(store_item(data, item_size, index, item), item_size, index) =~= item);
}

/// Frame of a slot write: storing into the slot at `index` leaves the
/// bytes of every other slot unchanged.
pub proof fn lemma_store_frame(
    data: Seq<u8>,
    item_size: nat,
    index: nat,
    item: Seq<u8>,
    other: nat,
)
    requires
        item_size >= 1,
        item.len() == item_size,
        slot_offset(item_size, index) + item_size <= data.len(),
        slot_offset(item_size, other) + item_size <= data.len(),
        other != index,
    ensures
        item_at(store_item(data, item_size, index, item), item_size, other) == item_at(
            data,
            item_size,
            other,
        ),
{
    if other < index {
        assert((other + 1) * item_size <= index * item_size) by (nonlinear_arith)
            requires
                other + 1 <= index,
        ;
        assert((other + 1) * item_size == other * item_size + item_size) by (nonlinear_arith);
    } else {
        assert((index + 1) * item_size <= other * item_size) by (nonlinear_arith)
            requires
                index + 1 <= other,
        ;
        assert((index + 1) * item_size == index * item_size + item_size) by (nonlinear_arith);
    }
    assert(item_at(store_item(data, item_size, index, item), item_size, other) =~= item_at(
        data,
        item_size,
        other,
    ));
}

/// A slot write never touches the header: the discriminator stamped by
/// `new` survives every `set`, `push` and `remove`.
pub proof fn lemma_store_preserves_header(
    data: Seq<u8>,
    item_size: nat,
    index: nat,
    item: Seq<u8>,
)
    requires
        item.len() == item_size,
        slot_offset(item_size, index) + item_size <= data.len(),
    ensures
        forall|k: int|
            0 <= k < HEADER_LEN ==> #[trigger] store_item(data, item_size, index, item)[k]
                == data[k],
{
}

/// Swap-remove over the record model: removing the record at `index`
/// from a buffer holding `count` records leaves a collection of records
/// equal, as a multiset, to the original collection minus one occurrence
/// of the removed record. Order is not preserved; nothing else is lost
/// or invented. The post-state named here is the one `remove` ensures:
/// the buffer unchanged when the last record was removed, and otherwise
/// the former last record's bytes stored into the hole.
pub proof fn lemma_swap_remove_items(data: Seq<u8>, item_size: nat, count: nat, index: nat)
    requires
        item_size >= 1,
        index < count,
        list_fits(item_size, count, data.len()),
    ensures
        ({
            let after = if index + 1 == count {
                data
            } else {
                store_item(data, item_size, index, item_at(data, item_size, (count - 1) as nat))
            };
            items_of(after, item_size, (count - 1) as nat).to_multiset() == items_of(
                data,
                item_size,
                count,
            ).to_multiset().remove(item_at(data, item_size, index))
        }),
{
    let s = items_of(data, item_size, count);
    let removed = item_at(data, item_size, index);
    let last = item_at(data, item_size, (count - 1) as nat);
    crate::layout::lemma_slot_in_bounds(item_size, count, index, data.len());
    crate::layout::lemma_slot_in_bounds(item_size, count, (count - 1) as nat, data.len());
    if index + 1 == count {
        assert(items_of(data, item_size, (count - 1) as nat) =~= s.remove(count - 1));
        to_multiset_remove(s, count - 1);
    } else {
        let after = store_item(data, item_size, index, last);
        let t = items_of(after, item_size, (count - 1) as nat);
        let u = s.update(index as int, last);
        assert forall|i: int| 0 <= i < count - 1 implies t[i] == u.remove(count - 1)[i] by {
            crate::layout::lemma_slot_in_bounds(item_size, count, i as nat, data.len());
            if i == index {
                lemma_store_round_trip(data, item_size, index, last);
            } else {
                lemma_store_frame(data, item_size, index, last, i as nat);
            }
        }
        assert(t =~= u.remove(count - 1));
        to_multiset_update(s, index as int, last);
        to_multiset_remove(u, count - 1);
        assert(u[count - 1] == last);
        broadcast use vstd::multiset::group_multiset_axioms;

        assert(s.to_multiset().insert(last).remove(removed).remove(last) =~= s.to_multiset().remove(
            removed,
        ));
    }
}

} // verus!
