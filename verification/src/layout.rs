use vstd::prelude::*;

verus! {

/// Number of bytes reserved at offset 0 of every buffer for the
/// 8-byte discriminator tag.
pub const HEADER_LEN: usize = 8;

/// First byte of the record slot at `index`.
pub open spec fn slot_offset(item_size: nat, index: nat) -> nat {
    (HEADER_LEN as nat) + index * item_size
}

/// Total physical bytes a list of `count` records of `item_size` bytes
/// each requires: the header plus the packed record region.
pub open spec fn required_bytes(item_size: nat, count: nat) -> nat {
    (HEADER_LEN as nat) + count * item_size
}

/// Whether a buffer of `buffer_len` bytes can hold `count` records.
pub open spec fn list_fits(item_size: nat, count: nat, buffer_len: nat) -> bool {
    required_bytes(item_size, count) <= buffer_len
}

/// Maximum record count a buffer of `buffer_len` bytes can hold.
/// By convention a degenerate `item_size` of zero reports the maximum
/// representable count instead of a division by zero.
pub open spec fn list_capacity(item_size: nat, buffer_len: nat) -> nat {
    if buffer_len < HEADER_LEN {
        0
    } else if item_size == 0 {
        u32::MAX as nat
    } else {
        ((buffer_len - HEADER_LEN) as nat) / item_size
    }
}

/// Whether the first `HEADER_LEN` bytes are all zero, the marker of an
/// uninitialized buffer.
pub open spec fn header_is_zero(data: Seq<u8>) -> bool {
    forall|j: int| 0 <= j < HEADER_LEN ==> data[j] == 0
}

/// The `item_size` bytes of the record slot at `index`.
pub open spec fn item_at(data: Seq<u8>, item_size: nat, index: nat) -> Seq<u8> {
    data.subrange(
        slot_offset(item_size, index) as int,
        (slot_offset(item_size, index) + item_size) as int,
    )
}

/// `data` with the record slot at `index` overwritten in place by `item`;
/// every byte outside that slot is kept.
pub open spec fn store_item(data: Seq<u8>, item_size: nat, index: nat, item: Seq<u8>) -> Seq<u8> {
    data.subrange(0, slot_offset(item_size, index) as int) + item + data.subrange(
        (slot_offset(item_size, index) + item_size) as int,
        data.len() as int,
    )
}

/// The sequence of all `count` record byte spans held by `data`.
pub open spec fn items_of(data: Seq<u8>, item_size: nat, count: nat) -> Seq<Seq<u8>> {
    Seq::new(count, |i: int| item_at(data, item_size, i as nat))
}

/// When `count` records fit in a buffer, every slot below `count` lies
/// within the buffer, and consecutive slots are adjacent.
pub proof fn lemma_slot_in_bounds(item_size: nat, count: nat, index: nat, buffer_len: nat)
    requires
        index < count,
        list_fits(item_size, count, buffer_len),
    ensures
        slot_offset(item_size, index) + item_size <= buffer_len,
        slot_offset(item_size, index) + item_size == slot_offset(item_size, index + 1),
        slot_offset(item_size, index + 1) <= slot_offset(item_size, count),
{
    assert((index + 1) * item_size == index * item_size + item_size) by (nonlinear_arith);
    assert((index + 1) * item_size <= count * item_size) by (nonlinear_arith)
        requires
            index + 1 <= count,
    ;
}

/// A record count strictly below the capacity derived from the buffer
/// length leaves room for one more record.
pub proof fn lemma_below_capacity_fits(item_size: nat, count: nat, buffer_len: nat)
    requires
        item_size >= 1,
        buffer_len >= HEADER_LEN,
        count < list_capacity(item_size, buffer_len),
    ensures
        list_fits(item_size, count + 1, buffer_len),
{
    let available = (buffer_len - HEADER_LEN) as nat;
    assert((count + 1) * item_size <= (available / item_size) * item_size) by (nonlinear_arith)
        requires
            count + 1 <= available / item_size,
            item_size >= 1,
    ;
    assert((available / item_size) * item_size <= available) by (nonlinear_arith)
        requires
            item_size >= 1,
    ;
}

} // verus!
