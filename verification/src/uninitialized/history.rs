//! The slots of a buffer as the outcome of a history of operations.
//!
//! A buffer's tracked slots start in some state and are then changed, one
//! operation at a time, by `set_value`, `take` and `swap`.  This module
//! replays such a history on the slots and shows that each slot is
//! decided by the last operation that reached it, whatever happened
//! before.

use vstd::prelude::*;
use super::all_initialized;
use super::values_of;

verus! {

/// One change to the slots of a buffer.
pub enum SlotOp<T> {
    /// `set_value(index, value)`.
    Write { index: int, value: T },
    /// `take(index)`.
    Take { index: int },
    /// `swap(x, y)`.
    Swap { x: int, y: int },
}

impl<T> SlotOp<T> {
    /// Whether the operation is allowed on a buffer of `len` slots.
    pub open spec fn in_range(self, len: nat) -> bool {
        match self {
            SlotOp::Write { index, .. } => 0 <= index < len,
            SlotOp::Take { index } => 0 <= index < len,
            SlotOp::Swap { x, y } => 0 <= x < len && 0 <= y < len,
        }
    }

    /// Whether the operation can put a value into slot `i`.
    pub open spec fn writes(self, i: int) -> bool {
        match self {
            SlotOp::Write { index, .. } => index == i,
            SlotOp::Take { .. } => false,
            SlotOp::Swap { x, y } => x == i || y == i,
        }
    }

    /// The slots after the operation.
    pub open spec fn apply(self, slots: Seq<Option<T>>) -> Seq<Option<T>> {
        match self {
            SlotOp::Write { index, value } => slots.update(index, Some(value)),
            SlotOp::Take { index } => slots.update(index, None),
            SlotOp::Swap { x, y } => slots.update(x, slots[y]).update(y, slots[x]),
        }
    }
}

/// Whether every operation of `ops` is allowed on a buffer of `len` slots.
pub open spec fn all_in_range<T>(ops: Seq<SlotOp<T>>, len: nat) -> bool {
    forall|k: int| 0 <= k < ops.len() ==> (#[trigger] ops[k]).in_range(len)
}

/// The slots after the operations of `ops`, applied in order to `start`.
pub open spec fn replay<T>(start: Seq<Option<T>>, ops: Seq<SlotOp<T>>) -> Seq<Option<T>>
    decreases ops.len(),
{
    if ops.len() == 0 {
        start
    } else {
        ops.last().apply(replay(start, ops.drop_last()))
    }
}

/// What the history alone says of slot `i`: the value of the last
/// `Write` that reached the slot, unless a `Take` came after it; a `Swap`
/// hands the slot the history of the other one.  A slot that no
/// operation reached is as it was in `start`.
pub open spec fn last_written<T>(start: Seq<Option<T>>, ops: Seq<SlotOp<T>>, i: int) -> Option<T>
    decreases ops.len(),
{
    if ops.len() == 0 {
        start[i]
    } else {
        let earlier = ops.drop_last();
        match ops.last() {
            SlotOp::Write { index, value } => if index == i {
                Some(value)
            } else {
                last_written(start, earlier, i)
            },
            SlotOp::Take { index } => if index == i {
                None
            } else {
                last_written(start, earlier, i)
            },
            SlotOp::Swap { x, y } => if i == y {
                last_written(start, earlier, x)
            } else if i == x {
                last_written(start, earlier, y)
            } else {
                last_written(start, earlier, i)
            },
        }
    }
}

/// No operation changes the number of slots.
pub proof fn lemma_replay_keeps_len<T>(start: Seq<Option<T>>, ops: Seq<SlotOp<T>>)
    requires
        all_in_range(ops, start.len()),
    ensures
        replay(start, ops).len() == start.len(),
    decreases ops.len(),
{
    if ops.len() > 0 {
        let earlier = ops.drop_last();
        assert forall|k: int| 0 <= k < earlier.len() implies (#[trigger] earlier[k]).in_range(
            start.len(),
        ) by {
            assert(earlier[k] == ops[k]);
        }
        lemma_replay_keeps_len(start, earlier);
    }
}

/// Each slot holds what the history says of it: the last value written
/// to it and not taken since.
pub proof fn lemma_replay_is_last_written<T>(start: Seq<Option<T>>, ops: Seq<SlotOp<T>>, i: int)
    requires
        all_in_range(ops, start.len()),
        0 <= i < start.len(),
    ensures
        replay(start, ops)[i] == last_written(start, ops, i),
    decreases ops.len(),
{
    if ops.len() > 0 {
        let earlier = ops.drop_last();
        assert forall|k: int| 0 <= k < earlier.len() implies (#[trigger] earlier[k]).in_range(
            start.len(),
        ) by {
            assert(earlier[k] == ops[k]);
        }
        lemma_replay_keeps_len(start, earlier);
        lemma_replay_is_last_written(start, earlier, i);
        match ops.last() {
            SlotOp::Write { .. } => {},
            SlotOp::Take { .. } => {},
            SlotOp::Swap { x, y } => {
                lemma_replay_is_last_written(start, earlier, x);
                lemma_replay_is_last_written(start, earlier, y);
            },
        }
    }
}

/// A slot that starts uninitialized and that no operation writes stays
/// uninitialized.
pub proof fn lemma_unwritten_slot_is_uninitialized<T>(
    start: Seq<Option<T>>,
    ops: Seq<SlotOp<T>>,
    i: int,
)
    requires
        all_in_range(ops, start.len()),
        0 <= i < start.len(),
        start[i].is_none(),
        forall|k: int| 0 <= k < ops.len() ==> !(#[trigger] ops[k]).writes(i),
    ensures
        replay(start, ops)[i].is_none(),
    decreases ops.len(),
{
    if ops.len() > 0 {
        let earlier = ops.drop_last();
        assert forall|k: int| 0 <= k < earlier.len() implies (#[trigger] earlier[k]).in_range(
            start.len(),
        ) && !earlier[k].writes(i) by {
            assert(earlier[k] == ops[k]);
        }
        lemma_replay_keeps_len(start, earlier);
        lemma_unwritten_slot_is_uninitialized(start, earlier, i);
    }
}

/// After any history, every slot is initialized if and only if the
/// history leaves a value in every slot, and then the values of the slots
/// are those that the history left.
pub proof fn lemma_complete_iff_all_written<T>(start: Seq<Option<T>>, ops: Seq<SlotOp<T>>)
    requires
        all_in_range(ops, start.len()),
    ensures
        all_initialized(replay(start, ops)) <==> forall|i: int|
            0 <= i < start.len() ==> (#[trigger] last_written(start, ops, i)).is_some(),
        values_of(replay(start, ops)) == Seq::new(
            start.len(),
            |i: int| last_written(start, ops, i).unwrap(),
        ),
{
    lemma_replay_keeps_len(start, ops);
    let end = replay(start, ops);
    assert forall|i: int| 0 <= i < start.len() implies #[trigger] end[i] == last_written(
        start,
        ops,
        i,
    ) by {
        lemma_replay_is_last_written(start, ops, i);
    }
    if all_initialized(end) {
        assert forall|i: int| 0 <= i < start.len() implies (#[trigger] last_written(
            start,
            ops,
            i,
        )).is_some() by {
            assert(end[i].is_some());
        }
    }
}

} // verus!
