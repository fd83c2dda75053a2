//! What holds of the buffer's operations taken together.
//!
//! Every statement here is about the contracts of the operations: it
//! speaks of any outcome that a contract allows, so it holds of the
//! operations themselves.

use vstd::prelude::*;
use super::all_initialized;
use super::values_of;
use super::SafeUninitializedVec;
use super::UninitializedError;
use super::history::all_in_range;
use super::history::last_written;
use super::history::lemma_complete_iff_all_written;
use super::history::replay;
use super::history::SlotOp;

verus! {

/// `set_value` changes the slots as the `Write` of a history does, keeps
/// the buffer well formed and leaves the untracked values alone.
pub proof fn lemma_set_value_is_a_write<T>(i: usize, val: T)
    ensures
        forall|buffer: &mut SafeUninitializedVec<T>|
            buffer.wf() && i < buffer@.len() && #[trigger] call_ensures(
                SafeUninitializedVec::<T>::set_value,
                (buffer, i, val),
                (),
            ) ==> {
                &&& final(buffer).wf()
                &&& final(buffer)@ == (SlotOp::Write { index: i as int, value: val }).apply(
                    buffer@,
                )
                &&& final(buffer).untracked() == buffer.untracked()
            },
{
}

/// `take` changes the slots as the `Take` of a history does, keeps the
/// buffer well formed and leaves the untracked values alone.
pub proof fn lemma_take_is_a_take<T>(i: usize)
    ensures
        forall|buffer: &mut SafeUninitializedVec<T>, taken: Option<T>|
            buffer.wf() && i < buffer@.len() && #[trigger] call_ensures(
                SafeUninitializedVec::<T>::take,
                (buffer, i),
                taken,
            ) ==> {
                &&& final(buffer).wf()
                &&& final(buffer)@ == (SlotOp::<T>::Take { index: i as int }).apply(buffer@)
                &&& final(buffer).untracked() == buffer.untracked()
            },
{
}

/// `swap` changes the slots as the `Swap` of a history does, keeps the
/// buffer well formed and leaves the untracked values alone.
pub proof fn lemma_swap_is_a_swap<T>(x: usize, y: usize)
    ensures
        forall|buffer: &mut SafeUninitializedVec<T>|
            buffer.wf() && x < buffer@.len() && y < buffer@.len() && #[trigger] call_ensures(
                SafeUninitializedVec::<T>::swap,
                (buffer, x, y),
                (),
            ) ==> {
                &&& final(buffer).wf()
                &&& final(buffer)@ == (SlotOp::<T>::Swap { x: x as int, y: y as int }).apply(
                    buffer@,
                )
                &&& final(buffer).untracked() == buffer.untracked()
            },
{
}

/// Where `get_value_mut` gives a reference, what is written through it
/// reaches the slots as a `Write` does; where it gives none, the slots
/// stay as they are.  Either way the buffer stays well formed and the
/// untracked values are left alone.
pub proof fn lemma_get_value_mut_is_a_write<T>(i: usize)
    ensures
        forall|buffer: &mut SafeUninitializedVec<T>, value: Option<&mut T>|
            buffer.wf() && i < buffer@.len() && #[trigger] call_ensures(
                SafeUninitializedVec::<T>::get_value_mut,
                (buffer, i),
                value,
            ) ==> {
                &&& final(buffer).wf()
                &&& final(buffer).untracked() == buffer.untracked()
                &&& match value {
                    Some(target) => buffer@[i as int] == Some(*target) && final(buffer)@ == (
                    SlotOp::Write { index: i as int, value: *final(target) }).apply(buffer@),
                    None => buffer@[i as int].is_none() && final(buffer)@ == buffer@,
                }
            },
{
}

/// A value written to a slot is the value read from it, and the slot
/// may be read.
pub proof fn lemma_write_then_read<T>(i: usize, val: T)
    ensures
        forall|buffer: &mut SafeUninitializedVec<T>, read: Option<&T>|
            buffer.wf() && i < buffer@.len() && #[trigger] call_ensures(
                SafeUninitializedVec::<T>::set_value,
                (buffer, i, val),
                (),
            ) && #[trigger] call_ensures(
                SafeUninitializedVec::<T>::get_value,
                (&*final(buffer), i),
                read,
            ) ==> read == Some(&val),
        forall|buffer: &mut SafeUninitializedVec<T>|
            buffer.wf() && i < buffer@.len() && #[trigger] call_ensures(
                SafeUninitializedVec::<T>::set_value,
                (buffer, i, val),
                (),
            ) ==> call_requires(SafeUninitializedVec::<T>::get_value, (&*final(buffer), i)),
{
}

/// In a buffer just made by `new`, every slot reads as uninitialized.
pub proof fn lemma_new_slot_reads_none<T>(
    len: usize,
    buffer: SafeUninitializedVec<T>,
    i: usize,
    read: Option<&T>,
)
    requires
        call_ensures(SafeUninitializedVec::<T>::new, (len,), buffer),
        i < len,
        call_ensures(SafeUninitializedVec::<T>::get_value, (&buffer, i), read),
    ensures
        read.is_none(),
{
}

/// After a value has been taken out of a slot, the slot reads as
/// uninitialized, and taking from it again gives nothing and changes
/// nothing.
pub proof fn lemma_take_clears<T>(i: usize)
    ensures
        forall|buffer: &mut SafeUninitializedVec<T>, taken: Option<T>, read: Option<&T>|
            buffer.wf() && i < buffer@.len() && #[trigger] call_ensures(
                SafeUninitializedVec::<T>::take,
                (buffer, i),
                taken,
            ) && #[trigger] call_ensures(
                SafeUninitializedVec::<T>::get_value,
                (&*final(buffer), i),
                read,
            ) ==> read.is_none(),
        forall|
            buffer: &mut SafeUninitializedVec<T>,
            taken: Option<T>,
            again: &mut SafeUninitializedVec<T>,
            retaken: Option<T>,
        |
            buffer.wf() && i < buffer@.len() && #[trigger] call_ensures(
                SafeUninitializedVec::<T>::take,
                (buffer, i),
                taken,
            ) && *again == *final(buffer) && #[trigger] call_ensures(
                SafeUninitializedVec::<T>::take,
                (again, i),
                retaken,
            ) ==> retaken.is_none() && final(again)@ == again@,
{
}

/// A conversion succeeds if and only if the history of the slots leaves
/// a value in every one of them, and the sequence that it returns then
/// starts with those values, slot by slot.
pub proof fn lemma_conversion_follows_history<T>(
    start: Seq<Option<T>>,
    ops: Seq<SlotOp<T>>,
    buffer: SafeUninitializedVec<T>,
    res: Result<Vec<T>, UninitializedError<T>>,
)
    requires
        all_in_range(ops, start.len()),
        buffer.wf(),
        buffer@ == replay(start, ops),
        call_ensures(SafeUninitializedVec::<T>::into_vec, (buffer,), res),
    ensures
        res is Ok <==> forall|i: int|
            0 <= i < start.len() ==> (#[trigger] last_written(start, ops, i)).is_some(),
        res matches Ok(vals) ==> vals@.len() == start.len() + buffer.untracked().len()
            && forall|i: int|
            0 <= i < start.len() ==> #[trigger] vals@[i] == last_written(start, ops, i).unwrap(),
{
    lemma_complete_iff_all_written(start, ops);
}

/// A failed conversion loses nothing: the buffer that comes out of the
/// error is the buffer that went into the conversion.
pub proof fn lemma_failed_conversion_returns_buffer<T>(
    buffer: SafeUninitializedVec<T>,
    res: Result<Vec<T>, UninitializedError<T>>,
    recovered: SafeUninitializedVec<T>,
)
    requires
        buffer.wf(),
        call_ensures(SafeUninitializedVec::<T>::into_vec, (buffer,), res),
        res matches Err(e) && call_ensures(UninitializedError::<T>::unwrap, (e,), recovered),
    ensures
        recovered == buffer,
        recovered.wf(),
        recovered@ == buffer@,
        recovered.untracked() == buffer.untracked(),
{
}

/// A buffer made from a sequence that is longer than the buffer keeps
/// the surplus: once every slot is initialized, the conversion returns a
/// sequence as long as the first one, which ends with the surplus as it
/// was.
pub proof fn lemma_surplus_survives<T>(
    source: Vec<T>,
    len: usize,
    made: SafeUninitializedVec<T>,
    filled: SafeUninitializedVec<T>,
    res: Result<Vec<T>, UninitializedError<T>>,
)
    requires
        len <= source@.len(),
        call_ensures(SafeUninitializedVec::<T>::from_vec, (source, len), made),
        filled.wf(),
        filled@.len() == made@.len(),
        filled.untracked() == made.untracked(),
        all_initialized(filled@),
        call_ensures(SafeUninitializedVec::<T>::into_vec, (filled,), res),
    ensures
        all_initialized(made@),
        res matches Ok(vals) && vals@.len() == source@.len() && vals@.skip(len as int)
            == source@.skip(len as int) && vals@.take(len as int) == values_of(filled@),
{
    let vals = res->Ok_0;
    assert(vals@.skip(len as int) =~= source@.skip(len as int));
}

/// A buffer made from a sequence converts straight back if and only if
/// the sequence fills every slot, and the conversion then returns the
/// sequence.
pub proof fn lemma_from_vec_then_into_vec<T>(
    source: Vec<T>,
    len: usize,
    made: SafeUninitializedVec<T>,
    res: Result<Vec<T>, UninitializedError<T>>,
)
    requires
        call_ensures(SafeUninitializedVec::<T>::from_vec, (source, len), made),
        call_ensures(SafeUninitializedVec::<T>::into_vec, (made,), res),
    ensures
        res is Ok <==> len <= source@.len(),
        res matches Ok(vals) ==> vals@ == source@,
{
    if len > source@.len() {
        assert(made@[source@.len() as int].is_none());
    }
}

} // verus!
