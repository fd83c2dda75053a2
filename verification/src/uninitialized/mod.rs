//! A fixed-length buffer whose slots are filled one at a time, in any
//! order, and which records for every slot whether it holds a value.

use vstd::prelude::*;

pub mod history;
pub mod laws;

verus! {

/// Whether every slot of `slots` holds a value.
pub open spec fn all_initialized<T>(slots: Seq<Option<T>>) -> bool {
    forall|i: int| 0 <= i < slots.len() ==> (#[trigger] slots[i]).is_some()
}

/// The values that `slots` hold, slot by slot.  Meaningful where
/// `all_initialized(slots)`.
pub open spec fn values_of<T>(slots: Seq<Option<T>>) -> Seq<T> {
    Seq::new(slots.len(), |i: int| slots[i].unwrap())
}

/// A buffer of slots, each of which either holds a value or is still
/// uninitialized.
///
/// `storage` holds one cell per slot; `initialized` holds one flag per
/// tracked slot.  A buffer made from a sequence longer than its tracked
/// length keeps the surplus elements at the end of `storage`, where no
/// index reaches them.
///
/// An uninitialized slot holds nothing.  Dropping the buffer therefore
/// drops the values of the initialized slots and the untracked values,
/// each of them once, and nothing else.
#[derive(Debug)]
pub struct SafeUninitializedVec<T> {
    storage: Vec<Option<T>>,
    initialized: Vec<bool>,
}

/// The failure of a conversion that found an uninitialized slot.  It
/// holds the buffer, which can be taken back and filled further.
#[derive(Debug)]
pub struct UninitializedError<T> {
    vec: SafeUninitializedVec<T>,
}

impl<T> View for SafeUninitializedVec<T> {
    type V = Seq<Option<T>>;

    /// The tracked slots, in order: `Some(v)` for a slot that holds `v`,
    /// `None` for one that is uninitialized.
    closed spec fn view(&self) -> Seq<Option<T>> {
        self.storage@.take(self.initialized@.len() as int)
    }
}

impl<T> SafeUninitializedVec<T> {
    /// The invariant of the representation: there is a cell for every
    /// flag, a flag is set exactly when its cell holds a value, and every
    /// cell beyond the flags holds a value.
    pub closed spec fn wf(&self) -> bool {
        &&& self.initialized@.len() <= self.storage@.len()
        &&& forall|i: int|
            0 <= i < self.initialized@.len() ==> self.initialized@[i]
                == (#[trigger] self.storage@[i]).is_some()
        &&& forall|i: int|
            self.initialized@.len() <= i < self.storage@.len() ==> (#[trigger] self.storage@[i]).is_some()
    }

    /// The values kept beyond the tracked slots.
    pub closed spec fn untracked(&self) -> Seq<T> {
        Seq::new(
            (self.storage@.len() - self.initialized@.len()) as nat,
            |j: int| self.storage@[self.initialized@.len() + j].unwrap(),
        )
    }

    /// Creates a buffer of `len` slots, none of them initialized.
    pub fn new(len: usize) -> (buffer: SafeUninitializedVec<T>)
        ensures
            buffer.wf(),
            buffer@ == Seq::new(len as nat, |i: int| None::<T>),
            buffer.untracked() == Seq::<T>::empty(),
    {
        let mut storage: Vec<Option<T>> = Vec::with_capacity(len);
        let mut initialized: Vec<bool> = Vec::with_capacity(len);
        let mut i: usize = 0;
        while i < len
            invariant
                i <= len,
                storage@.len() == i,
                initialized@.len() == i,
                forall|j: int| 0 <= j < i ==> (#[trigger] storage@[j]).is_none(),
                forall|j: int| 0 <= j < i ==> !(#[trigger] initialized@[j]),
            decreases len - i,
        {
            storage.push(None);
            initialized.push(false);
            i += 1;
        }
        SafeUninitializedVec { storage, initialized }
    }

    /// Adapts a sequence of values to a buffer of `len` slots.
    ///
    /// Slot `i` holds the `i`-th value of `vec` where there is one and is
    /// uninitialized where there is none.  Values of `vec` from index `len`
    /// on are kept, untracked.
    pub fn from_vec(vec: Vec<T>, len: usize) -> (buffer: SafeUninitializedVec<T>)
        ensures
            buffer.wf(),
            buffer@ == Seq::new(
                len as nat,
                |i: int| if i < vec@.len() { Some(vec@[i]) } else { None },
            ),
            buffer.untracked() == (if len <= vec@.len() {
                vec@.skip(len as int)
            } else {
                Seq::<T>::empty()
            }),
    {
        let vec_len = vec.len();
        let mut storage: Vec<Option<T>> = Vec::with_capacity(if len > vec_len {
            len
        } else {
            vec_len
        });
        for val in iter: vec
            invariant
                storage@.len() == iter.index(),
                forall|j: int| 0 <= j < storage@.len() ==> #[trigger] storage@[j] == Some(vec@[j]),
        {
            storage.push(Some(val));
        }
        let mut initialized: Vec<bool> = Vec::with_capacity(len);
        let mut i: usize = 0;
        while i < len
            invariant
                i <= len,
                vec_len == vec@.len(),
                initialized@.len() == i,
                storage@.len() == (if i <= vec_len { vec_len } else { i }),
                forall|j: int| 0 <= j < vec_len ==> #[trigger] storage@[j] == Some(vec@[j]),
                forall|j: int| vec_len <= j < storage@.len() ==> (#[trigger] storage@[j]).is_none(),
                forall|j: int| 0 <= j < i ==> #[trigger] initialized@[j] == (j < vec_len),
            decreases len - i,
        {
            if i < vec_len {
                initialized.push(true);
            } else {
                initialized.push(false);
                storage.push(None);
            }
            i += 1;
        }
        SafeUninitializedVec { storage, initialized }
    }

    /// Converts the buffer into the sequence of its values, which succeeds
    /// if and only if every slot is initialized.  The untracked values
    /// follow those of the slots.  On failure the buffer comes back inside
    /// the error, as it was.
    pub fn into_vec(self) -> (res: Result<Vec<T>, UninitializedError<T>>)
        requires
            self.wf(),
        ensures
            match res {
                Ok(vals) => all_initialized(self@) && vals@ == values_of(self@) + self.untracked(),
                Err(e) => !all_initialized(self@) && e.buffer() == self,
            },
    {
        let len = self.initialized.len();
        let mut i: usize = 0;
        while i < len
            invariant
                self.wf(),
                len == self.initialized@.len(),
                i <= len,
                forall|j: int| 0 <= j < i ==> (#[trigger] self@[j]).is_some(),
            decreases len - i,
        {
            if !self.initialized[i] {
                assert(self@[i as int].is_none());
                return Err(UninitializedError::new(self));
            }
            i += 1;
        }
        let ghost slots = self@;
        let ghost cells = self.storage@;
        assert forall|j: int| 0 <= j < cells.len() implies (#[trigger] cells[j]).is_some() by {
            if j < len {
                assert(cells[j] == slots[j]);
            }
        }
        let mut vals: Vec<T> = Vec::with_capacity(self.storage.len());
        for cell in iter: self.storage
            invariant
                forall|j: int| 0 <= j < cells.len() ==> (#[trigger] cells[j]).is_some(),
                iter.seq() == cells,
                vals@.len() == iter.index(),
                forall|j: int| 0 <= j < vals@.len() ==> #[trigger] vals@[j] == cells[j].unwrap(),
        {
            vals.push(cell.unwrap());
        }
        Ok(vals)
    }

    /// Takes the buffer apart, unchecked: the cells, those of the
    /// untracked values included, and the flags of the tracked slots.
    pub fn get_parts(self) -> (parts: (Vec<Option<T>>, Vec<bool>))
        requires
            self.wf(),
        ensures
            parts.0@ == self@ + self.untracked().map_values(|v: T| Some(v)),
            parts.1@ == self@.map_values(|slot: Option<T>| slot.is_some()),
    {
        (self.storage, self.initialized)
    }

    /// Stores `val` in slot `i`, replacing the value that the slot held,
    /// if any.
    pub fn set_value(&mut self, i: usize, val: T)
        requires
            old(self).wf(),
            i < old(self)@.len(),
        ensures
            final(self).wf(),
            final(self)@ == old(self)@.update(i as int, Some(val)),
            final(self).untracked() == old(self).untracked(),
    {
        self.storage[i] = Some(val);
        self.initialized[i] = true;
    }

    /// The value in slot `i`, if the slot is initialized.
    pub fn get_value<'a>(&'a self, i: usize) -> (value: Option<&'a T>)
        requires
            self.wf(),
            i < self@.len(),
        ensures
            value == (match self@[i as int] {
                Some(v) => Some(&v),
                None => None,
            }),
    {
        if self.initialized[i] {
            self.storage[i].as_ref()
        } else {
            None
        }
    }

    /// Mutable access to the value in slot `i`, if the slot is
    /// initialized.  What is written through the reference is what the
    /// slot holds afterwards.
    pub fn get_value_mut<'a>(&'a mut self, i: usize) -> (value: Option<&'a mut T>)
        requires
            old(self).wf(),
            i < old(self)@.len(),
        ensures
            final(self).wf(),
            final(self).untracked() == old(self).untracked(),
            match value {
                Some(r) => old(self)@[i as int] == Some(*r) && final(self)@ == old(self)@.update(
                    i as int,
                    Some(*final(r)),
                ),
                None => old(self)@[i as int].is_none() && final(self)@ == old(self)@,
            },
    {
        if self.initialized[i] {
            self.storage[i].as_mut()
        } else {
            None
        }
    }

    /// Exchanges the contents of slots `x` and `y`, values and
    /// initialization alike.
    pub fn swap(&mut self, x: usize, y: usize)
        requires
            old(self).wf(),
            x < old(self)@.len(),
            y < old(self)@.len(),
        ensures
            final(self).wf(),
            final(self)@ == old(self)@.update(x as int, old(self)@[y as int]).update(
                y as int,
                old(self)@[x as int],
            ),
            final(self).untracked() == old(self).untracked(),
    {
        let at_x = self.storage[x].take();
        let at_y = self.storage[y].take();
        self.storage[x] = at_y;
        self.storage[y] = at_x;
        let flag_x = self.initialized[x];
        let flag_y = self.initialized[y];
        self.initialized[x] = flag_y;
        self.initialized[y] = flag_x;
    }

    /// Moves the value out of slot `i` and leaves the slot uninitialized.
    /// Returns `None`, and changes nothing, if the slot was uninitialized
    /// already.
    pub fn take(&mut self, i: usize) -> (value: Option<T>)
        requires
            old(self).wf(),
            i < old(self)@.len(),
        ensures
            final(self).wf(),
            value == old(self)@[i as int],
            final(self)@ == old(self)@.update(i as int, None),
            final(self).untracked() == old(self).untracked(),
    {
        if self.initialized[i] {
            self.initialized[i] = false;
            self.storage[i].take()
        } else {
            None
        }
    }
}

impl<T> UninitializedError<T> {
    /// The buffer whose conversion failed.
    pub closed spec fn buffer(&self) -> SafeUninitializedVec<T> {
        self.vec
    }

    fn new(vec: SafeUninitializedVec<T>) -> (error: UninitializedError<T>)
        ensures
            error.buffer() == vec,
    {
        UninitializedError { vec }
    }

    /// Hands the buffer back, unchanged.
    pub fn unwrap(self) -> (buffer: SafeUninitializedVec<T>)
        ensures
            buffer == self.buffer(),
    {
        self.vec
    }
}

} // verus!
