//! A handle to a value that it may or may not own.
//!
//! Whether the handle owns the value is decided when the handle is made
//! and never changes.  An owning handle frees the value when it is
//! dropped; a borrowing handle leaves the value to its lender.

use vstd::prelude::*;

verus! {

/// A handle to a value of type `T`, which it either owns or has borrowed.
#[derive(Debug)]
pub enum MightOwn<'a, T: ?Sized + 'a> {
    /// The handle owns the value.
    Owned(Box<T>),
    /// The handle has borrowed the value for `'a`.
    Borrowed(&'a mut T),
}

/// The refusal to give up a value that the handle does not own.  It holds
/// the handle, which can be taken back and used as before.
#[derive(Debug)]
pub struct NotOwnedError<'a, T: ?Sized + 'a> {
    val: MightOwn<'a, T>,
}

impl<'a, T: ?Sized + 'a> MightOwn<'a, T> {
    /// Whether the handle owns its value.
    pub open spec fn is_owned(&self) -> bool {
        self is Owned
    }

    /// The value that the handle gives access to.
    pub open spec fn target(&self) -> &T {
        match self {
            MightOwn::Owned(val) => &**val,
            MightOwn::Borrowed(val) => &**val,
        }
    }

    /// Makes a handle that owns `val`.
    pub fn owned(val: Box<T>) -> (handle: MightOwn<'a, T>)
        ensures
            handle == MightOwn::<'a, T>::Owned(val),
    {
        MightOwn::Owned(val)
    }

    /// Makes a handle that borrows the value behind `val`.  What is
    /// written through the handle is what the lender finds when the
    /// borrow ends.
    pub fn unowned(val: &'a mut T) -> (handle: MightOwn<'a, T>)
        ensures
            handle matches MightOwn::Borrowed(held) && &*held == &*old(val) && &*final(held)
                == &*final(val),
    {
        MightOwn::Borrowed(val)
    }

    /// Mutable access to the value.  What is written through the
    /// reference is the handle's value afterwards; whether the handle owns
    /// the value, and whose value it has borrowed, stay as they were.
    pub fn get_mut(&mut self) -> (target: &mut T)
        ensures
            &*target == old(self).target(),
            final(self).target() == &*final(target),
            final(self).is_owned() == old(self).is_owned(),
            match (*old(self), *final(self)) {
                (MightOwn::Borrowed(before), MightOwn::Borrowed(after)) => &*final(before)
                    == &*final(after),
                _ => true,
            },
    {
        match self {
            MightOwn::Owned(val) => &mut **val,
            MightOwn::Borrowed(val) => &mut **val,
        }
    }

    /// Shared access to the value.
    pub fn get_const(&self) -> (target: &T)
        ensures
            target == self.target(),
    {
        match self {
            MightOwn::Owned(val) => &**val,
            MightOwn::Borrowed(val) => &**val,
        }
    }

    /// Gives up the value, which an owning handle does and a borrowing
    /// handle cannot: that one comes back inside the error, as it was.
    pub fn get_owned(self) -> (res: Result<Box<T>, NotOwnedError<'a, T>>)
        ensures
            match res {
                Ok(val) => self == MightOwn::<'a, T>::Owned(val),
                Err(e) => self is Borrowed && e.handle() == self,
            },
    {
        match self {
            MightOwn::Owned(val) => Ok(val),
            borrowed => Err(NotOwnedError { val: borrowed }),
        }
    }
}

impl<'a, T: ?Sized + 'a> NotOwnedError<'a, T> {
    /// The handle that refused.
    pub closed spec fn handle(&self) -> MightOwn<'a, T> {
        self.val
    }

    /// Hands the handle back, unchanged.
    pub fn get(self) -> (handle: MightOwn<'a, T>)
        ensures
            handle == self.handle(),
    {
        self.val
    }
}

/// A handle made by `owned` gives up the very box that it was made from.
pub proof fn lemma_owned_handle_gives_up_its_value<'a, T: ?Sized + 'a>(
    val: Box<T>,
    handle: MightOwn<'a, T>,
    res: Result<Box<T>, NotOwnedError<'a, T>>,
)
    requires
        call_ensures(MightOwn::<'a, T>::owned, (val,), handle),
        call_ensures(MightOwn::<'a, T>::get_owned, (handle,), res),
    ensures
        handle.is_owned(),
        handle.target() == &*val,
        res matches Ok(given) && given == val,
{
}

/// A handle made by `unowned` gives access to the borrowed value and
/// refuses to give it up; the handle that comes out of the error is the
/// handle that was asked.
pub proof fn lemma_borrowed_handle_comes_back<'a, T: ?Sized + 'a>()
    ensures
        forall|
            val: &'a mut T,
            handle: MightOwn<'a, T>,
            res: Result<Box<T>, NotOwnedError<'a, T>>,
        |
            #![trigger
                call_ensures(MightOwn::<'a, T>::unowned, (val,), handle),
                call_ensures(MightOwn::<'a, T>::get_owned, (handle,), res),
            ]
            call_ensures(MightOwn::<'a, T>::unowned, (val,), handle) && call_ensures(
                MightOwn::<'a, T>::get_owned,
                (handle,),
                res,
            ) ==> {
                &&& !handle.is_owned()
                &&& handle.target() == &*val
                &&& res matches Err(e)
                &&& forall|back: MightOwn<'a, T>| #[trigger]
                    call_ensures(NotOwnedError::<'a, T>::get, (e,), back) ==> back == handle
            },
{
}

} // verus!
