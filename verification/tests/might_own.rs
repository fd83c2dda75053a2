use std::cell::Cell;
use std::rc::Rc;

use tracked_memory::might_own::NotOwnedError;
use tracked_memory::MightOwn;

/// A value that counts how often it is dropped.
struct Tally {
    drops: Rc<Cell<usize>>,
}

impl Drop for Tally {
    fn drop(&mut self) {
        self.drops.set(self.drops.get() + 1);
    }
}

#[test]
fn owned_handle_gives_its_value_back() {
    let handle = MightOwn::owned(Box::new(41));
    assert_eq!(handle.get_owned().unwrap(), Box::new(41));
}

#[test]
fn owned_handle_reads_and_writes_its_value() {
    let mut handle = MightOwn::owned(Box::new(String::from("a")));
    assert_eq!(handle.get_const(), "a");
    handle.get_mut().push('b');
    assert_eq!(handle.get_const(), "ab");
    assert_eq!(*handle.get_owned().unwrap(), "ab");
}

#[test]
fn borrowed_handle_refuses_to_give_its_value() {
    let mut lender = 5;
    let handle = MightOwn::unowned(&mut lender);
    assert!(handle.get_owned().is_err());
}

#[test]
fn borrowed_handle_comes_back_out_of_the_error() {
    let mut lender = 5;
    let handle = MightOwn::unowned(&mut lender);
    let error: NotOwnedError<i32> = match handle.get_owned() {
        Ok(_) => panic!("the handle does not own its value"),
        Err(error) => error,
    };
    let mut handle = error.get();
    assert_eq!(*handle.get_const(), 5);
    *handle.get_mut() = 6;
    assert_eq!(*handle.get_const(), 6);
    assert!(handle.get_owned().is_err());
    assert_eq!(lender, 6);
}

#[test]
fn borrowed_handle_writes_reach_the_lender() {
    let mut lender = vec![1, 2];
    {
        let mut handle = MightOwn::unowned(&mut lender);
        handle.get_mut().push(3);
        assert_eq!(handle.get_const().len(), 3);
    }
    assert_eq!(lender, vec![1, 2, 3]);
}

#[test]
fn handle_to_unsized_value() {
    let boxed: Box<[u8]> = vec![1, 2, 3].into_boxed_slice();
    let mut handle = MightOwn::owned(boxed);
    handle.get_mut()[0] = 9;
    assert_eq!(handle.get_const(), &[9, 2, 3][..]);
    let mut lender = [4u8, 5];
    let mut borrowed: MightOwn<[u8]> = MightOwn::unowned(&mut lender[..]);
    borrowed.get_mut()[1] = 6;
    assert_eq!(borrowed.get_const(), &[4, 6][..]);
    drop(borrowed);
    assert_eq!(lender, [4, 6]);
}

#[test]
fn owned_handle_drops_its_value() {
    let drops = Rc::new(Cell::new(0));
    let handle = MightOwn::owned(Box::new(Tally { drops: Rc::clone(&drops) }));
    assert_eq!(drops.get(), 0);
    drop(handle);
    assert_eq!(drops.get(), 1);
}

#[test]
fn borrowed_handle_leaves_its_value_to_the_lender() {
    let drops = Rc::new(Cell::new(0));
    let mut lender = Tally { drops: Rc::clone(&drops) };
    let handle = MightOwn::unowned(&mut lender);
    drop(handle);
    assert_eq!(drops.get(), 0);
    drop(lender);
    assert_eq!(drops.get(), 1);
}

#[test]
fn value_given_up_is_not_dropped_by_the_handle() {
    let drops = Rc::new(Cell::new(0));
    let handle = MightOwn::owned(Box::new(Tally { drops: Rc::clone(&drops) }));
    let value = match handle.get_owned() {
        Ok(value) => value,
        Err(_) => panic!("the handle owns its value"),
    };
    assert_eq!(drops.get(), 0);
    drop(value);
    assert_eq!(drops.get(), 1);
}
