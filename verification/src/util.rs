//! Small helpers shared across widgets.

use std::cell::RefCell;

use vstd::prelude::*;

verus! {

/// `std::cell::RefCell`, carried by reference.
#[verifier::external_type_specification]
#[verifier::external_body]
#[verifier::reject_recursive_types(T)]
pub struct ExRefCell<T: ?Sized>(RefCell<T>);

/// `RefCell::try_borrow_mut` and a store of `value` through the borrow.
/// Nothing is stated of the cell: its contents are not modelled. When the
/// cell is already borrowed elsewhere the store is skipped, so the call
/// never panics.
#[verifier::external_body]
fn store_flag(flag: &RefCell<bool>, value: bool)
    opens_invariants none
    no_unwind
{
    if let Ok(mut b) = flag.try_borrow_mut() {
        *b = value;
    }
}

/// Raises a `RefCell<bool>` flag for its lifetime: while a widget mutates
/// its own GTK controls in response to new state, the flag tells the
/// controls' signal handlers to return early; dropping the guard lowers
/// it again.
pub struct SuppressGuard<'a> {
    flag: &'a RefCell<bool>,
}

impl<'a> SuppressGuard<'a> {
    /// The flag this guard holds raised.
    pub closed spec fn flag(&self) -> &'a RefCell<bool> {
        self.flag
    }

    /// Raises `flag` and returns the guard that lowers it on drop.
    pub fn new(flag: &'a RefCell<bool>) -> (r: Self)
        ensures
            r.flag() == flag,
    {
        store_flag(flag, true);
        SuppressGuard { flag }
    }
}

impl<'a> Drop for SuppressGuard<'a> {
    fn drop(&mut self)
        opens_invariants none
        no_unwind
    {
        store_flag(self.flag, false);
    }
}

} // verus!
