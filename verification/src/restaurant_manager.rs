//! The restaurant's shared state: one order book behind a reader/writer lock,
//! for many callers at once.

use crate::errors::RestaurantError;
use crate::order_book::{all_well_prepared, is_table, table_exists, OrderBook};
use crate::Dish;
use parking_lot::{RwLock, RwLockReadGuard, RwLockWriteGuard};
use std::ops::{Deref, DerefMut};
use std::sync::Arc;
use vstd::prelude::*;

verus! {

/// `lock_api::RwLock`, the lock that `parking_lot::RwLock` is an alias of.
/// Nothing of what it holds is visible to the verifier.
#[verifier::external_type_specification]
#[verifier::external_body]
#[verifier::reject_recursive_types(R)]
#[verifier::reject_recursive_types(T)]
pub struct ExRwLock<R, T: ?Sized>(parking_lot::lock_api::RwLock<R, T>);

/// `parking_lot::RawRwLock`, the lock's own state.
#[verifier::external_type_specification]
#[verifier::external_body]
pub struct ExRawRwLock(parking_lot::RawRwLock);

/// Shared access to the book behind the lock: a
/// `parking_lot::RwLockReadGuard`, which gives the access up when it is
/// dropped. The guard's type is bounded by a trait of `lock_api` that the
/// verifier does not know, so the guard is kept out of its sight.
#[verifier::external_body]
struct SharedAccess<'a> {
    guard: RwLockReadGuard<'a, OrderBook>,
}

/// Exclusive access to the book behind the lock: a
/// `parking_lot::RwLockWriteGuard`, kept out of the verifier's sight as the
/// read guard is.
#[verifier::external_body]
struct ExclusiveAccess<'a> {
    guard: RwLockWriteGuard<'a, OrderBook>,
}

/// `RwLock::new`: a lock that holds the given book. Other holders of the lock
/// may change the book at any time, so nothing is claimed of it.
#[verifier::external_body]
fn lock_around(book: OrderBook) -> (lock: RwLock<OrderBook>) {
    RwLock::new(book)
}

/// `RwLock::read`: waits until no writer holds the lock, then returns shared
/// access to it.
#[verifier::external_body]
fn shared_access<'a>(lock: &'a RwLock<OrderBook>) -> (access: SharedAccess<'a>) {
    SharedAccess { guard: lock.read() }
}

/// `RwLock::write`: waits until nobody else holds the lock, then returns
/// exclusive access to it.
#[verifier::external_body]
fn exclusive_access<'a>(lock: &'a RwLock<OrderBook>) -> (access: ExclusiveAccess<'a>) {
    ExclusiveAccess { guard: lock.write() }
}

/// The read guard's `Deref::deref`: the book behind the lock, as it stands
/// while the guard is held. Which book that is depends on the other callers.
#[verifier::external_body]
fn guarded_book<'a, 'b>(access: &'b SharedAccess<'a>) -> (book: &'b OrderBook) {
    access.guard.deref()
}

/// The write guard's `DerefMut::deref_mut`: the book behind the lock, to be
/// changed in place. Which book that is depends on the other callers.
#[verifier::external_body]
fn guarded_book_mut<'a, 'b>(access: &'b mut ExclusiveAccess<'a>) -> (book: &'b mut OrderBook) {
    access.guard.deref_mut()
}

/// What a client sends to order a dish: its name, and nothing else.
#[derive(Clone, PartialEq, Debug)]
pub struct DishDto {
    pub name: String,
}

/// The orders of the restaurant's hundred tables, shared by every caller that
/// holds the manager.
pub struct RestaurantStateManager(Arc<RwLock<OrderBook>>);

impl RestaurantStateManager {
    /// A manager without orders.
    pub fn instance() -> (manager: RestaurantStateManager) {
        RestaurantStateManager(Arc::new(lock_around(OrderBook::new())))
    }

    /// Orders a dish for a table: under exclusive access the dish gets its
    /// preparation time and goes to the end of the table's orders. A number
    /// that is no table is refused before the lock is touched.
    pub fn new_order(&self, table_number: usize, dish: DishDto) -> (ordered: Result<
        (),
        RestaurantError,
    >)
        ensures
            is_table(table_number) ==> ordered is Ok,
            !is_table(table_number) ==> ordered == Err::<(), RestaurantError>(
                RestaurantError::TableNumberMismatchError,
            ),
    {
        if !table_exists(table_number) {
            return Err(RestaurantError::TableNumberMismatchError);
        }
        let mut access = exclusive_access(&self.0);
        let book = guarded_book_mut(&mut access);
        book.order(table_number, dish)
    }

    /// Takes every dish of that name out of a table's orders, under exclusive
    /// access. A number that is no table is refused before the lock is
    /// touched.
    pub fn delete_order(&self, table_number: usize, dish_name: String) -> (deleted: Result<
        (),
        RestaurantError,
    >)
        ensures
            is_table(table_number) ==> deleted is Ok,
            !is_table(table_number) ==> deleted == Err::<(), RestaurantError>(
                RestaurantError::TableNumberMismatchError,
            ),
    {
        if !table_exists(table_number) {
            return Err(RestaurantError::TableNumberMismatchError);
        }
        let mut access = exclusive_access(&self.0);
        let book = guarded_book_mut(&mut access);
        book.take_back(table_number, &dish_name)
    }

    /// A copy of a table's orders as they stand at one moment, taken under
    /// shared access. A number that is no table is refused before the lock is
    /// touched.
    pub fn retrieve_orders(&self, table_number: usize) -> (listed: Result<
        Vec<Dish>,
        RestaurantError,
    >)
        ensures
            is_table(table_number) ==> listed is Ok && all_well_prepared(listed->Ok_0@),
            !is_table(table_number) ==> listed == Err::<Vec<Dish>, RestaurantError>(
                RestaurantError::TableNumberMismatchError,
            ),
    {
        if !table_exists(table_number) {
            return Err(RestaurantError::TableNumberMismatchError);
        }
        let access = shared_access(&self.0);
        let book = guarded_book(&access);
        book.orders_at(table_number)
    }
}

} // verus!
