//! What each request does to the orders and how it is answered, on plain
//! values: the transport in front takes a request apart and sends the answer.

use crate::errors::RestaurantError;
use crate::order_book::{all_well_prepared, is_table};
use crate::restaurant_manager::{DishDto, RestaurantStateManager};
use crate::Dish;
use vstd::prelude::*;

verus! {

/// The status that answers an order that was taken.
pub const CREATED: u16 = 201;

/// The status that answers an order that was deleted.
pub const NO_CONTENT: u16 = 204;

/// Why a deletion is refused, as the client is told.
pub open spec fn deletion_refused() -> Seq<char> {
    "could not delete the order"@
}

/// How the outcome of a new order is answered: `CREATED` where the order was
/// taken, and a table number mismatch whatever it failed with.
pub fn answer_new_order(outcome: Result<(), RestaurantError>) -> (answer: Result<
    u16,
    RestaurantError,
>)
    ensures
        outcome is Ok ==> answer == Ok::<u16, RestaurantError>(CREATED),
        outcome is Err ==> answer == Err::<u16, RestaurantError>(
            RestaurantError::TableNumberMismatchError,
        ),
{
    match outcome {
        Ok(_) => Ok(CREATED),
        Err(_) => Err(RestaurantError::TableNumberMismatchError),
    }
}

/// How the outcome of a deletion is answered: `NO_CONTENT` where it was done,
/// and a bad request whatever it failed with.
pub fn answer_deletion(outcome: Result<(), RestaurantError>) -> (answer: Result<
    u16,
    RestaurantError,
>)
    ensures
        outcome is Ok ==> answer == Ok::<u16, RestaurantError>(NO_CONTENT),
        outcome is Err ==> (answer matches Err(RestaurantError::BadRequest(reason)) && reason@
            == deletion_refused()),
{
    match outcome {
        Ok(_) => Ok(NO_CONTENT),
        Err(_) => Err(RestaurantError::BadRequest("could not delete the order".to_string())),
    }
}

/// Orders a dish for a table and says how the request is answered.
pub fn add_order(
    table_number: usize,
    dish: DishDto,
    state_manager: &RestaurantStateManager,
) -> (answer: Result<u16, RestaurantError>)
    ensures
        is_table(table_number) ==> answer == Ok::<u16, RestaurantError>(CREATED),
        !is_table(table_number) ==> answer == Err::<u16, RestaurantError>(
            RestaurantError::TableNumberMismatchError,
        ),
{
    answer_new_order(state_manager.new_order(table_number, dish))
}

/// A table's orders as they stand, or the refusal of a number that is no
/// table: either is handed back to the client as it is.
pub fn get_orders(
    table_number: usize,
    state_manager: &RestaurantStateManager,
) -> (answer: Result<Vec<Dish>, RestaurantError>)
    ensures
        is_table(table_number) ==> answer is Ok && all_well_prepared(answer->Ok_0@),
        !is_table(table_number) ==> answer == Err::<Vec<Dish>, RestaurantError>(
            RestaurantError::TableNumberMismatchError,
        ),
{
    state_manager.retrieve_orders(table_number)
}

/// Deletes the dishes of one name from a table's orders and says how the
/// request is answered.
pub fn delete_order(
    table_number: usize,
    dish: String,
    state_manager: &RestaurantStateManager,
) -> (answer: Result<u16, RestaurantError>)
    ensures
        is_table(table_number) ==> answer == Ok::<u16, RestaurantError>(NO_CONTENT),
        !is_table(table_number) ==> (answer matches Err(RestaurantError::BadRequest(reason))
            && reason@ == deletion_refused()),
{
    answer_deletion(state_manager.delete_order(table_number, dish))
}

} // verus!
