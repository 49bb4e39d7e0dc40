use mc_rusty::errors::RestaurantError;
use mc_rusty::handlers::{
    add_order, answer_deletion, answer_new_order, delete_order, get_orders,
};
use mc_rusty::restaurant_manager::{DishDto, RestaurantStateManager};

#[test]
fn errors_read_as_text() {
    assert_eq!(
        "Table number mismatch error",
        RestaurantError::TableNumberMismatchError.message()
    );
    assert_eq!(
        "Bad request: no such dish",
        RestaurantError::BadRequest(String::from("no such dish")).message()
    );
    assert_eq!("Bad request: ", RestaurantError::BadRequest(String::new()).message());
}

#[test]
fn errors_are_answered_with_their_status() {
    let mismatch = RestaurantError::TableNumberMismatchError;
    assert_eq!(500, mismatch.status());
    assert_eq!("Error: wrong table number selected", mismatch.response_text());
    let refused = RestaurantError::BadRequest(String::from("could not delete the order"));
    assert_eq!(400, refused.status());
    assert_eq!("could not delete the order", refused.response_text());
}

#[test]
fn outcomes_are_answered() {
    assert!(matches!(answer_new_order(Ok(())), Ok(201)));
    assert!(matches!(
        answer_new_order(Err(RestaurantError::BadRequest(String::from("busy")))),
        Err(RestaurantError::TableNumberMismatchError)
    ));
    assert!(matches!(answer_deletion(Ok(())), Ok(204)));
    match answer_deletion(Err(RestaurantError::TableNumberMismatchError)) {
        Err(RestaurantError::BadRequest(reason)) => {
            assert_eq!("could not delete the order", reason)
        }
        _ => panic!("a failed deletion is a bad request"),
    }
}

#[test]
fn requests_reach_the_orders() {
    let state_manager = RestaurantStateManager::instance();
    let pizza = DishDto { name: String::from("pizza") };
    assert!(matches!(add_order(12, pizza.clone(), &state_manager), Ok(201)));
    assert!(matches!(add_order(12, pizza.clone(), &state_manager), Ok(201)));
    assert!(matches!(
        add_order(0, pizza.clone(), &state_manager),
        Err(RestaurantError::TableNumberMismatchError)
    ));
    assert_eq!(2, get_orders(12, &state_manager).unwrap().len());
    assert!(matches!(
        get_orders(101, &state_manager),
        Err(RestaurantError::TableNumberMismatchError)
    ));
    assert!(matches!(delete_order(12, String::from("pizza"), &state_manager), Ok(204)));
    assert!(get_orders(12, &state_manager).unwrap().is_empty());
    match delete_order(101, String::from("pizza"), &state_manager) {
        Err(RestaurantError::BadRequest(reason)) => {
            assert_eq!("could not delete the order", reason)
        }
        _ => panic!("a deletion at no table is a bad request"),
    }
}
