use mc_rusty::errors::RestaurantError;
use mc_rusty::order_book::{table_exists, OrderBook};
use mc_rusty::restaurant_manager::DishDto;
use mc_rusty::Dish;

fn dish(name: &str, preparation: i32) -> Dish {
    Dish::prepared_in(String::from(name), preparation).unwrap()
}

#[test]
fn tables_run_from_one_to_a_hundred() {
    assert!(!table_exists(0));
    assert!(table_exists(1));
    assert!(table_exists(42));
    assert!(table_exists(100));
    assert!(!table_exists(101));
    assert!(!table_exists(usize::MAX));
}

#[test]
fn a_dish_takes_five_to_fifteen() {
    assert!(Dish::prepared_in(String::from("pizza"), 4).is_none());
    assert!(Dish::prepared_in(String::from("pizza"), 16).is_none());
    assert!(Dish::prepared_in(String::from("pizza"), -7).is_none());
    let quick = Dish::prepared_in(String::from("pizza"), 5).unwrap();
    assert_eq!(("pizza", 5), (quick.name(), quick.preparation()));
    let slow = Dish::prepared_in(String::from("pizza"), 15).unwrap();
    assert_eq!(("pizza", 15), (slow.name(), slow.preparation()));
}

#[test]
fn dishes_are_equal_by_name_and_preparation() {
    assert_eq!(dish("pizza", 7), dish("pizza", 7));
    assert_ne!(dish("pizza", 7), dish("pizza", 8));
    assert_ne!(dish("pizza", 7), dish("steak", 7));
    assert_eq!(dish("pizza", 7), dish("pizza", 7).clone());
    assert!(dish("pizza", 7).is_named(&String::from("pizza")));
    assert!(!dish("pizza", 7).is_named(&String::from("Pizza")));
}

#[test]
fn a_new_book_has_no_orders() {
    let book = OrderBook::new();
    assert_eq!(Vec::<Dish>::new(), book.orders_at(1).unwrap());
    assert_eq!(Vec::<Dish>::new(), book.orders_at(100).unwrap());
    assert!(matches!(book.orders_at(0), Err(RestaurantError::TableNumberMismatchError)));
    assert!(matches!(book.orders_at(101), Err(RestaurantError::TableNumberMismatchError)));
}

#[test]
fn placed_dishes_are_kept_in_their_order() {
    let mut book = OrderBook::new();
    assert!(book.place(8, dish("pizza", 5)).is_ok());
    assert!(book.place(8, dish("steak", 9)).is_ok());
    assert!(book.place(8, dish("pizza", 15)).is_ok());
    assert!(book.place(9, dish("ramen", 6)).is_ok());
    assert_eq!(
        vec![dish("pizza", 5), dish("steak", 9), dish("pizza", 15)],
        book.orders_at(8).unwrap()
    );
    assert_eq!(vec![dish("ramen", 6)], book.orders_at(9).unwrap());
    assert!(book.orders_at(10).unwrap().is_empty());
}

#[test]
fn a_dish_for_no_table_is_not_placed() {
    let mut book = OrderBook::new();
    assert!(matches!(
        book.place(0, dish("pizza", 5)),
        Err(RestaurantError::TableNumberMismatchError)
    ));
    assert!(matches!(
        book.place(101, dish("pizza", 5)),
        Err(RestaurantError::TableNumberMismatchError)
    ));
    for table_number in 1usize..=100 {
        assert!(book.orders_at(table_number).unwrap().is_empty());
    }
}

#[test]
fn taking_back_removes_the_name_everywhere_at_the_table() {
    let mut book = OrderBook::new();
    for (name, preparation) in
        [("pizza", 5), ("steak", 9), ("pizza", 15), ("ramen", 6), ("pizza", 5), ("steak", 10)]
    {
        assert!(book.place(8, dish(name, preparation)).is_ok());
    }
    assert!(book.place(9, dish("pizza", 7)).is_ok());

    assert!(book.take_back(8, &String::from("pizza")).is_ok());

    assert_eq!(
        vec![dish("steak", 9), dish("ramen", 6), dish("steak", 10)],
        book.orders_at(8).unwrap()
    );
    assert_eq!(vec![dish("pizza", 7)], book.orders_at(9).unwrap());

    assert!(book.take_back(8, &String::from("pizza")).is_ok());
    assert_eq!(
        vec![dish("steak", 9), dish("ramen", 6), dish("steak", 10)],
        book.orders_at(8).unwrap()
    );
}

#[test]
fn taking_back_at_no_table_is_refused() {
    let mut book = OrderBook::new();
    assert!(book.place(1, dish("pizza", 5)).is_ok());
    assert!(matches!(
        book.take_back(0, &String::from("pizza")),
        Err(RestaurantError::TableNumberMismatchError)
    ));
    assert!(matches!(
        book.take_back(101, &String::from("pizza")),
        Err(RestaurantError::TableNumberMismatchError)
    ));
    assert_eq!(vec![dish("pizza", 5)], book.orders_at(1).unwrap());
}

#[test]
fn taking_back_from_an_empty_table_succeeds() {
    let mut book = OrderBook::new();
    assert!(book.take_back(33, &String::from("pizza")).is_ok());
    assert!(book.orders_at(33).unwrap().is_empty());
    assert!(book.place(33, dish("pizza", 5)).is_ok());
    assert!(book.take_back(33, &String::from("pizza")).is_ok());
    assert!(book.orders_at(33).unwrap().is_empty());
    assert!(book.place(33, dish("steak", 12)).is_ok());
    assert_eq!(vec![dish("steak", 12)], book.orders_at(33).unwrap());
}

#[test]
fn an_order_becomes_the_last_dish_of_its_table() {
    let mut book = OrderBook::new();
    assert!(book.place(8, dish("steak", 9)).is_ok());
    assert!(book.order(8, DishDto { name: String::from("お好み焼き") }).is_ok());
    let listed = book.orders_at(8).unwrap();
    assert_eq!(2, listed.len());
    assert_eq!(dish("steak", 9), listed[0]);
    assert_eq!("お好み焼き", listed[1].name());
    assert!(5 <= listed[1].preparation() && listed[1].preparation() <= 15);
    assert!(book.orders_at(7).unwrap().is_empty());
}

#[test]
fn an_order_for_no_table_is_not_taken() {
    let mut book = OrderBook::new();
    assert!(matches!(
        book.order(0, DishDto { name: String::from("pizza") }),
        Err(RestaurantError::TableNumberMismatchError)
    ));
    assert!(matches!(
        book.order(101, DishDto { name: String::from("pizza") }),
        Err(RestaurantError::TableNumberMismatchError)
    ));
    assert!(book.orders_at(1).unwrap().is_empty());
    assert!(book.orders_at(100).unwrap().is_empty());
}

#[test]
fn five_orders_of_lasagna_make_five_entries() {
    let mut book = OrderBook::new();
    for _ in 0..5 {
        assert!(book.order(42, DishDto { name: String::from("lasagna") }).is_ok());
    }
    let listed = book.orders_at(42).unwrap();
    assert_eq!(5, listed.len());
    assert!(listed.iter().all(|dish| dish.name() == "lasagna"));
    assert!(listed.iter().all(|dish| 5 <= dish.preparation() && dish.preparation() <= 15));
}
