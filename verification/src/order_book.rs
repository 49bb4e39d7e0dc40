//! The orders of every table, as one plain value: the state that the
//! restaurant's manager keeps behind its lock.

use crate::errors::RestaurantError;
use crate::restaurant_manager::DishDto;
use crate::{Dish, MAX_PREPARATION, MIN_PREPARATION};
use std::collections::HashMap;
use vstd::prelude::*;

verus! {

broadcast use vstd::std_specs::hash::group_hash_axioms;

/// The restaurant's first table.
pub const FIRST_TABLE: usize = 1;

/// The restaurant's last table.
pub const LAST_TABLE: usize = 100;

/// Whether the restaurant has a table of this number.
pub open spec fn is_table(table_number: usize) -> bool {
    FIRST_TABLE <= table_number <= LAST_TABLE
}

/// Whether the restaurant has a table of this number.
pub fn table_exists(table_number: usize) -> (found: bool)
    ensures
        found == is_table(table_number),
{
    FIRST_TABLE <= table_number && table_number <= LAST_TABLE
}

/// Whether a dish goes by another name than `name`.
pub open spec fn named_otherwise(dish: Dish, name: Seq<char>) -> bool {
    dish@.name != name
}

/// The orders that are left when every dish called `name` is taken out: the
/// others, in the order they had.
pub open spec fn without_name(orders: Seq<Dish>, name: Seq<char>) -> Seq<Dish> {
    orders.filter(|dish: Dish| named_otherwise(dish, name))
}

/// The orders among `orders` that are for a dish called `name`, in the order
/// they had.
pub open spec fn only_name(orders: Seq<Dish>, name: Seq<char>) -> Seq<Dish> {
    orders.filter(|dish: Dish| dish@.name == name)
}

/// Whether every dish of `dishes` takes a time to prepare that a dish can
/// take.
pub open spec fn all_well_prepared(dishes: Seq<Dish>) -> bool {
    forall|i: int|
        0 <= i < dishes.len() ==> MIN_PREPARATION <= (#[trigger] dishes[i])@.preparation
            <= MAX_PREPARATION
}

/// The dishes of `dishes` that are not called `name`, in their order.
fn dishes_without(dishes: Vec<Dish>, name: &String) -> (kept: Vec<Dish>)
    ensures
        kept@ == without_name(dishes@, name@),
{
    let ghost orders = dishes@;
    let mut kept: Vec<Dish> = Vec::new();
    proof {
        reveal(Seq::filter);
        assert(orders.take(0) =~= Seq::<Dish>::empty());
    }
    for dish in served: dishes
        invariant
            served.seq() == orders,
            kept@ == without_name(orders.take(served.index() as int), name@),
    {
        proof {
            let at = served.index() as int;
            assert(orders.take(at + 1) =~= orders.take(at).push(dish));
            orders.take(at).lemma_filter_push(dish, |dish: Dish| named_otherwise(dish, name@));
        }
        if !dish.is_named(name) {
            kept.push(dish);
        }
    }
    proof {
        assert(orders.take(orders.len() as int) =~= orders);
    }
    kept
}

/// A copy of `dishes`, dish by dish.
fn copy_of(dishes: &Vec<Dish>) -> (copy: Vec<Dish>)
    ensures
        copy@ == dishes@,
        all_well_prepared(copy@),
{
    let mut copy: Vec<Dish> = Vec::new();
    let mut at: usize = 0;
    while at < dishes.len()
        invariant
            at <= dishes.len(),
            copy@ == dishes@.take(at as int),
            all_well_prepared(copy@),
        decreases dishes.len() - at,
    {
        copy.push(dishes[at].clone());
        assert(copy@ =~= dishes@.take(at + 1));
        at += 1;
    }
    assert(dishes@.take(at as int) =~= dishes@);
    copy
}

/// The dishes ordered at each table. A table that nothing was ordered at has
/// no orders; every number has orders in this sense, a table or not.
pub struct OrderBook {
    tables: HashMap<usize, Vec<Dish>>,
}

impl OrderBook {
    /// The dishes ordered at a table and not taken back, oldest first.
    pub closed spec fn orders(&self, table_number: usize) -> Seq<Dish> {
        if self.tables@.contains_key(table_number) {
            self.tables@[table_number]@
        } else {
            Seq::empty()
        }
    }

    /// Whether `after` is this book with `dish` added at the end of the
    /// table's orders, and every other table's orders as they were.
    pub open spec fn placed(&self, after: &OrderBook, table_number: usize, dish: Dish) -> bool {
        forall|table: usize| #[trigger]
            after.orders(table) == if table == table_number {
                self.orders(table).push(dish)
            } else {
                self.orders(table)
            }
    }

    /// Whether `after` is this book with one dish more at the end of the
    /// table's orders, which is called `name` and takes a time to prepare
    /// that a dish can take, and every other table's orders as they were.
    pub open spec fn ordered(
        &self,
        after: &OrderBook,
        table_number: usize,
        name: Seq<char>,
    ) -> bool {
        let dish = after.orders(table_number).last();
        &&& after.orders(table_number).len() > 0
        &&& dish@.name == name
        &&& MIN_PREPARATION <= dish@.preparation <= MAX_PREPARATION
        &&& self.placed(after, table_number, dish)
    }

    /// Whether `after` is this book with every dish called `name` taken out
    /// of the table's orders, and every other table's orders as they were.
    pub open spec fn taken_back(
        &self,
        after: &OrderBook,
        table_number: usize,
        name: Seq<char>,
    ) -> bool {
        forall|table: usize| #[trigger]
            after.orders(table) == if table == table_number {
                without_name(self.orders(table), name)
            } else {
                self.orders(table)
            }
    }

    /// A book without orders.
    pub fn new() -> (book: OrderBook)
        ensures
            forall|table_number: usize| #[trigger]
                book.orders(table_number) == Seq::<Dish>::empty(),
    {
        OrderBook { tables: HashMap::new() }
    }

    /// Takes an order: a dish of the ordered name gets its preparation time
    /// and goes to the end of the table's orders. A number that is no table
    /// is refused and the book left as it was.
    pub fn order(&mut self, table_number: usize, dish: DishDto) -> (taken: Result<
        (),
        RestaurantError,
    >)
        ensures
            is_table(table_number) ==> taken is Ok && old(self).ordered(
                final(self),
                table_number,
                dish.name@,
            ),
            !is_table(table_number) ==> taken == Err::<(), RestaurantError>(
                RestaurantError::TableNumberMismatchError,
            ) && *final(self) == *old(self),
    {
        if !table_exists(table_number) {
            return Err(RestaurantError::TableNumberMismatchError);
        }
        let dish = Dish::of(dish.name);
        let placed = self.place(table_number, dish);
        proof {
            lemma_placed_dish_is_last(*old(self), *self, table_number, dish);
        }
        placed
    }

    /// Adds a dish at the end of a table's orders. A number that is no table
    /// is refused and the book left as it was.
    pub fn place(&mut self, table_number: usize, dish: Dish) -> (placed: Result<
        (),
        RestaurantError,
    >)
        ensures
            is_table(table_number) ==> placed is Ok && old(self).placed(
                final(self),
                table_number,
                dish,
            ),
            !is_table(table_number) ==> placed == Err::<(), RestaurantError>(
                RestaurantError::TableNumberMismatchError,
            ) && *final(self) == *old(self),
    {
        if !table_exists(table_number) {
            return Err(RestaurantError::TableNumberMismatchError);
        }
        let mut dishes: Vec<Dish> = match self.tables.remove(&table_number) {
            Some(dishes) => dishes,
            None => Vec::new(),
        };
        dishes.push(dish);
        self.tables.insert(table_number, dishes);
        Ok(())
    }

    /// Takes every dish called `name` out of a table's orders and leaves the
    /// others as they were; with no such dish nothing changes. A number that
    /// is no table is refused and the book left as it was.
    pub fn take_back(&mut self, table_number: usize, name: &String) -> (taken: Result<
        (),
        RestaurantError,
    >)
        ensures
            is_table(table_number) ==> taken is Ok && old(self).taken_back(
                final(self),
                table_number,
                name@,
            ),
            !is_table(table_number) ==> taken == Err::<(), RestaurantError>(
                RestaurantError::TableNumberMismatchError,
            ) && *final(self) == *old(self),
    {
        if !table_exists(table_number) {
            return Err(RestaurantError::TableNumberMismatchError);
        }
        match self.tables.remove(&table_number) {
            Some(dishes) => {
                let kept = dishes_without(dishes, name);
                self.tables.insert(table_number, kept);
            },
            None => {
                proof {
                    reveal(Seq::filter);
                }
            },
        }
        Ok(())
    }

    /// A copy of a table's orders, oldest first; empty where nothing was
    /// ordered. A number that is no table is refused.
    pub fn orders_at(&self, table_number: usize) -> (listed: Result<Vec<Dish>, RestaurantError>)
        ensures
            is_table(table_number) ==> listed is Ok && listed->Ok_0@ == self.orders(table_number)
                && all_well_prepared(listed->Ok_0@),
            !is_table(table_number) ==> listed == Err::<Vec<Dish>, RestaurantError>(
                RestaurantError::TableNumberMismatchError,
            ),
    {
        if !table_exists(table_number) {
            return Err(RestaurantError::TableNumberMismatchError);
        }
        match self.tables.get(&table_number) {
            Some(dishes) => Ok(copy_of(dishes)),
            None => Ok(Vec::new()),
        }
    }
}

/// A dish that was placed is the last of its table's orders, with the name
/// and the preparation time it came with, and the orders before it are those
/// that the table had.
pub proof fn lemma_placed_dish_is_last(
    before: OrderBook,
    after: OrderBook,
    table_number: usize,
    dish: Dish,
)
    requires
        before.placed(&after, table_number, dish),
    ensures
        after.orders(table_number).len() == before.orders(table_number).len() + 1,
        after.orders(table_number).last() == dish,
        after.orders(table_number).drop_last() == before.orders(table_number),
{
    assert(after.orders(table_number) == before.orders(table_number).push(dish));
    assert(before.orders(table_number).push(dish).drop_last() =~= before.orders(table_number));
}

/// The first order at a table is listed alone: one dish, of the name that
/// was ordered, with a time to prepare that a dish can take.
pub proof fn lemma_first_order_is_listed_alone(
    before: OrderBook,
    after: OrderBook,
    table_number: usize,
    name: Seq<char>,
)
    requires
        before.orders(table_number).len() == 0,
        before.ordered(&after, table_number, name),
    ensures
        after.orders(table_number).len() == 1,
        after.orders(table_number)[0]@.name == name,
        MIN_PREPARATION <= after.orders(table_number)[0]@.preparation <= MAX_PREPARATION,
{
    lemma_placed_dish_is_last(before, after, table_number, after.orders(table_number).last());
}

/// An order is listed under the very name it was made with: the table's
/// dishes of that name are those it had and the new one behind them, and its
/// dishes of any other name are as they were.
pub proof fn lemma_order_keeps_its_name(
    before: OrderBook,
    after: OrderBook,
    table_number: usize,
    name: Seq<char>,
    other: Seq<char>,
)
    requires
        before.ordered(&after, table_number, name),
        other != name,
    ensures
        after.orders(table_number).last()@.name == name,
        only_name(after.orders(table_number), name) == only_name(
            before.orders(table_number),
            name,
        ).push(after.orders(table_number).last()),
        only_name(after.orders(table_number), other) == only_name(
            before.orders(table_number),
            other,
        ),
{
    let dish = after.orders(table_number).last();
    assert(after.orders(table_number) == before.orders(table_number).push(dish));
    before.orders(table_number).lemma_filter_push(dish, |dish: Dish| dish@.name == name);
    before.orders(table_number).lemma_filter_push(dish, |dish: Dish| dish@.name == other);
}

/// Dishes placed one after another at one table lengthen its orders by
/// exactly those dishes, in the order they were placed: as many entries as
/// there were orders, whether or not some go by the same name. `books` holds
/// the book before the first order and after each one.
pub proof fn lemma_orders_pile_up(books: Seq<OrderBook>, table_number: usize, dishes: Seq<Dish>)
    requires
        books.len() == dishes.len() + 1,
        forall|i: int|
            0 <= i < dishes.len() ==> (#[trigger] books[i]).placed(
                &books[i + 1],
                table_number,
                dishes[i],
            ),
    ensures
        books.last().orders(table_number) == books[0].orders(table_number) + dishes,
        books.last().orders(table_number).len() == books[0].orders(table_number).len()
            + dishes.len(),
        forall|other: usize|
            other != table_number ==> #[trigger] books.last().orders(other) == books[0].orders(
                other,
            ),
    decreases dishes.len(),
{
    if dishes.len() == 0 {
        assert(books[0].orders(table_number) + dishes =~= books[0].orders(table_number));
    } else {
        let earlier = books.drop_last();
        let served = dishes.drop_last();
        assert forall|i: int| 0 <= i < served.len() implies (#[trigger] earlier[i]).placed(
            &earlier[i + 1],
            table_number,
            served[i],
        ) by {
            assert(books[i].placed(&books[i + 1], table_number, dishes[i]));
        }
        lemma_orders_pile_up(earlier, table_number, served);
        let last = dishes.len() - 1;
        assert(books[last].placed(&books[last + 1], table_number, dishes[last]));
        assert(earlier.last() == books[last]);
        assert(books.last().orders(table_number) == books[last].orders(table_number).push(
            dishes[last],
        ));
        assert((books[0].orders(table_number) + served).push(dishes[last])
            =~= books[0].orders(table_number) + dishes);
        assert forall|other: usize| other != table_number implies #[trigger] books.last().orders(
            other,
        ) == books[0].orders(other) by {
            assert(books.last().orders(other) == books[last].orders(other));
            assert(earlier.last().orders(other) == earlier[0].orders(other));
        }
    }
}

/// Dishes placed at two different tables end in the same orders whichever
/// is placed first: `here_first` and `both` are the books along the one way,
/// `there_first` and `both_swapped` those along the other.
pub proof fn lemma_tables_do_not_interfere(
    start: OrderBook,
    here: usize,
    dish_here: Dish,
    there: usize,
    dish_there: Dish,
    here_first: OrderBook,
    both: OrderBook,
    there_first: OrderBook,
    both_swapped: OrderBook,
)
    requires
        here != there,
        start.placed(&here_first, here, dish_here),
        here_first.placed(&both, there, dish_there),
        start.placed(&there_first, there, dish_there),
        there_first.placed(&both_swapped, here, dish_here),
    ensures
        forall|table: usize| #[trigger] both.orders(table) == both_swapped.orders(table),
{
    assert forall|table: usize| #[trigger] both.orders(table) == both_swapped.orders(table) by {
        assert(here_first.orders(table) == if table == here {
            start.orders(table).push(dish_here)
        } else {
            start.orders(table)
        });
        assert(there_first.orders(table) == if table == there {
            start.orders(table).push(dish_there)
        } else {
            start.orders(table)
        });
    }
}

/// Orders for a dish of one name, taken one after another at one table, add
/// one entry each: as many entries of that name as there were orders, behind
/// the orders that the table had, each with a time that a dish can take.
/// `books` holds the book before the first order and after each one.
pub proof fn lemma_same_name_ordered_again(
    books: Seq<OrderBook>,
    table_number: usize,
    name: Seq<char>,
)
    requires
        books.len() >= 1,
        forall|i: int|
            0 <= i < books.len() - 1 ==> (#[trigger] books[i]).ordered(
                &books[i + 1],
                table_number,
                name,
            ),
    ensures
        books.last().orders(table_number).len() == books[0].orders(table_number).len()
            + books.len() - 1,
        books.last().orders(table_number).take(books[0].orders(table_number).len() as int)
            == books[0].orders(table_number),
        forall|j: int|
            books[0].orders(table_number).len() <= j < books.last().orders(table_number).len()
                ==> {
                &&& (#[trigger] books.last().orders(table_number)[j])@.name == name
                &&& MIN_PREPARATION <= books.last().orders(table_number)[j]@.preparation
                    <= MAX_PREPARATION
            },
        forall|other: usize|
            other != table_number ==> #[trigger] books.last().orders(other) == books[0].orders(
                other,
            ),
{
    let dishes = Seq::new(
        (books.len() - 1) as nat,
        |i: int| books[i + 1].orders(table_number).last(),
    );
    assert forall|i: int| 0 <= i < dishes.len() implies (#[trigger] books[i]).placed(
        &books[i + 1],
        table_number,
        dishes[i],
    ) by {
        assert(books[i].ordered(&books[i + 1], table_number, name));
    }
    lemma_orders_pile_up(books, table_number, dishes);
    let before = books[0].orders(table_number);
    let after = books.last().orders(table_number);
    assert(after.take(before.len() as int) =~= before);
    assert forall|j: int| before.len() <= j < after.len() implies {
        &&& (#[trigger] after[j])@.name == name
        &&& MIN_PREPARATION <= after[j]@.preparation <= MAX_PREPARATION
    } by {
        let i = j - before.len();
        assert(after[j] == dishes[i]);
        assert(books[i].ordered(&books[i + 1], table_number, name));
    }
}

/// When the dishes called `name` are taken out, none of that name is left.
pub proof fn lemma_none_of_the_name_left(orders: Seq<Dish>, name: Seq<char>)
    ensures
        forall|i: int|
            0 <= i < without_name(orders, name).len() ==> (#[trigger] without_name(
                orders,
                name,
            )[i])@.name != name,
        only_name(without_name(orders, name), name).len() == 0,
    decreases orders.len(),
{
    reveal(Seq::filter);
    if orders.len() > 0 {
        lemma_none_of_the_name_left(orders.drop_last(), name);
        let kept = without_name(orders.drop_last(), name);
        if named_otherwise(orders.last(), name) {
            assert(without_name(orders, name) == kept.push(orders.last()));
            kept.lemma_filter_push(orders.last(), |dish: Dish| dish@.name == name);
        } else {
            assert(without_name(orders, name) == kept);
        }
    }
}

/// When the dishes called `name` are taken out, the orders for a dish of any
/// other name are as they were: the same dishes, as often, in the same order.
pub proof fn lemma_other_names_untouched(orders: Seq<Dish>, name: Seq<char>, other: Seq<char>)
    requires
        other != name,
    ensures
        only_name(without_name(orders, name), other) == only_name(orders, other),
    decreases orders.len(),
{
    reveal(Seq::filter);
    if orders.len() > 0 {
        lemma_other_names_untouched(orders.drop_last(), name, other);
        let kept = without_name(orders.drop_last(), name);
        if named_otherwise(orders.last(), name) {
            assert(without_name(orders, name) == kept.push(orders.last()));
            kept.lemma_filter_push(orders.last(), |dish: Dish| dish@.name == other);
        } else {
            assert(without_name(orders, name) == kept);
        }
    }
}

/// Where no dish is called `name`, taking the dishes of that name out
/// changes nothing.
pub proof fn lemma_no_match_no_change(orders: Seq<Dish>, name: Seq<char>)
    requires
        forall|i: int| 0 <= i < orders.len() ==> (#[trigger] orders[i])@.name != name,
    ensures
        without_name(orders, name) == orders,
    decreases orders.len(),
{
    reveal(Seq::filter);
    if orders.len() > 0 {
        let earlier = orders.drop_last();
        assert forall|i: int| 0 <= i < earlier.len() implies (#[trigger] earlier[i])@.name
            != name by {
            assert(earlier[i] == orders[i]);
        }
        lemma_no_match_no_change(earlier, name);
        assert(named_otherwise(orders.last(), name));
        assert(earlier.push(orders.last()) =~= orders);
    }
}

/// Taking the dishes of one name out a second time changes nothing.
pub proof fn lemma_taking_back_twice(orders: Seq<Dish>, name: Seq<char>)
    ensures
        without_name(without_name(orders, name), name) == without_name(orders, name),
{
    lemma_none_of_the_name_left(orders, name);
    lemma_no_match_no_change(without_name(orders, name), name);
}

} // verus!
