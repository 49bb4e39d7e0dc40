//! In-memory order tracking for a restaurant: dishes ordered per table,
//! kept behind one reader/writer lock.

use rand::Rng;
use vstd::prelude::*;

pub mod errors;
pub mod handlers;
pub mod order_book;
pub mod restaurant_manager;

verus! {

/// Smallest preparation time a dish can be given.
pub const MIN_PREPARATION: i32 = 5;

/// Largest preparation time a dish can be given.
pub const MAX_PREPARATION: i32 = 15;

/// What a [`Dish`] is, as plain values.
pub struct DishView {
    pub name: Seq<char>,
    pub preparation: int,
}

/// A named dish and the time its preparation takes, fixed when the dish is
/// created.
#[derive(Debug)]
pub struct Dish {
    name: String,
    preparation: i32,
}

impl View for Dish {
    type V = DishView;

    closed spec fn view(&self) -> DishView {
        DishView { name: self.name@, preparation: self.preparation as int }
    }
}

/// Draws one number with `rand::Rng::gen_range` on the thread's generator,
/// which samples the half-open range from `low` up to, not including, `high`
/// and panics on an empty range. Nothing but the range is claimed of the
/// number drawn.
#[verifier::external_body]
fn draw_below(low: i32, high: i32) -> (drawn: i32)
    requires
        low < high,
    ensures
        low <= drawn < high,
{
    rand::thread_rng().gen_range(low, high)
}

impl Dish {
    /// Every dish takes between the smallest and the largest preparation
    /// time to prepare.
    #[verifier::type_invariant]
    spec fn well_prepared(self) -> bool {
        MIN_PREPARATION <= self.preparation <= MAX_PREPARATION
    }

    /// A dish of the given name, with a freshly drawn preparation time.
    pub fn of(name: String) -> (dish: Dish)
        ensures
            dish@.name == name@,
            MIN_PREPARATION <= dish@.preparation <= MAX_PREPARATION,
    {
        let preparation: i32 = draw_below(MIN_PREPARATION, MAX_PREPARATION + 1);
        Dish { name, preparation }
    }

    /// A dish of the given name that takes `preparation` to prepare, where
    /// that is a time a dish can take, and nothing where it is not.
    pub fn prepared_in(name: String, preparation: i32) -> (dish: Option<Dish>)
        ensures
            MIN_PREPARATION <= preparation <= MAX_PREPARATION ==> dish is Some && dish->Some_0@
                == (DishView { name: name@, preparation: preparation as int }),
            !(MIN_PREPARATION <= preparation <= MAX_PREPARATION) ==> dish is None,
    {
        if MIN_PREPARATION <= preparation && preparation <= MAX_PREPARATION {
            Some(Dish { name, preparation })
        } else {
            None
        }
    }

    /// The dish's name.
    pub fn name(&self) -> (name: &str)
        ensures
            name@ == self@.name,
    {
        self.name.as_str()
    }

    /// The time the dish takes to prepare.
    pub fn preparation(&self) -> (preparation: i32)
        ensures
            preparation == self@.preparation,
            MIN_PREPARATION <= preparation <= MAX_PREPARATION,
    {
        proof {
            use_type_invariant(self);
        }
        self.preparation
    }

    /// Whether the dish goes by exactly this name.
    pub fn is_named(&self, name: &String) -> (named: bool)
        ensures
            named == (self@.name == name@),
    {
        self.name == *name
    }
}

impl PartialEq for Dish {
    /// Two dishes are equal where their names and preparation times are.
    fn eq(&self, other: &Dish) -> (equal: bool) {
        self.name == other.name && self.preparation == other.preparation
    }
}

impl vstd::std_specs::cmp::PartialEqSpecImpl for Dish {
    open spec fn obeys_eq_spec() -> bool {
        true
    }

    open spec fn eq_spec(&self, other: &Dish) -> bool {
        self@ == other@
    }
}

impl Clone for Dish {
    fn clone(&self) -> (copy: Dish)
        ensures
            copy == *self,
            MIN_PREPARATION <= copy@.preparation <= MAX_PREPARATION,
    {
        proof {
            use_type_invariant(self);
        }
        Dish { name: self.name.clone(), preparation: self.preparation }
    }
}

} // verus!
