//! The kitchen: breakfasts, appetizers and orders.
use vstd::prelude::*;
use crate::chapters::restaurant::deliver_order;
use crate::chapters::restaurant::front_of_house::hosting;

verus! {

/// A wrong order is cooked again, delivered, and the guest put back on the waiting list.
pub fn fix_incorrect_order() {
    cook_order();
    deliver_order();
    hosting::add_to_waitlist();
}

/// An order is cooked.
pub fn cook_order() {
}

/// A breakfast: toast of the guest's choice and the fruit of the season.
pub struct Breakfast {
    pub toast: String,
    seasonal_fruit: String,
}

impl View for Breakfast {
    type V = (Seq<char>, Seq<char>);

    /// The toast and the fruit of the season.
    closed spec fn view(&self) -> (Seq<char>, Seq<char>) {
        (self.toast@, self.seasonal_fruit@)
    }
}

impl Breakfast {
    /// A summer breakfast with `toast`, served with peaches.
    pub fn summer(toast: &str) -> (r: Breakfast)
        ensures
            r@ == (toast@, "peaches"@),
    {
        Breakfast { toast: String::from_str(toast), seasonal_fruit: String::from_str("peaches") }
    }

    /// The fruit of the season.
    pub fn seasonal_fruit(&self) -> (r: &str)
        ensures
            r@ == self@.1,
    {
        self.seasonal_fruit.as_str()
    }
}

/// A starter.
pub enum Appetizer {
    Soup,
    Salad,
}

} // verus!
