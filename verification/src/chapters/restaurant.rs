//! A restaurant split into modules: the front of house seats guests, the back of house
//! cooks and serves.
pub mod front_of_house;
pub mod back_of_house;
pub mod customer;
use vstd::prelude::*;

verus! {

/// An order goes out to the table.
pub fn deliver_order() {
}

} // verus!
