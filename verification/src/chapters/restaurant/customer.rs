//! What a guest does.
use vstd::prelude::*;
use crate::chapters::restaurant::front_of_house::hosting;

verus! {

/// A guest arrives and is put on the waiting list.
pub fn b() {
    hosting::add_to_waitlist();
}

} // verus!
