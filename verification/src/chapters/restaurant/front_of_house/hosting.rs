//! Seating guests.
use vstd::prelude::*;

verus! {

/// A guest is put on the waiting list.
pub fn add_to_waitlist() {
}

} // verus!
