//! The largest number of a list, the longer of two texts, and the length of a text.
use vstd::prelude::*;

verus! {

/// The largest number of a non-empty `list`.
pub fn largest(list: &[i32]) -> (r: &i32)
    requires
        list@.len() > 0,
    ensures
        list@.contains(*r),
        forall|i: int| 0 <= i < list@.len() ==> list@[i] <= *r,
{
    let mut largest = &list[0];
    let mut i: usize = 1;
    while i < list.len()
        invariant
            1 <= i <= list@.len(),
            list@.len() > 0,
            list@.contains(*largest),
            forall|k: int| 0 <= k < i ==> list@[k] <= *largest,
        decreases list@.len() - i,
    {
        let item = &list[i];
        if *item > *largest {
            largest = item;
        }
        i = i + 1;
    }
    largest
}

/// The longer of two texts by length in bytes; the second when both are as long.
pub fn longest<'a>(str1: &'a str, str2: &'a str) -> (r: &'a str)
    ensures
        r@ == (if str1.len() > str2.len() { str1@ } else { str2@ }),
{
    if str1.len() > str2.len() {
        str1
    } else {
        str2
    }
}

/// The length of `s` in bytes.
pub fn calculate_length(s: &String) -> (n: usize)
    ensures
        n == vstd::utf8::encode_utf8(s@).len() as usize,
{
    s.as_str().len()
}

} // verus!
