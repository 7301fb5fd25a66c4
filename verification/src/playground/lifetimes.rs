//! Functions and a holder that hand back references into their arguments.
use vstd::prelude::*;
use crate::text::chars_of;

verus! {

/// The longer of `x` and `y` by length in bytes; `y` when both are as long.
pub fn longest<'a>(x: &'a str, y: &'a str) -> (r: &'a str)
    ensures
        r@ == (if x.len() > y.len() { x@ } else { y@ }),
{
    if x.len() > y.len() {
        x
    } else {
        y
    }
}

/// Holds a borrowed text.
pub struct TextHolder<'a> {
    text: &'a str,
}

impl<'a> View for TextHolder<'a> {
    type V = Seq<char>;

    /// The held text.
    closed spec fn view(&self) -> Seq<char> {
        self.text@
    }
}

impl<'a> TextHolder<'a> {
    /// A holder of `text`.
    pub fn new(text: &'a str) -> (r: Self)
        ensures
            r@ == text@,
    {
        TextHolder { text }
    }

    /// The held text.
    pub fn get_text(&self) -> (r: &'a str)
        ensures
            r@ == self@,
    {
        self.text
    }
}

/// The position of the first space in `s`, or its length when it has none.
pub open spec fn first_space(s: Seq<char>) -> int
    decreases s.len(),
{
    if s.len() == 0 {
        0
    } else if s[0] == ' ' {
        0
    } else {
        1 + first_space(s.drop_first())
    }
}

proof fn lemma_first_space(s: Seq<char>, i: int)
    requires
        0 <= i <= s.len(),
        forall|k: int| 0 <= k < i ==> s[k] != ' ',
        i == s.len() || s[i] == ' ',
    ensures
        first_space(s) == i,
    decreases s.len(),
{
    if s.len() > 0 && i > 0 {
        assert forall|k: int| 0 <= k < i - 1 implies s.drop_first()[k] != ' ' by {
            assert(s.drop_first()[k] == s[k + 1]);
        }
        lemma_first_space(s.drop_first(), i - 1);
    }
}

/// The first word of `s`: everything before its first space, or all of `s` when it has
/// no space.
pub fn first_word(s: &str) -> (r: &str)
    ensures
        r@ == s@.take(first_space(s@)),
{
    let cs = chars_of(s);
    let mut i: usize = 0;
    while i < cs.len() && cs[i] != ' '
        invariant
            cs@ == s@,
            i <= cs.len(),
            forall|k: int| 0 <= k < i ==> s@[k] != ' ',
        decreases cs.len() - i,
    {
        i = i + 1;
    }
    proof {
        lemma_first_space(s@, i as int);
    }
    s.substring_char(0, i)
}

} // verus!
