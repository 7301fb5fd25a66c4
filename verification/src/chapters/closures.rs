//! Shirts given away from an inventory, by preference or by what is most in stock.
use vstd::prelude::*;

verus! {

/// The colour of a shirt.
#[derive(Debug, Clone, Copy, PartialEq, Eq, Structural)]
pub enum ShirtColor {
    Red,
    Blue,
}

/// How many shirts of `color` there are.
pub open spec fn count_of(shirts: Seq<ShirtColor>, color: ShirtColor) -> nat
    decreases shirts.len(),
{
    if shirts.len() == 0 {
        0
    } else {
        count_of(shirts.drop_last(), color) + (if shirts.last() == color { 1nat } else { 0nat })
    }
}

/// The colour there is most of; blue when there are as many blue shirts as red ones.
pub open spec fn most_stocked_color(shirts: Seq<ShirtColor>) -> ShirtColor {
    if count_of(shirts, ShirtColor::Red) > count_of(shirts, ShirtColor::Blue) {
        ShirtColor::Red
    } else {
        ShirtColor::Blue
    }
}

proof fn lemma_count_bound(shirts: Seq<ShirtColor>, color: ShirtColor)
    ensures
        count_of(shirts, color) <= shirts.len(),
    decreases shirts.len(),
{
    if shirts.len() > 0 {
        lemma_count_bound(shirts.drop_last(), color);
    }
}

/// The colour that is not `c`.
pub open spec fn other_color(c: ShirtColor) -> ShirtColor {
    match c {
        ShirtColor::Red => ShirtColor::Blue,
        ShirtColor::Blue => ShirtColor::Red,
    }
}

/// Every shirt is red or blue: the two counts add up to the number of shirts.
pub proof fn law_counts_cover_all(shirts: Seq<ShirtColor>)
    ensures
        count_of(shirts, ShirtColor::Red) + count_of(shirts, ShirtColor::Blue) == shirts.len(),
    decreases shirts.len(),
{
    if shirts.len() > 0 {
        law_counts_cover_all(shirts.drop_last());
    }
}

/// The most-stocked colour has at least as many shirts as the other colour, and it is blue
/// exactly when there are no more red shirts than blue ones; so a colour with no shirts is
/// given only when there are no shirts at all.
pub proof fn law_most_stocked_has_most(shirts: Seq<ShirtColor>)
    ensures
        count_of(shirts, most_stocked_color(shirts)) >= count_of(shirts, other_color(most_stocked_color(shirts))),
        (most_stocked_color(shirts) == ShirtColor::Red) == (count_of(shirts, ShirtColor::Red) > count_of(shirts, ShirtColor::Blue)),
        shirts.len() > 0 ==> count_of(shirts, most_stocked_color(shirts)) > 0,
{
    law_counts_cover_all(shirts);
}

/// The shirts in stock.
pub struct Inventory {
    pub shirts: Vec<ShirtColor>,
}

impl Inventory {
    /// The colour the user asked for, or else the one most in stock.
    pub fn giveaway(&self, user_preference: Option<ShirtColor>) -> (r: ShirtColor)
        ensures
            r == match user_preference {
                Some(c) => c,
                None => most_stocked_color(self.shirts@),
            },
            user_preference is None ==> count_of(self.shirts@, r) >= count_of(self.shirts@, other_color(r)),
    {
        match user_preference {
            Some(c) => c,
            None => self.most_stocked(),
        }
    }

    /// The colour with the most shirts; blue on a tie.
    pub fn most_stocked(&self) -> (r: ShirtColor)
        ensures
            r == most_stocked_color(self.shirts@),
            count_of(self.shirts@, r) >= count_of(self.shirts@, other_color(r)),
            count_of(self.shirts@, ShirtColor::Red) == count_of(self.shirts@, ShirtColor::Blue) ==> r == ShirtColor::Blue,
    {
        let mut num_red: usize = 0;
        let mut num_blue: usize = 0;
        let mut i: usize = 0;
        while i < self.shirts.len()
            invariant
                i <= self.shirts@.len(),
                num_red == count_of(self.shirts@.take(i as int), ShirtColor::Red),
                num_blue == count_of(self.shirts@.take(i as int), ShirtColor::Blue),
            decreases self.shirts@.len() - i,
        {
            proof {
                let t = self.shirts@.take(i + 1);
                assert(t.drop_last() =~= self.shirts@.take(i as int));
                lemma_count_bound(self.shirts@.take(i as int), ShirtColor::Red);
                lemma_count_bound(self.shirts@.take(i as int), ShirtColor::Blue);
            }
            match self.shirts[i] {
                ShirtColor::Red => num_red = num_red + 1,
                ShirtColor::Blue => num_blue = num_blue + 1,
            }
            i = i + 1;
        }
        assert(self.shirts@.take(i as int) =~= self.shirts@);
        proof {
            law_most_stocked_has_most(self.shirts@);
        }
        if num_red > num_blue {
            ShirtColor::Red
        } else {
            ShirtColor::Blue
        }
    }
}

/// A new string holding `hello`.
pub fn create_string() -> (r: String)
    ensures
        r@ == "hello"@,
{
    String::from_str("hello")
}

} // verus!
