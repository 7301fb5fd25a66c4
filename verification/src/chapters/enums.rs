//! Enums and pattern matching: coins, states and optional numbers.
use vstd::prelude::*;

verus! {

/// A US state on the back of a quarter.
#[derive(Debug, Clone, Copy, PartialEq, Eq, Structural)]
pub enum UsState {
    Alabama,
    Alaska,
}

/// The year a state joined the union.
pub open spec fn admission_year(state: UsState) -> u32 {
    match state {
        UsState::Alabama => 1819,
        UsState::Alaska => 1959,
    }
}

/// The name of a state, as its variant is written.
pub open spec fn state_name(state: UsState) -> Seq<char> {
    match state {
        UsState::Alabama => "Alabama"@,
        UsState::Alaska => "Alaska"@,
    }
}

impl UsState {
    /// Whether the state already existed in `year`.
    pub fn existed_in(&self, year: u32) -> (b: bool)
        ensures
            b == (year >= admission_year(*self)),
    {
        match self {
            UsState::Alabama => year >= 1819,
            UsState::Alaska => year >= 1959,
        }
    }

    /// The name of the state.
    pub fn name(&self) -> (r: &'static str)
        ensures
            r@ == state_name(*self),
    {
        match self {
            UsState::Alabama => "Alabama",
            UsState::Alaska => "Alaska",
        }
    }
}

/// A US coin; a quarter shows a state.
#[derive(Debug, Clone, Copy, PartialEq, Eq, Structural)]
pub enum Coin {
    Penny,
    Nickel,
    Dime,
    Quarter(UsState),
}

/// The worth of a coin in cents.
pub open spec fn cents(coin: Coin) -> u32 {
    match coin {
        Coin::Penny => 1,
        Coin::Nickel => 5,
        Coin::Dime => 10,
        Coin::Quarter(_) => 25,
    }
}

/// The worth of `coin` in cents.
pub fn value_in_cents(coin: Coin) -> (r: u32)
    ensures
        r == cents(coin),
{
    match coin {
        Coin::Penny => 1,
        Coin::Nickel => 5,
        Coin::Dime => 10,
        Coin::Quarter(_) => 25,
    }
}

/// One more than the number inside, or `None` for `None`.
pub fn plus_one(x: Option<i32>) -> (r: Option<i32>)
    requires
        x matches Some(i) ==> i < i32::MAX,
    ensures
        match x {
            Some(i) => r == Some((i + 1) as i32),
            None => r is None,
        },
{
    match x {
        Some(i) => Some(i + 1),
        None => None,
    }
}

/// A player gains a fancy hat.
pub fn add_fancy_hat() {
}

/// A player loses the fancy hat.
pub fn remove_fancy_hat() {
}

/// The dice are thrown again.
pub fn reroll() {
}

/// A player moves `num_spaces` spaces.
pub fn move_player(num_spaces: u8) {
}

/// One turn of the dice game with a roll of nine: a three gives a hat, a seven takes it
/// away, any other roll does nothing.
pub fn play() {
    let dice_cell: u8 = 9;
    match dice_cell {
        3 => add_fancy_hat(),
        7 => remove_fancy_hat(),
        _ => (),
    }
}

/// What the quarter of the oldest state says about its age.
pub open spec fn quarter_description() -> Seq<char> {
    "Alabama is pretty old, for America!"@
}

/// A sentence about the state on an Alabama quarter, judged by whether the state existed
/// in 1900.
pub fn describe_state_quarter() -> (r: Option<String>)
    ensures
        r matches Some(t) && t@ == quarter_description(),
{
    let coin = Coin::Quarter(UsState::Alabama);
    let state = match coin {
        Coin::Quarter(state) => state,
        _ => {
            return None;
        },
    };
    let mut text = String::from_str(state.name());
    if state.existed_in(1900) {
        text.append(" is pretty old, for America!");
    } else {
        text.append(" is relatively new.");
    }
    proof {
        reveal_strlit("Alabama");
        reveal_strlit(" is pretty old, for America!");
        reveal_strlit("Alabama is pretty old, for America!");
    }
    assert(text@ =~= quarter_description());
    Some(text)
}

} // verus!
