use rustlab::chapters::closures::{create_string, Inventory, ShirtColor};
use rustlab::chapters::enums::{
    describe_state_quarter, plus_one, play, value_in_cents, Coin, UsState,
};
use rustlab::chapters::generic_fns::{calculate_length, largest, longest};
use rustlab::chapters::restaurant::back_of_house::{fix_incorrect_order, Appetizer, Breakfast};
use rustlab::chapters::restaurant::customer::b;
use rustlab::chapters::structs::Rectangle;

#[test]
fn rectangle_area_and_fit() {
    let r = Rectangle { width: 30, height: 50 };
    assert_eq!(r.area(), 1500);
    let small = Rectangle { width: 10, height: 40 };
    let wide = Rectangle { width: 60, height: 45 };
    assert!(r.can_hold(&small));
    assert!(!r.can_hold(&wide));
    let sq = Rectangle::square(3);
    assert_eq!(sq.width, 3);
    assert_eq!(sq.height, 3);
}

#[test]
fn coins_are_worth_their_cents() {
    assert_eq!(value_in_cents(Coin::Penny), 1);
    assert_eq!(value_in_cents(Coin::Nickel), 5);
    assert_eq!(value_in_cents(Coin::Dime), 10);
    assert_eq!(value_in_cents(Coin::Quarter(UsState::Alabama)), 25);
}

#[test]
fn states_exist_from_their_year() {
    assert!(UsState::Alabama.existed_in(1900));
    assert!(!UsState::Alaska.existed_in(1900));
    assert!(UsState::Alaska.existed_in(1959));
    assert!(!UsState::Alabama.existed_in(1818));
    assert_eq!(UsState::Alaska.name(), "Alaska");
}

#[test]
fn plus_one_adds_inside_some() {
    assert_eq!(plus_one(Some(5)), Some(6));
    assert_eq!(plus_one(None), None);
    assert_eq!(plus_one(Some(-1)), Some(0));
}

#[test]
fn quarter_description_text() {
    assert_eq!(
        describe_state_quarter(),
        Some("Alabama is pretty old, for America!".to_string())
    );
    play();
}

#[test]
fn summer_breakfast_has_peaches() {
    let mut meal = Breakfast::summer("Rye");
    assert_eq!(meal.toast, "Rye");
    assert_eq!(meal.seasonal_fruit(), "peaches");
    meal.toast = String::from("Wheat");
    assert_eq!(meal.toast, "Wheat");
    let _starters = [Appetizer::Soup, Appetizer::Salad];
    fix_incorrect_order();
    b();
}

#[test]
fn largest_number_of_list() {
    assert_eq!(*largest(&[7, 6, 5, 4, 3, 2, 1]), 7);
    assert_eq!(*largest(&[-3, 9, 9, -20]), 9);
    assert_eq!(*largest(&[-5]), -5);
}

#[test]
fn longest_and_length_in_bytes() {
    let s1 = String::from("abcaaef");
    let s2 = String::from("deff");
    assert_eq!(longest(s1.as_str(), s2.as_str()), "abcaaef");
    assert_eq!(longest("ab", "cd"), "cd");
    assert_eq!(calculate_length(&String::from("hello")), 5);
    assert_eq!(calculate_length(&String::from("中")), 3);
}

#[test]
fn shirts_given_away() {
    let inv = Inventory {
        shirts: vec![ShirtColor::Red, ShirtColor::Red, ShirtColor::Blue],
    };
    assert_eq!(inv.giveaway(Some(ShirtColor::Blue)), ShirtColor::Blue);
    assert_eq!(inv.giveaway(None), ShirtColor::Red);
    let tie = Inventory {
        shirts: vec![ShirtColor::Red, ShirtColor::Blue],
    };
    assert_eq!(tie.most_stocked(), ShirtColor::Blue);
    let empty = Inventory { shirts: vec![] };
    assert_eq!(empty.most_stocked(), ShirtColor::Blue);
}

#[test]
fn created_string_is_hello() {
    let mut a = create_string();
    assert_eq!(a, "hello");
    a.push_str("world");
    assert_eq!(a, "helloworld");
}
