//! Exercises on generics, smart pointers, traits and text processing.
pub mod binary_tree;
pub mod stack;
pub mod cache;
pub mod lifetimes;
pub mod graph;
pub mod custom_iterator;
pub mod from_into;
pub mod fib;
pub mod words;
