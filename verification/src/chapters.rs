//! Exercises that follow the chapters of the Rust book.
pub mod structs;
pub mod enums;
pub mod restaurant;
pub mod generic_fns;
pub mod closures;
