//! Small verified programs and data structures: book chapter exercises,
//! a generic playground, a task manager, a key-value store and market-data helpers.
pub mod chapters;
pub mod text;
pub mod playground;
pub mod taskflow;
pub mod kv;
pub mod quant;
