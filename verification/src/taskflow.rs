//! A task manager: tasks with a status, a priority, tags and an optional due date,
//! kept in memory and changed only through validated operations.
pub mod clock;

pub mod model;
pub mod error;
pub mod service;
