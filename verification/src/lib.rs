//! A todo list kept as one ordered list of JSON records in a list store,
//! with the front-end's state machine beside it.

pub mod api;
pub mod command;
pub mod error;
pub mod json;
pub mod list;
pub mod memory;
pub mod model;
pub mod repository;
pub mod schema;
pub mod storage;
pub mod theorems;
