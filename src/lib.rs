//! An in-memory task list: tasks keyed by identifier, with running counters of
//! all, active and completed tasks kept beside the collection.

pub mod models;
pub mod repository;
pub mod app_state;
