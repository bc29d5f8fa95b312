//! An in-memory task registry.
//!
//! [`tracker::TaskTracker`] owns a collection of [`task::Task`] records and the
//! counter from which their identifiers are minted. Every operation is
//! specified against a mathematical model of the registry,
//! [`model::TrackerView`], and proved to implement it; [`history`] proves what
//! holds over whole sequences of calls, and [`storage`] relates the vector
//! that holds the records to the map that the model speaks of.

pub mod history;
pub mod model;
pub mod storage;
pub mod task;
pub mod tracker;
