//! A small issue tracker: epics that own stories by reference, a repository
//! that keeps the two tables consistent over a pluggable storage backend, and
//! the pages that turn a line of input into a typed action.

pub mod db;
pub mod integrity;
pub mod models;
pub mod state;
pub mod table;
pub mod ui;
