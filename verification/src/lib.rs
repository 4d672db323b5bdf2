//! An in-memory to-do record store with a counter, an HTML fragment
//! renderer, and a route dispatcher that ties them together.

pub mod counter;
pub mod db;
pub mod form;
pub mod render;
pub mod routes;
pub mod text;
