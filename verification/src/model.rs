//! The graph representation handed to an execution engine.

pub mod attribute;
pub mod data;
pub mod display;
pub mod element;
pub mod graph;
pub mod operator;
pub mod table;
pub mod tensor;
