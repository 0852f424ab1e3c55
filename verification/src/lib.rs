//! Loader and in-memory graph model for neural-network models.
//!
//! `model` holds the graph representation: storage, tensors, attributes,
//! operators and graphs. `pb` holds the messages of a model file as plain
//! values, and `loader` builds a graph from them. `nndevice` turns what the
//! engine that runs a graph answers into errors and tensors. Every function
//! carries a contract that Verus proves.

pub mod config;
pub mod error;
pub mod loader;
pub mod model;
pub mod nndevice;
pub mod pb;
pub mod pipline;
pub mod text;
