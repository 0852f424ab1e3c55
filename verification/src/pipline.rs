//! Loading the model that a configuration names.

use vstd::prelude::*;
use crate::config::Config;
use crate::error::LoadError;
use crate::loader::transform::dir_view;
use crate::loader::{load, loaded, ModelFile};
use crate::model::graph::Graph;
use crate::model::table::Table;

verus! {

/// Loads the graph of the model file that `config` names, from what reading
/// the file gave.
pub fn load_model(config: &Config, read: &ModelFile, dir: Option<&str>, files: &Table<Vec<u8>>) -> (r:
    Result<Graph, LoadError>)
    ensures
        match loaded(config.model_dir@, *read, dir_view(dir), files@) {
            Ok(graph) => r matches Ok(g) && g@ == graph,
            Err(error) => r matches Err(e) && e@ == error,
        },
{
    load(config.model_dir.as_str(), read, dir, files)
}

} // verus!
