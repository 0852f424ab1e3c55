//! What a caller sets before a model is loaded and run.

use vstd::prelude::*;
use crate::model::table::Table;

verus! {

/// The settings for loading a model and for the engine that runs it. Only the
/// place of the model is read here; the rest goes to the engine as it is.
#[derive(Debug)]
pub struct Config {
    /// Where the model file is.
    pub model_dir: String,
    /// The name of the backend that runs the model.
    pub backend: String,
    /// The number of the device.
    pub device_id: i32,
    /// Further options for the engine, by name.
    pub ops: Table<String>,
}

impl Default for Config {
    /// Settings that name no model and no backend, for device 0.
    fn default() -> (r: Self)
        ensures
            r.model_dir@ == Seq::<char>::empty(),
            r.backend@ == Seq::<char>::empty(),
            r.device_id == 0,
            r.ops@ == Map::<Seq<char>, String>::empty(),
    {
        Config { model_dir: String::new(), backend: String::new(), device_id: 0, ops: Table::new() }
    }
}

impl Config {
    /// Settings for the device `device_id` of `backend`, with no model and no
    /// options yet.
    pub fn new(backend: &str, device_id: i32) -> (r: Self)
        ensures
            r.model_dir@ == Seq::<char>::empty(),
            r.backend@ == backend@,
            r.device_id == device_id,
            r.ops@ == Map::<Seq<char>, String>::empty(),
    {
        Config {
            model_dir: String::new(),
            backend: String::from_str(backend),
            device_id,
            ops: Table::new(),
        }
    }

    /// Sets the option `key` to `value`.
    pub fn add_option(&mut self, key: &str, value: &str)
        ensures
            final(self).ops@.dom() == old(self).ops@.dom().insert(key@),
            final(self).ops@[key@]@ == value@,
            forall|k: Seq<char>|
                k != key@ && old(self).ops@.contains_key(k) ==> #[trigger] final(self).ops@[k]
                    == old(self).ops@[k],
            final(self).model_dir == old(self).model_dir,
            final(self).backend == old(self).backend,
            final(self).device_id == old(self).device_id,
    {
        self.ops.insert(String::from_str(key), String::from_str(value));
    }

    /// The value of the option `key`, if it is set.
    pub fn get_option(&self, key: &str) -> (r: Option<&String>)
        ensures
            r is Some == self.ops@.contains_key(key@),
            r matches Some(v) ==> *v == self.ops@[key@],
    {
        self.ops.get(key)
    }
}

} // verus!
