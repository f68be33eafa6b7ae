//! Array lookup helper over the configuration store.

use vstd::prelude::*;

use crate::conf::{conf_lookup, config_get, config_model, ConfValue};

verus! {

/// Gets an array from the configuration using a key, returning `None`
/// if the key wasn't present or doesn't hold an array of strings.
pub fn ref_get_array(key: &str, config: &config::Config) -> (r: Option<Vec<String>>)
    ensures
        r == (match conf_lookup(config_model(config), key@) {
            Some(ConfValue::List(v)) => Some(v),
            _ => None::<Vec<String>>,
        }),
{
    match config_get(config, key) {
        Some(ConfValue::List(v)) => Some(v),
        _ => None,
    }
}

} // verus!
