//! Settings that come from the environment.

use vstd::prelude::*;

verus! {

/// The value of a setting: what was found for it in the environment, or
/// `fallback` where nothing was found.
pub fn get_env_var(found: Option<String>, fallback: &str) -> (value: String)
    ensures
        value@ == (match found {
            Some(text) => text@,
            None => fallback@,
        }),
{
    match found {
        Some(text) => text,
        None => fallback.to_owned(),
    }
}

} // verus!
