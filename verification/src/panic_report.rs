//! A status snapshot carried as an explicit value: the embedding
//! application keeps a slot with the last rendered machine status, so a
//! failure report can show the state without reaching into the engine.

use vstd::prelude::*;

verus! {

/// Record `status` as the last known machine status.
pub fn set_last_status(slot: &mut Option<String>, status: String)
    ensures
        *final(slot) == Some(status),
{
    *slot = Some(status);
}

/// The last recorded machine status, if any.
pub fn get_last_status(slot: &Option<String>) -> (r: Option<String>)
    ensures
        r == *slot,
{
    match slot {
        Some(s) => Some(s.clone()),
        None => None,
    }
}

} // verus!
