//! The flag by which a host stops a running program.

use vstd::prelude::*;
use std::sync::Arc;
use std::sync::atomic::AtomicBool;

verus! {

/// A flag shared with the host; the host sets it to stop the program.
pub type CancellationToken = Arc<AtomicBool>;

/// Whether the host has asked for a stop. Without a flag nobody can ask.
/// With one the answer is whatever the flag holds at this moment.
pub fn stop_requested(flag: &Option<CancellationToken>) -> (r: bool)
    ensures
        flag is None ==> !r,
{
    match flag {
        Some(token) => token.load(std::sync::atomic::Ordering::Relaxed),
        None => false,
    }
}

} // verus!
