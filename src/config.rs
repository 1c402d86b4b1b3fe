//! The settings that the sync loop is started with.
use vstd::prelude::*;

verus! {

/// Where the external bundles live, and whether to notify when that volume
/// goes away. Each reconciliation pass works from a snapshot of it.
#[derive(Debug)]
pub struct Config {
    pub external_apps_path: String,
    pub notify_on_disconnect: bool,
}

} // verus!
