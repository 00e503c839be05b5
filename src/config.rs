use vstd::prelude::*;

verus! {

/// Settings read once at start-up and fixed for the life of the process.
pub struct Config {
    pub source_folder: String,
    pub destination_folder: String,
    pub sync_interval_seconds: u64,
}

} // verus!
