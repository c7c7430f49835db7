//! Summaries of an opened MTP device.

use vstd::prelude::*;

verus! {

/// One storage of an MTP device.
#[derive(Debug, Clone)]
pub struct MtpStorageSummary {
    pub description: String,
    pub total_capacity_bytes: u64,
    pub free_space_bytes: u64,
}

/// What probing the first MTP device found.
#[derive(Debug, Clone)]
pub struct MtpProbe {
    pub manufacturer: String,
    pub model: String,
    pub storages: Vec<MtpStorageSummary>,
}

} // verus!
