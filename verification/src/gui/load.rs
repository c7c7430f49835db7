//! What a refresh loads: identity, inventory and the local library.

use vstd::prelude::*;

use crate::gui::model::DeviceInfo;
use crate::inventory::KindleInventory;
use crate::library::LocalLibrary;
use crate::profile::DeviceIdentity;

verus! {

/// Result of a full refresh: attached-device identity, device inventory,
/// and the (reconciled) local library.
#[derive(Debug, Clone)]
pub struct LoadResult {
    pub device: Option<DeviceInfo>,
    pub inventory: Option<KindleInventory>,
    pub library: LocalLibrary,
    /// Friendly messages for non-fatal failures (e.g. device busy).
    pub errors: Vec<String>,
}

/// The UI only ever sees the friendly name and model, never the raw serial.
pub fn into_device_info(identity: DeviceIdentity) -> (res: DeviceInfo)
    ensures
        res.friendly_name == identity.friendly_name,
        res.model == identity.model,
{
    DeviceInfo { friendly_name: identity.friendly_name, model: identity.model }
}

} // verus!
