//! USB identity of supported Kindles.
//!
//! Discovery itself reads the USB bus and lives with the application; this
//! module decides which devices are supported Kindles and how they are named.

use vstd::prelude::*;

verus! {

broadcast use vstd::string::group_string_axioms;

pub const AMAZON_VENDOR_ID: u16 = 0x1949;

pub const PAPERWHITE_12_PRODUCT_ID: u16 = 0x9981;

/// A Kindle found on the USB bus.
#[derive(Debug, Clone, PartialEq, Eq)]
pub struct UsbKindle {
    pub bus_number: u8,
    pub device_address: u8,
    pub vendor_id: u16,
    pub product_id: u16,
    pub manufacturer: Option<String>,
    pub product: Option<String>,
    pub serial: Option<String>,
}

/// The model name of a Kindle USB product id.
pub open spec fn spec_model_name(product_id: u16) -> Seq<char> {
    if product_id == PAPERWHITE_12_PRODUCT_ID {
        "Kindle Paperwhite (12th generation)"@
    } else {
        "Unknown Kindle"@
    }
}

impl UsbKindle {
    /// Friendly model name for the product id.
    pub fn model_name(&self) -> (res: &'static str)
        ensures
            res@ == spec_model_name(self.product_id),
    {
        if self.product_id == PAPERWHITE_12_PRODUCT_ID {
            "Kindle Paperwhite (12th generation)"
        } else {
            "Unknown Kindle"
        }
    }
}

/// Whether a USB device with these ids is a supported Kindle: an Amazon
/// device with the Paperwhite (12th generation) product id.
pub fn is_supported_kindle(vendor_id: u16, product_id: u16) -> (res: bool)
    ensures
        res == (vendor_id == AMAZON_VENDOR_ID && product_id == PAPERWHITE_12_PRODUCT_ID),
{
    vendor_id == AMAZON_VENDOR_ID && product_id == PAPERWHITE_12_PRODUCT_ID
}

} // verus!
