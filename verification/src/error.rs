//! Kindred's unified error type for device-facing operations.
//!
//! Low-level failures from the USB (`rusb`) and MTP (`mtp-rs`) layers are
//! translated into Kindle-aware categories so the application can produce
//! friendly messages while keeping the low-level diagnostic context.
//! Failures without a specific Kindred category are preserved inside
//! `Usb` / `Mtp`.

use vstd::prelude::*;

use crate::external::io_error_text;
use crate::text::{pad_chars, pad_left, radix_chars, radix_digits, string_of};

verus! {

broadcast use vstd::string::group_string_axioms;

/// `mtp_rs::Error`, the failure type of MTP operations.
#[verifier::external_type_specification]
#[verifier::external_body]
pub struct ExMtpError(mtp_rs::Error);

/// `rusb::Error`, the failure type of USB operations.
#[verifier::external_type_specification]
#[verifier::external_body]
pub struct ExUsbError(rusb::Error);

/// A Kindle-aware error from Kindred's device layer.
///
/// Categories mirror the failure modes hardware applications must expect:
/// no device, unsupported model, mid-operation disconnect, a device held by
/// another client, permissions, full storage, timeouts, stale handles, and
/// malformed object metadata.
#[derive(Debug)]
pub enum KindredError {
    /// No supported Kindle is connected.
    NoDevice,
    /// A Kindle is connected but its model is not supported.
    UnsupportedModel {
        /// USB product id of the unsupported model.
        product_id: u16,
    },
    /// The MTP interface is held by another client (e.g. GVFS on Linux, a
    /// file manager, or another MTP service).
    DeviceBusy,
    /// The OS denied access to the device (e.g. missing Linux udev rules).
    PermissionDenied,
    /// The device refused the operation (read-only storage, write-protected
    /// object, or a Kindling safety guard).
    AccessDenied,
    /// The target storage is full.
    StorageFull,
    /// The device disappeared or stopped responding mid-operation.
    Disconnected,
    /// The operation timed out.
    Timeout,
    /// A previously-valid object handle is no longer valid (the device
    /// re-keyed it); re-list the parent and retry.
    StaleObject,
    /// The requested object or folder was not found on the device.
    NotFound,
    /// Object metadata was malformed or unexpected.
    InvalidObject {
        /// What was invalid.
        message: String,
    },
    /// A local file/OS I/O failure.
    Io(std::io::Error),
    /// USB-layer failure without a more specific Kindred category.
    Usb(rusb::Error),
    /// MTP-layer failure without a more specific Kindred category.
    Mtp(mtp_rs::Error),
}

/// The `mtp_rs::Error` variants that Kindred sorts into its own categories,
/// each as its own case; every other variant is carried unchanged.
pub enum MtpFailure {
    NoDevice,
    Disconnected,
    DeviceReset,
    Timeout,
    StorageFull,
    AccessDenied,
    PermissionDenied,
    ExclusiveAccess,
    Busy,
    StaleHandle,
    InvalidData { message: String },
    Unmapped(mtp_rs::Error),
}

/// The `rusb::Error` variants that Kindred sorts into its own categories,
/// each as its own case; every other variant is carried unchanged.
pub enum UsbFailure {
    NoDevice,
    Access,
    Timeout,
    Busy,
    Unmapped(rusb::Error),
}

/// The case an `mtp_rs::Error` falls under: its variant, with the
/// `InvalidData` message, or the error itself when Kindred has no case for
/// it. A pure function of the error value.
pub uninterp spec fn mtp_failure_of(error: mtp_rs::Error) -> MtpFailure;

/// The case a `rusb::Error` falls under: its variant, or the error itself
/// when Kindred has no case for it. A pure function of the error value.
pub uninterp spec fn usb_failure_of(error: rusb::Error) -> UsbFailure;

/// Tell the variants of an `mtp_rs::Error` apart.
///
/// Trusted: a plain match on `mtp_rs::Error` with one arm per listed
/// variant, moving the `InvalidData` message; every other variant is moved
/// unchanged into `Unmapped`. Its result is named `mtp_failure_of(error)`;
/// besides that, only the `Unmapped` fact is stated.
#[verifier::external_body]
pub(crate) fn classify_mtp_error(error: mtp_rs::Error) -> (res: MtpFailure)
    ensures
        res == mtp_failure_of(error),
        res matches MtpFailure::Unmapped(e) ==> e == error,
{
    match error {
        mtp_rs::Error::NoDevice => MtpFailure::NoDevice,
        mtp_rs::Error::Disconnected => MtpFailure::Disconnected,
        mtp_rs::Error::DeviceReset => MtpFailure::DeviceReset,
        mtp_rs::Error::Timeout => MtpFailure::Timeout,
        mtp_rs::Error::StorageFull => MtpFailure::StorageFull,
        mtp_rs::Error::AccessDenied => MtpFailure::AccessDenied,
        mtp_rs::Error::PermissionDenied => MtpFailure::PermissionDenied,
        mtp_rs::Error::ExclusiveAccess => MtpFailure::ExclusiveAccess,
        mtp_rs::Error::Busy => MtpFailure::Busy,
        mtp_rs::Error::StaleHandle => MtpFailure::StaleHandle,
        mtp_rs::Error::InvalidData { message } => MtpFailure::InvalidData { message },
        other => MtpFailure::Unmapped(other),
    }
}

/// Tell the variants of a `rusb::Error` apart.
///
/// Trusted: a plain match on `rusb::Error` with one arm per listed variant;
/// every other variant is moved unchanged into `Unmapped`. Its result is
/// named `usb_failure_of(error)`; besides that, only the `Unmapped` fact is
/// stated.
#[verifier::external_body]
pub(crate) fn classify_usb_error(error: rusb::Error) -> (res: UsbFailure)
    ensures
        res == usb_failure_of(error),
        res matches UsbFailure::Unmapped(e) ==> e == error,
{
    match error {
        rusb::Error::NoDevice => UsbFailure::NoDevice,
        rusb::Error::Access => UsbFailure::Access,
        rusb::Error::Timeout => UsbFailure::Timeout,
        rusb::Error::Busy => UsbFailure::Busy,
        other => UsbFailure::Unmapped(other),
    }
}

/// The Kindred category of a classified MTP failure.
pub open spec fn spec_from_mtp_failure(f: MtpFailure) -> KindredError {
    match f {
        MtpFailure::NoDevice => KindredError::NoDevice,
        MtpFailure::Disconnected => KindredError::Disconnected,
        MtpFailure::DeviceReset => KindredError::Disconnected,
        MtpFailure::Timeout => KindredError::Timeout,
        MtpFailure::StorageFull => KindredError::StorageFull,
        MtpFailure::AccessDenied => KindredError::AccessDenied,
        MtpFailure::PermissionDenied => KindredError::PermissionDenied,
        MtpFailure::ExclusiveAccess => KindredError::DeviceBusy,
        MtpFailure::Busy => KindredError::DeviceBusy,
        MtpFailure::StaleHandle => KindredError::StaleObject,
        MtpFailure::InvalidData { message } => KindredError::InvalidObject { message },
        MtpFailure::Unmapped(e) => KindredError::Mtp(e),
    }
}

/// The Kindred category of a classified USB failure.
pub open spec fn spec_from_usb_failure(f: UsbFailure) -> KindredError {
    match f {
        UsbFailure::NoDevice => KindredError::NoDevice,
        UsbFailure::Access => KindredError::PermissionDenied,
        UsbFailure::Timeout => KindredError::Timeout,
        UsbFailure::Busy => KindredError::DeviceBusy,
        UsbFailure::Unmapped(e) => KindredError::Usb(e),
    }
}

/// The Kindred categories an MTP-layer failure is sorted into.
pub open spec fn is_mtp_category(e: KindredError) -> bool {
    e is NoDevice || e is Disconnected || e is Timeout || e is StorageFull || e is AccessDenied
        || e is PermissionDenied || e is DeviceBusy || e is StaleObject || e is InvalidObject
}

/// The Kindred categories a USB-layer failure is sorted into.
pub open spec fn is_usb_category(e: KindredError) -> bool {
    e is NoDevice || e is PermissionDenied || e is Timeout || e is DeviceBusy
}

impl KindredError {
    /// Sort a classified MTP failure into a Kindred category.
    pub fn from_mtp_failure(failure: MtpFailure) -> (res: KindredError)
        ensures
            res == spec_from_mtp_failure(failure),
    {
        match failure {
            MtpFailure::NoDevice => KindredError::NoDevice,
            MtpFailure::Disconnected => KindredError::Disconnected,
            MtpFailure::DeviceReset => KindredError::Disconnected,
            MtpFailure::Timeout => KindredError::Timeout,
            MtpFailure::StorageFull => KindredError::StorageFull,
            MtpFailure::AccessDenied => KindredError::AccessDenied,
            MtpFailure::PermissionDenied => KindredError::PermissionDenied,
            MtpFailure::ExclusiveAccess => KindredError::DeviceBusy,
            MtpFailure::Busy => KindredError::DeviceBusy,
            MtpFailure::StaleHandle => KindredError::StaleObject,
            MtpFailure::InvalidData { message } => KindredError::InvalidObject { message },
            MtpFailure::Unmapped(e) => KindredError::Mtp(e),
        }
    }

    /// Sort a classified USB failure into a Kindred category.
    pub fn from_usb_failure(failure: UsbFailure) -> (res: KindredError)
        ensures
            res == spec_from_usb_failure(failure),
    {
        match failure {
            UsbFailure::NoDevice => KindredError::NoDevice,
            UsbFailure::Access => KindredError::PermissionDenied,
            UsbFailure::Timeout => KindredError::Timeout,
            UsbFailure::Busy => KindredError::DeviceBusy,
            UsbFailure::Unmapped(e) => KindredError::Usb(e),
        }
    }

    /// Translate an MTP-layer failure: sorted by its case into a Kindred
    /// category, or, when it has none, carried unchanged inside `Mtp`.
    pub fn from_mtp(error: mtp_rs::Error) -> (res: KindredError)
        ensures
            res == spec_from_mtp_failure(mtp_failure_of(error)),
            is_mtp_category(res) || res == KindredError::Mtp(error),
    {
        KindredError::from_mtp_failure(classify_mtp_error(error))
    }

    /// Translate a USB-layer failure: sorted by its case into a Kindred
    /// category, or, when it has none, carried unchanged inside `Usb`.
    pub fn from_usb(error: rusb::Error) -> (res: KindredError)
        ensures
            res == spec_from_usb_failure(usb_failure_of(error)),
            is_usb_category(res) || res == KindredError::Usb(error),
    {
        KindredError::from_usb_failure(classify_usb_error(error))
    }

    /// Translate a failed MTP upload: the failure that stopped it, sorted as
    /// `from_mtp` sorts it.
    pub fn from_upload(error: mtp_rs::UploadError) -> (res: KindredError)
        ensures
            res == spec_from_mtp_failure(mtp_failure_of(upload_source_of(error))),
            is_mtp_category(res) || res == KindredError::Mtp(upload_source_of(error)),
    {
        KindredError::from_mtp(upload_error_source(error))
    }

    /// Carry a local I/O failure.
    pub fn from_io(error: std::io::Error) -> (res: KindredError)
        ensures
            res == KindredError::Io(error),
    {
        KindredError::Io(error)
    }
}

/// `mtp_rs::UploadError`, the failure of an MTP upload.
#[verifier::external_type_specification]
#[verifier::external_body]
pub struct ExUploadError(mtp_rs::UploadError);

/// The failure that stopped an upload: the `source` field of an
/// `mtp_rs::UploadError`.
pub uninterp spec fn upload_source_of(error: mtp_rs::UploadError) -> mtp_rs::Error;

/// The `Display` text of an `mtp_rs::Error`: a fixed text per variant, with
/// the variant's own fields written in. A pure function of the error value.
pub uninterp spec fn mtp_error_display(error: mtp_rs::Error) -> Seq<char>;

/// The `Display` text of a `rusb::Error`: a fixed text per variant.
pub uninterp spec fn usb_error_display(error: rusb::Error) -> Seq<char>;

/// The failure inside an `mtp_rs::UploadError` (its `source` field).
///
/// Trusted: reads the public `source` field; its result is named
/// `upload_source_of(error)`.
#[verifier::external_body]
fn upload_error_source(error: mtp_rs::UploadError) -> (res: mtp_rs::Error)
    ensures
        res == upload_source_of(error),
{
    error.source
}

/// The `Display` text of an MTP error (`ToString::to_string`).
///
/// Trusted: returns what `mtp_rs::Error`'s derived `Display` writes, named
/// `mtp_error_display(*error)`.
#[verifier::external_body]
fn mtp_error_text(error: &mtp_rs::Error) -> (res: String)
    ensures
        res@ == mtp_error_display(*error),
{
    error.to_string()
}

/// The `Display` text of a USB error (`ToString::to_string`).
///
/// Trusted: returns what `rusb::Error`'s `Display` writes, named
/// `usb_error_display(*error)`.
#[verifier::external_body]
fn usb_error_text(error: &rusb::Error) -> (res: String)
    ensures
        res@ == usb_error_display(*error),
{
    error.to_string()
}

/// `0x` and the product id as four lowercase hex digits, in brackets.
pub open spec fn product_id_text(product_id: u16) -> Seq<char> {
    "unsupported Kindle model (USB product id 0x"@ + pad_left(
        radix_digits(product_id as nat, 16, false),
        4,
        '0',
    ) + ")"@
}

/// The friendly message of an error; for wrapped low-level errors, the
/// prefix that comes before the low-level error's own text.
pub open spec fn spec_message(error: KindredError) -> Seq<char> {
    match error {
        KindredError::NoDevice => "no Kindle connected"@,
        KindredError::UnsupportedModel { product_id } => product_id_text(product_id),
        KindredError::DeviceBusy => "device is in use by another application (e.g. a file manager or MTP service)"@,
        KindredError::PermissionDenied => "permission denied accessing the device (check USB/udev permissions)"@,
        KindredError::AccessDenied => "access denied"@,
        KindredError::StorageFull => "device storage is full"@,
        KindredError::Disconnected => "device disconnected or stopped responding"@,
        KindredError::Timeout => "device operation timed out"@,
        KindredError::StaleObject => "stale object handle (device re-keyed it; re-list and retry)"@,
        KindredError::NotFound => "requested object or folder not found"@,
        KindredError::InvalidObject { message } => "invalid object: "@ + message@,
        KindredError::Io(_) => "local I/O error: "@,
        KindredError::Usb(_) => "USB error: "@,
        KindredError::Mtp(_) => "MTP error: "@,
    }
}

/// Whether the error wraps a low-level error whose text ends the message.
pub open spec fn wraps_low_level(error: KindredError) -> bool {
    error is Io || error is Usb || error is Mtp
}

impl KindredError {
    /// The friendly, user-facing message of the error.
    pub fn message(&self) -> (res: String)
        ensures
            !wraps_low_level(*self) ==> res@ == spec_message(*self),
            wraps_low_level(*self) ==> spec_message(*self).is_prefix_of(res@),
            *self matches KindredError::Mtp(e) ==> res@ == "MTP error: "@ + mtp_error_display(e),
            *self matches KindredError::Usb(e) ==> res@ == "USB error: "@ + usb_error_display(e),
    {
        match self {
            KindredError::NoDevice => "no Kindle connected".to_owned(),
            KindredError::UnsupportedModel { product_id } => {
                let digits = pad_chars(radix_chars(*product_id as u64, 16, false), 4, '0');
                let text = "unsupported Kindle model (USB product id 0x".to_owned();
                let text = text.concat(string_of(digits.as_slice()).as_str());
                text.concat(")")
            },
            KindredError::DeviceBusy => "device is in use by another application (e.g. a file manager or MTP service)".to_owned(),
            KindredError::PermissionDenied => "permission denied accessing the device (check USB/udev permissions)".to_owned(),
            KindredError::AccessDenied => "access denied".to_owned(),
            KindredError::StorageFull => "device storage is full".to_owned(),
            KindredError::Disconnected => "device disconnected or stopped responding".to_owned(),
            KindredError::Timeout => "device operation timed out".to_owned(),
            KindredError::StaleObject => "stale object handle (device re-keyed it; re-list and retry)".to_owned(),
            KindredError::NotFound => "requested object or folder not found".to_owned(),
            KindredError::InvalidObject { message } => "invalid object: ".to_owned().concat(
                message.as_str(),
            ),
            KindredError::Io(error) => "local I/O error: ".to_owned().concat(
                io_error_text(error).as_str(),
            ),
            KindredError::Usb(error) => "USB error: ".to_owned().concat(
                usb_error_text(error).as_str(),
            ),
            KindredError::Mtp(error) => "MTP error: ".to_owned().concat(
                mtp_error_text(error).as_str(),
            ),
        }
    }
}

} // verus!
