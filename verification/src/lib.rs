//! Kindred: the device-management engine behind Kindling.
//!
//! This crate holds the logic that turns raw MTP folder listings into books,
//! keeps a device-independent local library with local collections and
//! covers, names devices by their USB serial, classifies device failures
//! into Kindle-aware errors, and drives the desktop shell's state. Device
//! and file I/O stay with the application, which hands this crate plain
//! values.

pub mod collection_laws;
pub mod collections;
pub mod covers;
pub mod error;
pub mod external;
pub mod gui;
pub mod gui_laws;
pub mod inventory;
pub mod inventory_laws;
pub mod library;
pub mod library_laws;
pub mod manage;
pub mod mtp;
pub mod profile;
pub mod search;
pub mod text;
pub mod transfer;
pub mod usb;
pub mod walk;

pub use collections::LocalCollection;
pub use covers::{CoverFile, sanitize_key};
pub use error::KindredError;
pub use inventory::{
    Book, BookFormat, KindleInventory, MtpObjectSummary, books_from_folder, dictionary_books,
    find_folder, parse_book_filename, split_identity,
};
pub use library::{BookStatus, LibraryError, LibraryRecord, LocalLibrary, book_key};
pub use manage::{
    ADDED_PREFIX, ObjectCheck, RemoveStep, Removal, check_added_object, check_content_file,
    check_expected_object, content_filename, content_stem, find_book, sidecar_name,
};
pub use mtp::{MtpProbe, MtpStorageSummary};
pub use profile::{
    DeviceIdentity, DeviceProfile, ProfileError, ProfileStore, identify_attached, masked_serial,
};
pub use transfer::{
    TEST_FILE_NAME, TEST_FOLDER_PREFIX, TestAction, TestEvent, TestStage, TransferTest,
    TransferTestResult, artifact_listed, test_folder_name,
};
pub use usb::{AMAZON_VENDOR_ID, PAPERWHITE_12_PRODUCT_ID, UsbKindle, is_supported_kindle};
pub use walk::{InventoryWalk, WalkAction, WalkStage};
