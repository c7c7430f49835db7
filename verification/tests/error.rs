use kindred::KindredError;

#[test]
fn maps_mtp_no_device() {
    let error = KindredError::from_mtp(mtp_rs::Error::NoDevice);
    assert!(matches!(error, KindredError::NoDevice));
}

#[test]
fn maps_mtp_disconnect_and_reset() {
    assert!(matches!(KindredError::from_mtp(mtp_rs::Error::Disconnected), KindredError::Disconnected));
    assert!(matches!(KindredError::from_mtp(mtp_rs::Error::DeviceReset), KindredError::Disconnected));
}

#[test]
fn maps_mtp_busy_sources() {
    assert!(matches!(KindredError::from_mtp(mtp_rs::Error::ExclusiveAccess), KindredError::DeviceBusy));
    assert!(matches!(KindredError::from_mtp(mtp_rs::Error::Busy), KindredError::DeviceBusy));
}

#[test]
fn maps_mtp_permission_and_access() {
    assert!(matches!(
        KindredError::from_mtp(mtp_rs::Error::PermissionDenied),
        KindredError::PermissionDenied
    ));
    assert!(matches!(KindredError::from_mtp(mtp_rs::Error::AccessDenied), KindredError::AccessDenied));
}

#[test]
fn maps_mtp_storage_full_and_timeout() {
    assert!(matches!(KindredError::from_mtp(mtp_rs::Error::StorageFull), KindredError::StorageFull));
    assert!(matches!(KindredError::from_mtp(mtp_rs::Error::Timeout), KindredError::Timeout));
}

#[test]
fn maps_mtp_stale_handle_and_invalid_data() {
    assert!(matches!(KindredError::from_mtp(mtp_rs::Error::StaleHandle), KindredError::StaleObject));
    assert!(matches!(
        KindredError::from_mtp(mtp_rs::Error::InvalidData { message: "bad".to_owned() }),
        KindredError::InvalidObject { .. }
    ));
}

#[test]
fn unmapped_mtp_errors_are_preserved() {
    assert!(matches!(
        KindredError::from_mtp(mtp_rs::Error::Cancelled),
        KindredError::Mtp(mtp_rs::Error::Cancelled)
    ));
}

#[test]
fn maps_usb_errors() {
    assert!(matches!(KindredError::from_usb(rusb::Error::NoDevice), KindredError::NoDevice));
    assert!(matches!(KindredError::from_usb(rusb::Error::Access), KindredError::PermissionDenied));
    assert!(matches!(KindredError::from_usb(rusb::Error::Timeout), KindredError::Timeout));
    assert!(matches!(KindredError::from_usb(rusb::Error::Busy), KindredError::DeviceBusy));
    assert!(matches!(KindredError::from_usb(rusb::Error::Overflow), KindredError::Usb(rusb::Error::Overflow)));
}

#[test]
fn display_has_friendly_messages() {
    assert_eq!(KindredError::NoDevice.message(), "no Kindle connected");
    assert!(KindredError::DeviceBusy.message().contains("another application"));
    assert!(KindredError::StorageFull.message().contains("full"));
}

#[test]
fn invalid_data_keeps_its_message_and_not_found_stays_mtp() {
    match KindredError::from_mtp(mtp_rs::Error::InvalidData { message: "bad".to_owned() }) {
        KindredError::InvalidObject { message } => assert_eq!(message, "bad"),
        other => panic!("unexpected {other:?}"),
    }
    assert!(matches!(KindredError::from_mtp(mtp_rs::Error::NotFound), KindredError::Mtp(mtp_rs::Error::NotFound)));
}

#[test]
fn every_message() {
    assert_eq!(
        KindredError::UnsupportedModel { product_id: 0x9982 }.message(),
        "unsupported Kindle model (USB product id 0x9982)"
    );
    assert_eq!(
        KindredError::UnsupportedModel { product_id: 0xa }.message(),
        "unsupported Kindle model (USB product id 0x000a)"
    );
    assert_eq!(
        KindredError::PermissionDenied.message(),
        "permission denied accessing the device (check USB/udev permissions)"
    );
    assert_eq!(KindredError::AccessDenied.message(), "access denied");
    assert_eq!(KindredError::Disconnected.message(), "device disconnected or stopped responding");
    assert_eq!(KindredError::Timeout.message(), "device operation timed out");
    assert_eq!(
        KindredError::StaleObject.message(),
        "stale object handle (device re-keyed it; re-list and retry)"
    );
    assert_eq!(KindredError::NotFound.message(), "requested object or folder not found");
    assert_eq!(
        KindredError::InvalidObject { message: "x".to_owned() }.message(),
        "invalid object: x"
    );
    assert_eq!(KindredError::Io(std::io::Error::other("gone")).message(), "local I/O error: gone");
    assert_eq!(KindredError::Mtp(mtp_rs::Error::Cancelled).message(), "MTP error: operation cancelled");
    assert_eq!(KindredError::Usb(rusb::Error::Overflow).message(), "USB error: Overflow");
    assert_eq!(
        KindredError::Mtp(mtp_rs::Error::Io { message: "short read".to_owned() }).message(),
        "MTP error: I/O error: short read"
    );
}
