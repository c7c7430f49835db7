use kindred::{DeviceProfile, ProfileError, ProfileStore, UsbKindle, identify_attached, is_supported_kindle, masked_serial};

fn profile(serial: &str, name: &str) -> DeviceProfile {
    DeviceProfile { serial: serial.to_owned(), friendly_name: name.to_owned(), model: None, last_seen_unix: None }
}

fn kindle(product_id: u16, serial: Option<&str>) -> UsbKindle {
    UsbKindle {
        bus_number: 1,
        device_address: 4,
        vendor_id: 0x1949,
        product_id,
        manufacturer: Some("Amazon".to_owned()),
        product: Some("Kindle Paperwhite".to_owned()),
        serial: serial.map(str::to_owned),
    }
}

#[test]
fn name_for_falls_back_to_unknown() {
    let store = ProfileStore::default();
    assert_eq!(store.name_for("GN433X11528401SG"), "Unknown Kindle");
}

#[test]
fn upsert_replaces_existing_profile() {
    let mut store = ProfileStore::default();
    store.upsert(profile("SN1", "Ken's Kindle"));
    store.upsert(profile("SN1", "Renamed Kindle"));
    assert_eq!(store.profiles.len(), 1);
    assert_eq!(store.name_for("SN1"), "Renamed Kindle");
}

#[test]
fn lookup_finds_by_serial() {
    let mut store = ProfileStore::default();
    store.upsert(profile("SN1", "Ken's Kindle"));
    store.upsert(profile("SN2", "Deb's Kindle"));
    assert_eq!(store.lookup("SN2").unwrap().friendly_name, "Deb's Kindle");
    assert!(store.lookup("SN3").is_none());
}

#[test]
fn identify_names_the_first_kindle_by_profile() {
    let mut store = ProfileStore::default();
    store.upsert(profile("SN1", "Ken's Kindle"));
    assert!(identify_attached(&store, &[]).is_none());
    let identity = identify_attached(&store, &[kindle(0x9981, Some("SN1")), kindle(0x9981, Some("SN2"))]).unwrap();
    assert_eq!(identity.serial.as_deref(), Some("SN1"));
    assert_eq!(identity.model, "Kindle Paperwhite (12th generation)");
    assert_eq!(identity.friendly_name, "Ken's Kindle");
    let unknown = identify_attached(&store, &[kindle(0x1234, None)]).unwrap();
    assert_eq!(unknown.serial, None);
    assert_eq!(unknown.model, "Unknown Kindle");
    assert_eq!(unknown.friendly_name, "Unknown Kindle");
}

#[test]
fn serials_are_masked() {
    assert_eq!(masked_serial("GN433X11528401SG"), "GN43...01SG");
    assert_eq!(masked_serial("SHORT123"), "SHORT123");
    assert_eq!(masked_serial("123456789"), "1234...6789");
}

#[test]
fn only_the_paperwhite_is_supported() {
    assert!(is_supported_kindle(0x1949, 0x9981));
    assert!(!is_supported_kindle(0x1949, 0x9982));
    assert!(!is_supported_kindle(0x1950, 0x9981));
}

#[test]
fn profile_error_messages() {
    let io = ProfileError::Io(std::io::Error::other("denied"));
    assert_eq!(io.message(), "profile store I/O error: denied");
}
