use kindred::gui::merge::build_catalogue;
use kindred::{Book, BookFormat, BookStatus, KindleInventory, LibraryRecord, LocalLibrary, book_key};

fn book(title: &str, asin: Option<&str>) -> Book {
    Book {
        title: title.to_owned(),
        asin: asin.map(str::to_owned),
        format: BookFormat::Kfx,
        size_bytes: 1_000,
        content_handle: 1,
        sidecar_handle: None,
        metadata_handles: Vec::new(),
    }
}

fn record(key: &str, title: &str, local: Option<&str>) -> LibraryRecord {
    LibraryRecord {
        key: key.to_owned(),
        title: title.to_owned(),
        format: BookFormat::Kfx,
        size_bytes: 1_000,
        local_path: local.map(str::to_owned),
        cover_path: None,
        on_device: false,
        last_seen_device: None,
    }
}

fn inventory(books: Vec<Book>) -> KindleInventory {
    KindleInventory { storage_description: "Internal Storage".to_owned(), books }
}

#[test]
fn book_key_uses_asin_or_dict_prefix() {
    assert_eq!(
        book_key(&book("The Way of Kings", Some("JX7VYKM3IPBSUZSDGADVUXVLCVHECJD2"))),
        "JX7VYKM3IPBSUZSDGADVUXVLCVHECJD2"
    );
    assert_eq!(book_key(&book("Oxford Dictionary", None)), "dict:Oxford Dictionary");
}

#[test]
fn device_only_books_are_on_device() {
    let inventory = inventory(vec![
        book("The Way of Kings", Some("JX7VYKM3IPBSUZSDGADVUXVLCVHECJD2")),
        book("Rhythm of War", Some("HXEBCTKSYKRSHFCDOGPTPR3UOKBPKXQ3")),
    ]);
    let library = LocalLibrary::default();

    let entries = build_catalogue(Some(&inventory), &library);

    assert_eq!(entries.len(), 2);
    assert!(entries.iter().all(|entry| entry.status == BookStatus::OnDevice));
    assert!(entries.iter().all(|entry| entry.device.is_some()));
}

#[test]
fn local_copy_of_device_book_is_both() {
    let inventory = inventory(vec![book("The Way of Kings", Some("JX7VYKM3IPBSUZSDGADVUXVLCVHECJD2"))]);
    let mut library = LocalLibrary::default();
    library.upsert(record(
        "JX7VYKM3IPBSUZSDGADVUXVLCVHECJD2",
        "The Way of Kings",
        Some("/books/The Way of Kings.kfx"),
    ));

    let entries = build_catalogue(Some(&inventory), &library);

    assert_eq!(entries.len(), 1);
    assert_eq!(entries[0].status, BookStatus::Both);
    assert!(entries[0].device.is_some());
    assert!(entries[0].local.is_some());
}

#[test]
fn local_only_record_appears_without_device() {
    let mut library = LocalLibrary::default();
    library.upsert(record("B0048EL62A", "Nice Girls Don't", Some("/books/Nice Girls Don't.kfx")));

    let entries = build_catalogue(None, &library);

    assert_eq!(entries.len(), 1);
    assert_eq!(entries[0].status, BookStatus::LocalOnly);
    assert!(entries[0].device.is_none());
    assert!(entries[0].local.is_some());
}

#[test]
fn records_without_local_copy_are_skipped() {
    let mut library = LocalLibrary::default();
    library.upsert(record("B0048EL62A", "Nice Girls Don't", None));

    let entries = build_catalogue(None, &library);

    assert!(entries.is_empty());
}

#[test]
fn device_books_come_first_then_local_only_records() {
    let inventory = inventory(vec![book("On Device", Some("DDDDDDDDDD")), book("Dict", None)]);
    let mut library = LocalLibrary::default();
    library.upsert(record("LLLLLLLLLL", "Local", Some("/l.kfx")));
    library.upsert(record("DDDDDDDDDD", "On Device", None));
    library.upsert(record("dict:Dict", "Dict", Some("/d.azw")));

    let entries = build_catalogue(Some(&inventory), &library);

    assert_eq!(entries.len(), 3);
    assert_eq!(entries[0].title, "On Device");
    assert_eq!(entries[0].status, BookStatus::OnDevice);
    assert!(entries[0].local.is_some());
    assert_eq!(entries[1].title, "Dict");
    assert_eq!(entries[1].status, BookStatus::Both);
    assert_eq!(entries[2].title, "Local");
    assert_eq!(entries[2].status, BookStatus::LocalOnly);
}
