use kindred::library::{record_from_book, record_from_local_file, status_counts, status_label};
use kindred::{Book, BookFormat, BookStatus, KindleInventory, LibraryError, LibraryRecord, LocalLibrary, book_key};

fn record(key: &str, on_device: bool, local: bool) -> LibraryRecord {
    LibraryRecord {
        key: key.to_owned(),
        title: key.to_owned(),
        format: BookFormat::Kfx,
        size_bytes: 100,
        local_path: if local { Some(format!("/books/{key}.kfx")) } else { None },
        cover_path: None,
        on_device,
        last_seen_device: None,
    }
}

fn book(title: &str, asin: Option<&str>) -> Book {
    Book {
        title: title.to_owned(),
        asin: asin.map(str::to_owned),
        format: BookFormat::Kfx,
        size_bytes: 1_000,
        content_handle: 1,
        sidecar_handle: None,
        metadata_handles: Vec::new(),
    }
}

#[test]
fn status_reflects_presence_and_local_copy() {
    let mut library = LocalLibrary::default();
    library.upsert(record("A", true, true));
    library.upsert(record("B", true, false));
    library.upsert(record("C", false, true));

    assert_eq!(library.status("A"), Some(BookStatus::Both));
    assert_eq!(library.status("B"), Some(BookStatus::OnDevice));
    assert_eq!(library.status("C"), Some(BookStatus::LocalOnly));
    assert_eq!(library.status("missing"), None);
}

#[test]
fn upsert_and_remove() {
    let mut library = LocalLibrary::default();
    library.upsert(record("A", false, false));
    library.upsert(record("A", true, false));
    assert_eq!(library.records.len(), 1);
    assert!(library.lookup("A").is_some());

    library.remove("A");
    assert!(library.lookup("A").is_none());
}

#[test]
fn library_create_collection_rejects_blank_and_duplicates() {
    let mut library = LocalLibrary::default();
    assert!(matches!(library.create_collection("   "), Err(LibraryError::EmptyCollectionName)));
    library.create_collection("Favourites").unwrap();
    assert!(matches!(
        library.create_collection("Favourites"),
        Err(LibraryError::CollectionExists(_))
    ));
    assert_eq!(library.collections.len(), 1);
}

#[test]
fn library_collection_add_and_remove_book_dedupe() {
    let mut library = LocalLibrary::default();
    library.create_collection("Favourites").unwrap();

    library.add_book_to_collection("Favourites", "JX7VYKM3IPBSUZSDGADVUXVLCVHECJD2").unwrap();
    library.add_book_to_collection("Favourites", "JX7VYKM3IPBSUZSDGADVUXVLCVHECJD2").unwrap();

    assert_eq!(library.collection("Favourites").unwrap().book_keys.len(), 1);

    library.remove_book_from_collection("Favourites", "JX7VYKM3IPBSUZSDGADVUXVLCVHECJD2").unwrap();
    assert!(library.collection("Favourites").unwrap().book_keys.is_empty());
}

#[test]
fn library_collection_ops_require_existing_collection() {
    let mut library = LocalLibrary::default();
    assert!(matches!(
        library.add_book_to_collection("Missing", "KEY"),
        Err(LibraryError::CollectionNotFound(_))
    ));
    assert!(matches!(
        library.remove_book_from_collection("Missing", "KEY"),
        Err(LibraryError::CollectionNotFound(_))
    ));
}

#[test]
fn library_rename_and_delete_collection() {
    let mut library = LocalLibrary::default();
    library.create_collection("Old Name").unwrap();
    library.rename_collection("Old Name", "New Name").unwrap();
    assert!(library.collection("New Name").is_some());
    assert!(library.collection("Old Name").is_none());

    library.delete_collection("New Name");
    assert!(library.collections.is_empty());
}

#[test]
fn lookup_after_upsert_returns_the_written_record() {
    let mut library = LocalLibrary::default();
    library.upsert(record("A", false, false));
    library.upsert(record("B", false, false));
    let mut replacement = record("A", true, true);
    replacement.title = "Replaced".to_owned();
    library.upsert(replacement);
    assert_eq!(library.records.len(), 2);
    assert_eq!(library.records[0].key, "A");
    assert_eq!(library.lookup("A").unwrap().title, "Replaced");
    assert_eq!(library.lookup("B").unwrap().title, "B");
}

#[test]
fn remove_drops_every_record_of_the_key_and_keeps_order() {
    let mut library = LocalLibrary::default();
    library.records = vec![record("A", false, false), record("B", false, false), record("A", true, false), record("C", false, false)];
    library.remove("A");
    let keys: Vec<&str> = library.records.iter().map(|r| r.key.as_str()).collect();
    assert_eq!(keys, vec!["B", "C"]);
}

#[test]
fn reconcile_adds_marks_and_tracks_device() {
    let mut library = LocalLibrary::default();
    library.upsert(record("OLDBOOK0001", true, true));
    library.upsert(record("KEEPME00001", false, true));
    let inventory = KindleInventory {
        storage_description: "Internal Storage".to_owned(),
        books: vec![book("Kept", Some("KEEPME00001")), book("New", Some("NEWBOOK0001")), book("Oxford", None)],
    };

    library.reconcile(&inventory, Some("SERIAL1"));

    assert_eq!(library.records.len(), 4);
    let old = library.lookup("OLDBOOK0001").unwrap();
    assert!(!old.on_device);
    assert_eq!(old.last_seen_device, None);
    let kept = library.lookup("KEEPME00001").unwrap();
    assert!(kept.on_device);
    assert_eq!(kept.title, "KEEPME00001");
    assert_eq!(kept.local_path.as_deref(), Some("/books/KEEPME00001.kfx"));
    assert_eq!(kept.last_seen_device.as_deref(), Some("SERIAL1"));
    let new = library.lookup("NEWBOOK0001").unwrap();
    assert!(new.on_device);
    assert_eq!(new.title, "New");
    assert_eq!(new.local_path, None);
    assert_eq!(new.last_seen_device.as_deref(), Some("SERIAL1"));
    assert!(library.lookup("dict:Oxford").is_some());
    assert_eq!(library.status("KEEPME00001"), Some(BookStatus::Both));
    assert_eq!(library.status("NEWBOOK0001"), Some(BookStatus::OnDevice));
    assert_eq!(library.status("OLDBOOK0001"), Some(BookStatus::LocalOnly));
}

#[test]
fn reconcile_twice_is_reconcile_once() {
    let mut library = LocalLibrary::default();
    library.upsert(record("OLDBOOK0001", true, false));
    let inventory = KindleInventory {
        storage_description: "Internal Storage".to_owned(),
        books: vec![book("A", Some("AAAAAAAAAA")), book("A again", Some("AAAAAAAAAA"))],
    };
    library.reconcile(&inventory, None);
    let once = library.clone();
    library.reconcile(&inventory, None);
    assert_eq!(library, once);
    assert_eq!(library.records.len(), 2);
    assert_eq!(library.lookup("AAAAAAAAAA").unwrap().title, "A");
}

#[test]
fn book_key_and_record_from_book() {
    assert_eq!(book_key(&book("Oxford Dictionary", None)), "dict:Oxford Dictionary");
    let r = record_from_book(&book("T", Some("AAAAAAAAAA")), "AAAAAAAAAA".to_owned(), Some("SN"));
    assert_eq!(r.key, "AAAAAAAAAA");
    assert_eq!(r.title, "T");
    assert!(r.on_device);
    assert_eq!(r.local_path, None);
    assert_eq!(r.last_seen_device.as_deref(), Some("SN"));
}

#[test]
fn status_labels_and_counts() {
    let mut library = LocalLibrary::default();
    library.upsert(record("A", true, true));
    library.upsert(record("B", true, false));
    library.upsert(record("C", false, true));
    library.upsert(record("D", false, false));
    assert_eq!(status_label(&library.records[0]), "both");
    assert_eq!(status_label(&library.records[1]), "on device");
    assert_eq!(status_label(&library.records[2]), "local only");
    let counts = status_counts(&library);
    assert_eq!((counts.on_device, counts.local_only, counts.both), (1, 2, 1));
}

#[test]
fn default_library_is_empty_with_version_zero() {
    let library = LocalLibrary::default();
    assert_eq!(library.version, 0);
    assert!(library.records.is_empty());
    assert_eq!(LocalLibrary::CURRENT_VERSION, 1);
}

#[test]
fn library_error_messages() {
    assert_eq!(LibraryError::EmptyCollectionName.message(), "collection name must not be empty");
    assert_eq!(LibraryError::CollectionExists("Fav".to_owned()).message(), "collection 'Fav' already exists");
    assert_eq!(LibraryError::CollectionNotFound("Fav".to_owned()).message(), "collection 'Fav' not found");
    let io = LibraryError::Io(std::io::Error::other("disk gone"));
    assert_eq!(io.message(), "local library I/O error: disk gone");
}

#[test]
fn local_file_records_are_keyed_by_asin_or_title() {
    let record = record_from_local_file(
        "The Way of Kings_JX7VYKM3IPBSUZSDGADVUXVLCVHECJD2.kfx",
        "/books/The Way of Kings_JX7VYKM3IPBSUZSDGADVUXVLCVHECJD2.kfx",
        2_500_000,
    )
    .unwrap();
    assert_eq!(record.key, "JX7VYKM3IPBSUZSDGADVUXVLCVHECJD2");
    assert_eq!(record.title, "The Way of Kings");
    assert_eq!(record.format, BookFormat::Kfx);
    assert_eq!(record.size_bytes, 2_500_000);
    assert_eq!(
        record.local_path.as_deref(),
        Some("/books/The Way of Kings_JX7VYKM3IPBSUZSDGADVUXVLCVHECJD2.kfx")
    );
    assert!(!record.on_device);
    assert_eq!(record.cover_path, None);
    assert_eq!(record.last_seen_device, None);

    let dictionary = record_from_local_file("Oxford_Dictionary_of_English.azw", "/d.azw", 7).unwrap();
    assert_eq!(dictionary.key, "dict:Oxford_Dictionary_of_English");
    assert_eq!(dictionary.format, BookFormat::Azw);

    assert!(record_from_local_file("notes.txt", "/notes.txt", 1).is_none());
}
