use kindred::inventory::MtpObjectSummary;
use kindred::{BookFormat, CoverFile, InventoryWalk, LibraryRecord, LocalLibrary, WalkAction, WalkStage, sanitize_key};

fn record(key: &str) -> LibraryRecord {
    LibraryRecord {
        key: key.to_owned(),
        title: key.to_owned(),
        format: BookFormat::Kfx,
        size_bytes: 100,
        local_path: None,
        cover_path: None,
        on_device: false,
        last_seen_device: None,
    }
}

fn cover(stem: &str, path: &str) -> CoverFile {
    CoverFile { stem: stem.to_owned(), path: path.to_owned() }
}

fn obj(name: &str, is_folder: bool, handle: u64) -> MtpObjectSummary {
    MtpObjectSummary { filename: name.to_owned(), is_folder, handle, size_bytes: 7 }
}

#[test]
fn sanitized_keys() {
    assert_eq!(sanitize_key("dict:Oxford Dictionary"), "dict_Oxford_Dictionary");
    assert_eq!(sanitize_key("JX7VYKM3IPBSUZSDGADVUXVLCVHECJD2"), "JX7VYKM3IPBSUZSDGADVUXVLCVHECJD2");
    assert_eq!(sanitize_key("\u{e9}a-b"), "_a_b");
}

#[test]
fn covers_match_records_and_clear_stale_paths() {
    let mut library = LocalLibrary::default();
    library.upsert(record("JX7VYKM3IPBSUZSDGADVUXVLCVHECJD2"));
    library.upsert(record("dict:Oxford Dictionary"));
    library.upsert(record("B0048EL62A"));
    let covers = vec![
        cover("JX7VYKM3IPBSUZSDGADVUXVLCVHECJD2", "/covers/JX7VYKM3IPBSUZSDGADVUXVLCVHECJD2.jpg"),
        cover("dict_Oxford_Dictionary", "/covers/dict_Oxford_Dictionary.png"),
    ];

    assert_eq!(library.apply_covers(&covers), 2);
    assert_eq!(
        library.lookup("JX7VYKM3IPBSUZSDGADVUXVLCVHECJD2").unwrap().cover_path.as_deref(),
        Some("/covers/JX7VYKM3IPBSUZSDGADVUXVLCVHECJD2.jpg")
    );
    assert!(library.lookup("dict:Oxford Dictionary").unwrap().cover_path.is_some());
    assert!(library.lookup("B0048EL62A").unwrap().cover_path.is_none());

    assert_eq!(library.apply_covers(&covers), 0);
    let fewer = vec![cover("dict_Oxford_Dictionary", "/covers/dict_Oxford_Dictionary.png")];
    assert_eq!(library.apply_covers(&fewer), 1);
    assert!(library.lookup("JX7VYKM3IPBSUZSDGADVUXVLCVHECJD2").unwrap().cover_path.is_none());
}

#[test]
fn later_cover_with_the_same_stem_wins() {
    let mut library = LocalLibrary::default();
    library.upsert(record("AAAAAAAAAA"));
    let covers = vec![cover("AAAAAAAAAA", "/c/a.jpg"), cover("AAAAAAAAAA", "/c/a.png")];
    assert_eq!(library.apply_covers(&covers), 1);
    assert_eq!(library.records[0].cover_path.as_deref(), Some("/c/a.png"));
}

#[test]
fn walk_lists_items01_then_dictionaries() {
    let documents = vec![obj("dictionaries", true, 30), obj("Downloads", true, 10), obj("My Clippings.sdr", true, 40)];
    let (walk, action) = InventoryWalk::start("Internal Storage".to_owned(), documents);
    assert!(matches!(action, WalkAction::List(10)));
    assert_eq!(walk.stage, WalkStage::Downloads);

    let (walk, action) = walk.step(Some(vec![obj("Items01", true, 20)]));
    assert!(matches!(action, WalkAction::List(20)));
    assert_eq!(walk.stage, WalkStage::Items01);

    let content = vec![obj("T_AAAAAAAAAA.kfx", false, 21), obj("T_AAAAAAAAAA.sdr", true, 22)];
    let (walk, action) = walk.step(Some(content));
    assert!(matches!(action, WalkAction::List(30)));
    assert_eq!(walk.stage, WalkStage::Dictionaries);

    let (walk, action) = walk.step(Some(vec![obj("Oxford.azw", false, 31)]));
    assert_eq!(walk.stage, WalkStage::Done);
    match action {
        WalkAction::Finish(inventory) => {
            assert_eq!(inventory.storage_description, "Internal Storage");
            assert_eq!(inventory.books.len(), 2);
            assert_eq!(inventory.books[0].title, "T");
            assert_eq!(inventory.books[0].sidecar_handle, Some(22));
            assert_eq!(inventory.books[1].title, "Oxford");
        }
        other => panic!("unexpected {other:?}"),
    }
}

#[test]
fn walk_without_folders_finishes_empty() {
    let (_, action) = InventoryWalk::start("S".to_owned(), vec![obj("fonts", true, 1)]);
    match action {
        WalkAction::Finish(inventory) => assert!(inventory.books.is_empty()),
        other => panic!("unexpected {other:?}"),
    }
    let (walk, action) = InventoryWalk::start("S".to_owned(), vec![obj("Downloads", true, 1)]);
    assert!(matches!(action, WalkAction::List(1)));
    let (_, action) = walk.step(None);
    assert!(matches!(action, WalkAction::Finish(_)));
}

#[test]
fn walk_finds_books_sideloaded_into_the_documents_root() {
    let documents = vec![obj("Added Book_BBBBBBBBBB.kfx", false, 5), obj("notes.txt", false, 6)];
    let (_, action) = InventoryWalk::start("S".to_owned(), documents);
    match action {
        WalkAction::Finish(inventory) => {
            assert_eq!(inventory.books.len(), 1);
            assert_eq!(inventory.books[0].title, "Added Book");
            assert_eq!(inventory.books[0].asin.as_deref(), Some("BBBBBBBBBB"));
            assert_eq!(inventory.books[0].content_handle, 5);
        }
        other => panic!("unexpected {other:?}"),
    }

    let documents = vec![obj("Root_CCCCCCCCCC.azw", false, 7), obj("dictionaries", true, 30)];
    let (walk, action) = InventoryWalk::start("S".to_owned(), documents);
    assert!(matches!(action, WalkAction::List(30)));
    let (_, action) = walk.step(Some(vec![obj("Oxford.azw", false, 31)]));
    match action {
        WalkAction::Finish(inventory) => {
            assert_eq!(inventory.books.len(), 2);
            assert_eq!(inventory.books[0].title, "Root");
            assert_eq!(inventory.books[1].title, "Oxford");
        }
        other => panic!("unexpected {other:?}"),
    }
}

#[test]
fn a_missing_covers_directory_changes_nothing() {
    let mut library = LocalLibrary::default();
    let mut with_cover = record("AAAAAAAAAA");
    with_cover.cover_path = Some("/c/AAAAAAAAAA.jpg".to_owned());
    library.upsert(with_cover);
    let before = library.clone();
    assert_eq!(library.scan_covers(None), 0);
    assert_eq!(library, before);

    let empty: Vec<CoverFile> = Vec::new();
    assert_eq!(library.scan_covers(Some(&empty)), 1);
    assert_eq!(library.records[0].cover_path, None);
}
