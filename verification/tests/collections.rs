use kindred::{LibraryError, LocalLibrary};

#[test]
fn collections_create_collection_rejects_blank_and_duplicates() {
    let mut library = LocalLibrary::default();
    assert!(matches!(library.create_collection("   "), Err(LibraryError::EmptyCollectionName)));
    library.create_collection("Favourites").unwrap();
    assert!(matches!(
        library.create_collection("Favourites"),
        Err(LibraryError::CollectionExists(_))
    ));
    assert_eq!(library.collections.len(), 1);
}

#[test]
fn collections_collection_add_and_remove_book_dedupe() {
    let mut library = LocalLibrary::default();
    library.create_collection("Favourites").unwrap();

    library.add_book_to_collection("Favourites", "JX7VYKM3IPBSUZSDGADVUXVLCVHECJD2").unwrap();
    library.add_book_to_collection("Favourites", "JX7VYKM3IPBSUZSDGADVUXVLCVHECJD2").unwrap();

    assert_eq!(library.collection("Favourites").unwrap().book_keys.len(), 1);

    library.remove_book_from_collection("Favourites", "JX7VYKM3IPBSUZSDGADVUXVLCVHECJD2").unwrap();
    assert!(library.collection("Favourites").unwrap().book_keys.is_empty());
}

#[test]
fn collections_collection_ops_require_existing_collection() {
    let mut library = LocalLibrary::default();
    assert!(matches!(
        library.add_book_to_collection("Missing", "KEY"),
        Err(LibraryError::CollectionNotFound(_))
    ));
    assert!(matches!(
        library.remove_book_from_collection("Missing", "KEY"),
        Err(LibraryError::CollectionNotFound(_))
    ));
}

#[test]
fn collections_rename_and_delete_collection() {
    let mut library = LocalLibrary::default();
    library.create_collection("Old Name").unwrap();
    library.rename_collection("Old Name", "New Name").unwrap();
    assert!(library.collection("New Name").is_some());
    assert!(library.collection("Old Name").is_none());

    library.delete_collection("New Name");
    assert!(library.collections.is_empty());
}

#[test]
fn create_trims_surrounding_whitespace() {
    let mut library = LocalLibrary::default();
    library.create_collection("  Sci-Fi \t\n").unwrap();
    assert_eq!(library.collections[0].name, "Sci-Fi");
    assert!(matches!(library.create_collection("Sci-Fi"), Err(LibraryError::CollectionExists(n)) if n == "Sci-Fi"));
    assert!(matches!(library.create_collection("\u{3000}\u{a0}"), Err(LibraryError::EmptyCollectionName)));
    library.create_collection("\u{2003}Poetry\u{2028}").unwrap();
    assert_eq!(library.collections[1].name, "Poetry");
}

#[test]
fn rename_rules() {
    let mut library = LocalLibrary::default();
    library.create_collection("A").unwrap();
    library.create_collection("B").unwrap();
    assert!(matches!(library.rename_collection("A", "B"), Err(LibraryError::CollectionExists(n)) if n == "B"));
    assert!(matches!(library.rename_collection("A", "  "), Err(LibraryError::EmptyCollectionName)));
    assert!(matches!(library.rename_collection("Missing", "C"), Err(LibraryError::CollectionNotFound(n)) if n == "Missing"));
    library.rename_collection("A", " A ").unwrap();
    assert_eq!(library.collections[0].name, "A");
    library.add_book_to_collection("A", "K1").unwrap();
    library.rename_collection("A", "Renamed").unwrap();
    assert_eq!(library.collection("Renamed").unwrap().book_keys, vec!["K1".to_owned()]);
}

#[test]
fn remove_book_keeps_other_keys_in_order() {
    let mut library = LocalLibrary::default();
    library.create_collection("C").unwrap();
    for key in ["K1", "K2", "K3"] {
        library.add_book_to_collection("C", key).unwrap();
    }
    library.remove_book_from_collection("C", "K2").unwrap();
    library.remove_book_from_collection("C", "absent").unwrap();
    assert_eq!(library.collection("C").unwrap().book_keys, vec!["K1".to_owned(), "K3".to_owned()]);
}
