use kindred::inventory::{extension, is_identifier, strip_extension};
use kindred::{BookFormat, MtpObjectSummary, books_from_folder, dictionary_books, find_folder, parse_book_filename, split_identity};

fn object(name: &str, is_folder: bool) -> MtpObjectSummary {
    MtpObjectSummary {
        filename: name.to_owned(),
        is_folder,
        handle: 1,
        size_bytes: if is_folder { 0 } else { 1_234_567 },
    }
}

fn object_with_handle(name: &str, is_folder: bool, handle: u64) -> MtpObjectSummary {
    MtpObjectSummary { filename: name.to_owned(), is_folder, handle, size_bytes: 10 }
}

#[test]
fn split_identity_extracts_32_char_identifier() {
    let (title, asin) = split_identity("The Way of Kings_JX7VYKM3IPBSUZSDGADVUXVLCVHECJD2");
    assert_eq!(title, "The Way of Kings");
    assert_eq!(asin.as_deref(), Some("JX7VYKM3IPBSUZSDGADVUXVLCVHECJD2"));
}

#[test]
fn split_identity_extracts_classic_asin() {
    let (title, asin) = split_identity("Nice Girls Don't (BDSM Erotica)_B0048EL62A");
    assert_eq!(title, "Nice Girls Don't (BDSM Erotica)");
    assert_eq!(asin.as_deref(), Some("B0048EL62A"));
}

#[test]
fn split_identity_keeps_underscored_title_without_identifier() {
    let (title, asin) = split_identity("Oxford_Dictionary_of_English");
    assert_eq!(title, "Oxford_Dictionary_of_English");
    assert_eq!(asin, None);
}

#[test]
fn format_from_extension_is_case_insensitive() {
    assert_eq!(BookFormat::from_extension("kfx"), Some(BookFormat::Kfx));
    assert_eq!(BookFormat::from_extension("AZW"), Some(BookFormat::Azw));
    assert_eq!(BookFormat::from_extension("mobi"), None);
}

#[test]
fn groups_content_sidecar_and_metadata_into_one_book() {
    let objects = [
        object("The Way of Kings_JX7VYKM3IPBSUZSDGADVUXVLCVHECJD2.kfx", false),
        object("The Way of Kings_JX7VYKM3IPBSUZSDGADVUXVLCVHECJD2.sdr", true),
        object("JX7VYKM3IPBSUZSDGADVUXVLCVHECJD2.mf", false),
        object(
            "The Way of Kings_JX7VYKM3IPBSUZSDGADVUXVLCVHECJD2b82730da213c86376c92859560e37ca7.yjf",
            false,
        ),
        object("AssetDownloadMetadata.meta", false),
    ];

    let books = books_from_folder(&objects);

    assert_eq!(books.len(), 1);
    let book = &books[0];
    assert_eq!(book.title, "The Way of Kings");
    assert_eq!(book.asin.as_deref(), Some("JX7VYKM3IPBSUZSDGADVUXVLCVHECJD2"));
    assert_eq!(book.format, BookFormat::Kfx);
    assert_eq!(book.size_bytes, 1_234_567);
    assert!(book.sidecar_handle.is_some());
    assert_eq!(book.metadata_handles.len(), 2);
}

#[test]
fn folder_level_meta_is_not_attached_to_a_book() {
    let objects = [
        object("Homemade_Pizza_Dough_Kindle_7in.pdf_GOGASE4ZUWFC6PFG2OLAVTAMCEFHMKFY.kfx", false),
        object("AssetDownloadMetadata.meta", false),
    ];

    let books = books_from_folder(&objects);

    assert_eq!(books.len(), 1);
    assert!(books[0].metadata_handles.is_empty());
}

#[test]
fn label_names_the_format() {
    assert_eq!(BookFormat::Kfx.label(), "KFX");
    assert_eq!(BookFormat::Azw.label(), "AZW");
}

#[test]
fn extension_and_stem_split_at_the_last_dot() {
    assert_eq!(extension("a.pdf_X.kfx").as_deref(), Some("kfx"));
    assert_eq!(strip_extension("a.pdf_X.kfx"), "a.pdf_X");
    assert_eq!(extension("noext"), None);
    assert_eq!(strip_extension("noext"), "noext");
    assert_eq!(extension("trailing.").as_deref(), Some(""));
}

#[test]
fn identifier_needs_ten_uppercase_or_digit_characters() {
    assert!(is_identifier("B0048EL62A"));
    assert!(!is_identifier("B0048EL62"));
    assert!(!is_identifier("b0048el62a"));
    assert!(!is_identifier("B0048EL62A-"));
}

#[test]
fn parse_book_filename_gives_title_asin_and_format() {
    let parsed = parse_book_filename("The Way of Kings_JX7VYKM3IPBSUZSDGADVUXVLCVHECJD2.KFX").unwrap();
    assert_eq!(parsed.0, "The Way of Kings");
    assert_eq!(parsed.1.as_deref(), Some("JX7VYKM3IPBSUZSDGADVUXVLCVHECJD2"));
    assert_eq!(parsed.2, BookFormat::Kfx);
    assert!(parse_book_filename("notes.txt").is_none());
    assert!(parse_book_filename("noextension").is_none());
    let dict = parse_book_filename("Oxford_Dictionary_of_English.azw").unwrap();
    assert_eq!(dict.0, "Oxford_Dictionary_of_English");
    assert_eq!(dict.1, None);
}

#[test]
fn books_keep_listing_order_and_find_their_own_sidecar() {
    let objects = [
        object_with_handle("B_BBBBBBBBBB.sdr", true, 11),
        object_with_handle("A_AAAAAAAAAA.kfx", false, 1),
        object_with_handle("B_BBBBBBBBBB.azw", false, 2),
        object_with_handle("A_AAAAAAAAAA.sdr", true, 12),
        object_with_handle("A_AAAAAAAAAA.sdr", true, 13),
        object_with_handle("readme.txt", false, 3),
        object_with_handle("folder.kfx", true, 4),
    ];
    let books = books_from_folder(&objects);
    assert_eq!(books.len(), 2);
    assert_eq!(books[0].title, "A");
    assert_eq!(books[0].content_handle, 1);
    assert_eq!(books[0].sidecar_handle, Some(12));
    assert_eq!(books[1].title, "B");
    assert_eq!(books[1].format, BookFormat::Azw);
    assert_eq!(books[1].sidecar_handle, Some(11));
}

#[test]
fn find_folder_takes_the_first_folder_with_the_name() {
    let objects = [
        object_with_handle("Downloads", false, 1),
        object_with_handle("Downloads", true, 2),
        object_with_handle("Downloads", true, 3),
    ];
    assert_eq!(find_folder(&objects, "Downloads").map(|o| o.handle), Some(2));
    assert!(find_folder(&objects, "dictionaries").is_none());
}

#[test]
fn dictionaries_are_titled_by_stem() {
    let objects = [
        object_with_handle("Oxford_Dictionary_of_English.azw", false, 5),
        object_with_handle("notes.txt", false, 6),
    ];
    let books = dictionary_books(&objects);
    assert_eq!(books.len(), 1);
    assert_eq!(books[0].title, "Oxford_Dictionary_of_English");
    assert_eq!(books[0].asin, None);
    assert_eq!(books[0].format, BookFormat::Azw);
    assert_eq!(books[0].content_handle, 5);
}
