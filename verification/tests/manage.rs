use kindred::{
    Book, BookFormat, KindleInventory, KindredError, check_added_object, check_content_file,
    check_expected_object, content_filename, content_stem, find_book, sidecar_name, test_folder_name,
    artifact_listed, MtpObjectSummary, ObjectCheck, RemoveStep, Removal, TestAction, TestEvent,
    TestStage, TransferTest,
};

fn book(title: &str, asin: Option<&str>, format: BookFormat) -> Book {
    Book {
        title: title.to_owned(),
        asin: asin.map(str::to_owned),
        format,
        size_bytes: 100,
        content_handle: 1,
        sidecar_handle: None,
        metadata_handles: Vec::new(),
    }
}

#[test]
fn content_filename_reconstructs_asin_named_file() {
    let b = book("The Way of Kings", Some("JX7VYKM3IPBSUZSDGADVUXVLCVHECJD2"), BookFormat::Kfx);
    assert_eq!(content_filename(&b), "The Way of Kings_JX7VYKM3IPBSUZSDGADVUXVLCVHECJD2.kfx");
    assert_eq!(content_stem(&b), "The Way of Kings_JX7VYKM3IPBSUZSDGADVUXVLCVHECJD2");
}

#[test]
fn content_filename_reconstructs_dictionary_name() {
    let b = book("Oxford_Dictionary_of_English", None, BookFormat::Azw);
    assert_eq!(content_filename(&b), "Oxford_Dictionary_of_English.azw");
}

#[test]
fn sidecar_name_is_stem_and_sdr() {
    let b = book("T", Some("AAAAAAAAAA"), BookFormat::Kfx);
    assert_eq!(sidecar_name(&b), "T_AAAAAAAAAA.sdr");
}

#[test]
fn listed_filename_round_trips_through_its_book() {
    let name = "Some Title_B0048EL62A.kfx";
    let objects = [kindred::MtpObjectSummary { filename: name.to_owned(), is_folder: false, handle: 9, size_bytes: 1 }];
    let books = kindred::books_from_folder(&objects);
    assert_eq!(content_filename(&books[0]), name);
}

#[test]
fn expected_object_checks() {
    assert!(check_expected_object(7, false, "a.kfx", Some("a.kfx"), false).is_ok());
    assert!(check_expected_object(7, true, "x", None, true).is_ok());
    assert!(matches!(
        check_expected_object(7, false, "b.kfx", Some("a.kfx"), false),
        Err(KindredError::StaleObject)
    ));
    match check_expected_object(42, true, "a.kfx", Some("a.kfx"), false) {
        Err(KindredError::InvalidObject { message }) => {
            assert_eq!(message, "object handle 42 is a folder, expected file")
        }
        other => panic!("unexpected {other:?}"),
    }
    match check_expected_object(0, false, "a", None, true) {
        Err(KindredError::InvalidObject { message }) => {
            assert_eq!(message, "object handle 0 is a file, expected folder")
        }
        other => panic!("unexpected {other:?}"),
    }
}

#[test]
fn only_kindling_artifacts_may_be_removed_by_handle() {
    assert!(check_added_object("kindling_controlled_test.txt").is_ok());
    assert!(matches!(check_added_object("My Book.kfx"), Err(KindredError::AccessDenied)));
    assert!(matches!(check_added_object("kindling"), Err(KindredError::AccessDenied)));
}

#[test]
fn content_must_be_a_file() {
    assert!(check_content_file(false).is_ok());
    match check_content_file(true) {
        Err(KindredError::InvalidObject { message }) => {
            assert_eq!(message, "book content handle is not a file")
        }
        other => panic!("unexpected {other:?}"),
    }
}

#[test]
fn find_book_by_asin() {
    let inventory = KindleInventory {
        storage_description: "Internal Storage".to_owned(),
        books: vec![
            book("Dict", None, BookFormat::Azw),
            book("A", Some("AAAAAAAAAA"), BookFormat::Kfx),
            book("A2", Some("AAAAAAAAAA"), BookFormat::Kfx),
        ],
    };
    assert_eq!(find_book(&inventory, "AAAAAAAAAA").unwrap().title, "A");
    assert!(find_book(&inventory, "BBBBBBBBBB").is_none());
}

#[test]
fn test_folder_is_prefix_and_suffix() {
    assert_eq!(test_folder_name(1755000000), "kindling_m4_test_1755000000");
    assert_eq!(test_folder_name(0), "kindling_m4_test_0");
}

fn listed(filename: &str, is_folder: bool) -> MtpObjectSummary {
    MtpObjectSummary { filename: filename.to_owned(), is_folder, handle: 3, size_bytes: 0 }
}

#[test]
fn artifact_must_be_listed_as_a_file_under_its_name() {
    let name = "kindling_controlled_test.txt";
    assert!(artifact_listed(&[listed("other.txt", false), listed(name, false)], name));
    assert!(!artifact_listed(&[listed(name, true)], name));
    assert!(!artifact_listed(&[listed("kindling_controlled_test.txt.part", false)], name));
    assert!(!artifact_listed(&[], name));
}

fn seen(filename: &str, is_folder: bool) -> ObjectCheck {
    ObjectCheck { is_folder, filename: filename.to_owned() }
}

fn full_book() -> Book {
    Book {
        title: "T".to_owned(),
        asin: Some("AAAAAAAAAA".to_owned()),
        format: BookFormat::Kfx,
        size_bytes: 100,
        content_handle: 1,
        sidecar_handle: Some(2),
        metadata_handles: vec![3, 4],
    }
}

#[test]
fn removal_inspects_everything_before_deleting_anything() {
    let (removal, step) = Removal::start(&full_book());
    assert!(matches!(step, RemoveStep::Inspect(1)));
    let (removal, step) = removal.inspected(seen("T_AAAAAAAAAA.kfx", false));
    assert!(matches!(step, RemoveStep::Inspect(2)));
    let (removal, step) = removal.inspected(seen("T_AAAAAAAAAA.sdr", true));
    assert!(matches!(step, RemoveStep::Inspect(3)));
    let (removal, step) = removal.inspected(seen("x.mf", false));
    assert!(matches!(step, RemoveStep::Inspect(4)));
    let (removal, step) = removal.inspected(seen("y.yjf", false));
    assert!(matches!(step, RemoveStep::Delete(1)));
    let (removal, step) = removal.deleted();
    assert!(matches!(step, RemoveStep::Delete(2)));
    let (removal, step) = removal.deleted();
    assert!(matches!(step, RemoveStep::Delete(3)));
    let (removal, step) = removal.deleted();
    assert!(matches!(step, RemoveStep::Delete(4)));
    let (_, step) = removal.deleted();
    assert!(matches!(step, RemoveStep::Done));
}

#[test]
fn removal_mismatch_fails_before_any_delete() {
    let (removal, _) = Removal::start(&full_book());
    let (removal, _) = removal.inspected(seen("T_AAAAAAAAAA.kfx", false));
    let (removal, step) = removal.inspected(seen("Other.sdr", true));
    assert!(matches!(step, RemoveStep::Failed(KindredError::StaleObject)));
    assert!(!removal.is_awaiting_inspection() && !removal.is_awaiting_deletion());

    let (removal, _) = Removal::start(&full_book());
    let (_, step) = removal.inspected(seen("T_AAAAAAAAAA.kfx", true));
    match step {
        RemoveStep::Failed(KindredError::InvalidObject { message }) => {
            assert_eq!(message, "object handle 1 is a folder, expected file")
        }
        other => panic!("unexpected {other:?}"),
    }
}

#[test]
fn transfer_test_runs_create_upload_list_read_delete() {
    let (test, action) = TransferTest::start(7, 1755000000);
    match &action {
        TestAction::CreateFolder { parent, name } => {
            assert_eq!(*parent, 7);
            assert_eq!(name, "kindling_m4_test_1755000000");
        }
        other => panic!("unexpected {other:?}"),
    }
    let (test, action) = test.step(TestEvent::Created(50));
    let payload = b"kindling controlled transfer test\n".to_vec();
    match &action {
        TestAction::Upload { parent, name, data } => {
            assert_eq!(*parent, 50);
            assert_eq!(name, "kindling_controlled_test.txt");
            assert_eq!(data, &payload);
            assert_eq!(data.len(), 34);
        }
        other => panic!("unexpected {other:?}"),
    }
    let (test, action) = test.step(TestEvent::Uploaded(51));
    assert!(matches!(action, TestAction::List(50)));
    let listing = vec![MtpObjectSummary {
        filename: "kindling_controlled_test.txt".to_owned(),
        is_folder: false,
        handle: 51,
        size_bytes: 34,
    }];
    let (test, action) = test.step(TestEvent::Listed(listing));
    assert!(matches!(action, TestAction::Download(51)));
    let (test, action) = test.step(TestEvent::Downloaded(payload));
    assert!(matches!(action, TestAction::Delete(51)));
    let (test, action) = test.step(TestEvent::Deleted);
    assert!(matches!(action, TestAction::Delete(50)));
    let (test, action) = test.step(TestEvent::Deleted);
    assert_eq!(test.stage, TestStage::Over);
    match action {
        TestAction::Finish(result) => {
            assert_eq!(result.folder_name, "kindling_m4_test_1755000000");
            assert_eq!(result.uploaded_file, "kindling_controlled_test.txt");
            assert_eq!(result.uploaded_bytes, 34);
            assert!(result.verified_readback);
            assert!(result.cleaned_up);
        }
        other => panic!("unexpected {other:?}"),
    }
}

#[test]
fn transfer_test_failures_clean_up_the_folder() {
    let (test, _) = TransferTest::start(7, 1);
    let (_, action) = test.step(TestEvent::Failed(KindredError::StorageFull));
    assert!(matches!(action, TestAction::Fail(KindredError::StorageFull)));

    let (test, _) = TransferTest::start(7, 1);
    let (test, _) = test.step(TestEvent::Created(50));
    let (test, _) = test.step(TestEvent::Uploaded(51));
    let (test, action) = test.step(TestEvent::Listed(Vec::new()));
    assert!(matches!(action, TestAction::Delete(50)));
    assert!(test.accepts(&TestEvent::Deleted));
    assert!(!test.accepts(&TestEvent::Uploaded(3)));
    let (_, action) = test.step(TestEvent::Deleted);
    match action {
        TestAction::Fail(KindredError::InvalidObject { message }) => {
            assert_eq!(message, "uploaded artifact not found in test folder")
        }
        other => panic!("unexpected {other:?}"),
    }

    let (test, _) = TransferTest::start(7, 1);
    let (test, _) = test.step(TestEvent::Created(50));
    let (test, _) = test.step(TestEvent::Uploaded(51));
    let listing = vec![MtpObjectSummary {
        filename: "kindling_controlled_test.txt".to_owned(),
        is_folder: false,
        handle: 51,
        size_bytes: 3,
    }];
    let (test, _) = test.step(TestEvent::Listed(listing));
    let (test, action) = test.step(TestEvent::Downloaded(b"bad".to_vec()));
    assert!(matches!(action, TestAction::Delete(51)));
    assert!(!test.verified);
    let (test, action) = test.step(TestEvent::Failed(KindredError::Timeout));
    assert!(matches!(action, TestAction::Delete(50)));
    let (_, action) = test.step(TestEvent::Failed(KindredError::Disconnected));
    assert!(matches!(action, TestAction::Fail(KindredError::Timeout)));
}
