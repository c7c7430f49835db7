use kindred::gui::load::LoadResult;
use kindred::gui::model::{AppState, BookEntry, Drag, DropAction, Pane, Section, Sort, SortKey, ViewMode};
use kindred::gui::tasks::{collection_add_target, Effect};
use kindred::gui::transfer::TransferOutcome;
use kindred::gui::update::{drop_action, update, Message};
use kindred::{Book, BookFormat, BookStatus, KindleInventory, LibraryRecord, LocalCollection, LocalLibrary};

fn device_book(title: &str) -> Book {
    Book {
        title: title.to_owned(),
        asin: Some(format!("ASIN{title}")),
        format: BookFormat::Kfx,
        size_bytes: 1_000,
        content_handle: 1,
        sidecar_handle: None,
        metadata_handles: Vec::new(),
    }
}

fn local_record(title: &str) -> LibraryRecord {
    LibraryRecord {
        key: format!("ASIN{title}"),
        title: title.to_owned(),
        format: BookFormat::Kfx,
        size_bytes: 1_000,
        local_path: Some(format!("/books/{title}.kfx")),
        cover_path: None,
        on_device: false,
        last_seen_device: None,
    }
}

fn entry(title: &str, device: bool, local: bool, status: BookStatus) -> BookEntry {
    BookEntry {
        title: title.to_owned(),
        format: BookFormat::Kfx,
        size_bytes: 1_000,
        status,
        device: if device { Some(device_book(title)) } else { None },
        local: if local { Some(local_record(title)) } else { None },
    }
}

/// Alpha is on both sides, Beta only on the device, Gamma only local.
fn state() -> AppState {
    AppState {
        section: Section::LocalLibrary,
        view_mode: ViewMode::Covers,
        sort: Sort { key: SortKey::Title, ascending: true },
        catalogue: vec![
            entry("Alpha", true, true, BookStatus::Both),
            entry("Beta", true, false, BookStatus::OnDevice),
            entry("Gamma", false, true, BookStatus::LocalOnly),
        ],
        selected: None,
        drag: None,
        drop_target: None,
        loading: true,
        device: None,
        status_message: None,
        collections: Vec::new(),
        selected_collection: None,
    }
}

fn apply(state: &mut AppState, message: Message) {
    let _ = update(state, message);
}

#[test]
fn view_mode_switch() {
    let mut state = state();
    apply(&mut state, Message::ViewModeSelected(ViewMode::Details));
    assert_eq!(state.view_mode, ViewMode::Details);
}

#[test]
fn sort_toggles_direction_on_same_key() {
    let mut state = state();
    apply(&mut state, Message::SortSelected(SortKey::Size));
    assert_eq!(state.sort.key, SortKey::Size);
    assert!(state.sort.ascending);

    apply(&mut state, Message::SortSelected(SortKey::Size));
    assert_eq!(state.sort.key, SortKey::Size);
    assert!(!state.sort.ascending);

    apply(&mut state, Message::SortSelected(SortKey::Title));
    assert_eq!(state.sort.key, SortKey::Title);
    assert!(state.sort.ascending);
}

#[test]
fn drag_started_selects_and_records_drag() {
    let mut state = state();
    apply(&mut state, Message::DragStarted { pane: Pane::Kindle, index: 1 });
    assert_eq!(state.selected, Some(1));
    assert_eq!(state.drag, Some(Drag { pane: Pane::Kindle, index: 1 }));
}

#[test]
fn drop_on_same_pane_is_a_no_op() {
    let mut state = state();
    apply(&mut state, Message::DragStarted { pane: Pane::Kindle, index: 1 });
    assert!(drop_action(&state, Pane::Kindle).is_none());
}

#[test]
fn drop_kindle_to_local_copies_device_book() {
    let mut state = state();
    apply(&mut state, Message::DragStarted { pane: Pane::Kindle, index: 1 });
    assert_eq!(drop_action(&state, Pane::Local), Some(DropAction::CopyFromKindle { index: 1 }));
}

#[test]
fn drop_local_to_kindle_sends_local_copy() {
    let mut state = state();
    apply(&mut state, Message::DragStarted { pane: Pane::Local, index: 2 });
    assert_eq!(drop_action(&state, Pane::Kindle), Some(DropAction::AddToKindle { index: 2 }));
}

#[test]
fn dropping_a_device_only_book_from_local_pane_is_none() {
    let mut state = state();
    apply(&mut state, Message::DragStarted { pane: Pane::Local, index: 1 });
    assert!(drop_action(&state, Pane::Kindle).is_none());
}

#[test]
fn loaded_message_rebuilds_catalogue() {
    let mut state = state();
    let result = LoadResult { device: None, inventory: None, library: LocalLibrary::default(), errors: Vec::new() };
    apply(&mut state, Message::Loaded(Box::new(result)));
    assert!(!state.loading);
    assert!(state.catalogue.is_empty());
    assert!(state.device.is_none());
}

#[test]
fn collection_drop_target_needs_drag_and_valid_collection() {
    let mut state = state();
    state.collections = vec![LocalCollection { name: "Favourites".to_owned(), book_keys: vec![] }];

    assert!(collection_add_target(&state, 0).is_none());

    let _ = update(&mut state, Message::DragStarted { pane: Pane::Local, index: 2 });
    assert_eq!(collection_add_target(&state, 0), Some(("Favourites".to_owned(), "ASINGamma".to_owned())));

    assert!(collection_add_target(&state, 5).is_none());
}

#[test]
fn dropping_across_panes_asks_for_the_transfer() {
    let mut state = state();
    apply(&mut state, Message::DragStarted { pane: Pane::Kindle, index: 1 });
    apply(&mut state, Message::DragOver(Pane::Local));
    assert_eq!(state.drop_target, Some(Pane::Local));
    match update(&mut state, Message::DropOn(Pane::Local)) {
        Effect::CopyFromKindle(book) => assert_eq!(book.title, "Beta"),
        other => panic!("unexpected {other:?}"),
    }
    assert_eq!(state.drag, None);
    assert_eq!(state.drop_target, None);

    apply(&mut state, Message::DragStarted { pane: Pane::Local, index: 2 });
    match update(&mut state, Message::DropOn(Pane::Kindle)) {
        Effect::AddToKindle { local_path, title } => {
            assert_eq!(local_path, "/books/Gamma.kfx");
            assert_eq!(title, "Gamma");
        }
        other => panic!("unexpected {other:?}"),
    }
    apply(&mut state, Message::DragStarted { pane: Pane::Local, index: 1 });
    assert!(matches!(update(&mut state, Message::DropOn(Pane::Kindle)), Effect::Nothing));
}

#[test]
fn drag_exit_and_cancel_clear_the_drag() {
    let mut state = state();
    apply(&mut state, Message::DragStarted { pane: Pane::Kindle, index: 0 });
    apply(&mut state, Message::DragOver(Pane::Local));
    apply(&mut state, Message::DragExited);
    assert_eq!(state.drop_target, None);
    assert!(state.drag.is_some());
    apply(&mut state, Message::DragCancelled);
    assert!(state.drag.is_none());
}

#[test]
fn buttons_and_refresh_ask_for_work() {
    let mut state = state();
    assert!(matches!(update(&mut state, Message::CopyToLibrary(0)), Effect::CopyFromKindle(_)));
    assert!(matches!(update(&mut state, Message::CopyToLibrary(2)), Effect::Nothing));
    assert!(matches!(update(&mut state, Message::CopyToLibrary(9)), Effect::Nothing));
    assert!(matches!(update(&mut state, Message::SendToKindle(1)), Effect::Nothing));
    assert!(matches!(update(&mut state, Message::SendToKindle(0)), Effect::AddToKindle { .. }));
    state.loading = false;
    assert!(matches!(update(&mut state, Message::Refresh), Effect::LoadAll));
    assert!(state.loading);
}

#[test]
fn transfer_results_set_the_status() {
    let mut state = state();
    state.loading = false;
    let ok = Ok(TransferOutcome::CopiedFromKindle { title: "Beta".to_owned() });
    assert!(matches!(update(&mut state, Message::TransferFinished(Box::new(ok))), Effect::LoadAll));
    assert_eq!(state.status_message.as_deref(), Some("Copied 'Beta' to the local library."));
    assert!(state.loading);
    let failed = Err("device busy".to_owned());
    assert!(matches!(update(&mut state, Message::TransferFinished(Box::new(failed))), Effect::Nothing));
    assert_eq!(state.status_message.as_deref(), Some("Transfer failed: device busy"));
    assert_eq!(
        TransferOutcome::AddedToKindle { title: "Gamma".to_owned() }.summary(),
        "Sent 'Gamma' to the Kindle."
    );
}

#[test]
fn load_keeps_valid_selection_and_joins_errors() {
    let mut state = state();
    state.selected = Some(0);
    let inventory = KindleInventory { storage_description: "Internal Storage".to_owned(), books: vec![device_book("Alpha")] };
    let result = LoadResult {
        device: None,
        inventory: Some(inventory),
        library: LocalLibrary::default(),
        errors: vec!["profiles: bad".to_owned(), "device: busy".to_owned()],
    };
    apply(&mut state, Message::Loaded(Box::new(result)));
    assert_eq!(state.selected, Some(0));
    assert_eq!(state.catalogue.len(), 1);
    assert_eq!(state.status_message.as_deref(), Some("profiles: bad; device: busy"));

    state.selected = Some(3);
    let result = LoadResult { device: None, inventory: None, library: LocalLibrary::default(), errors: Vec::new() };
    apply(&mut state, Message::Loaded(Box::new(result)));
    assert_eq!(state.selected, None);
    assert_eq!(state.status_message.as_deref(), Some("profiles: bad; device: busy"));
}
