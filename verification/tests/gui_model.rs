use std::collections::HashSet;

use kindred::gui::mock::{book_asin, mock_catalogue};
use kindred::gui::model::{update, AppState, Message, Section};
use kindred::gui::view::{first_letter, preview_actions, preview_lines, status_badge, status_text, PreviewAction};
use kindred::BookStatus;

fn state() -> AppState {
    AppState::default()
}

#[test]
fn default_section_is_local_library() {
    assert_eq!(state().section, Section::LocalLibrary);
    assert!(state().selected.is_none());
}

#[test]
fn selecting_book_sets_selection() {
    let mut state = state();
    update(&mut state, Message::BookSelected(7));
    assert_eq!(state.selected, Some(7));
}

#[test]
fn switching_section_clears_selection() {
    let mut state = state();
    update(&mut state, Message::BookSelected(7));
    update(&mut state, Message::SectionSelected(Section::KindleLibrary));
    assert_eq!(state.section, Section::KindleLibrary);
    assert!(state.selected.is_none());
}

#[test]
fn visible_books_filters_by_section() {
    let state = state();
    let local: HashSet<usize> = state.visible_books().into_iter().collect();
    let kindle: HashSet<usize> = AppState { section: Section::KindleLibrary, ..state.clone() }
        .visible_books()
        .into_iter()
        .collect();

    assert!(!local.is_empty());
    assert!(!kindle.is_empty());
    assert_eq!(local.union(&kindle).count(), state.catalogue.len());
}

#[test]
fn both_entries_are_visible_in_both_sections() {
    let state = state();
    let local: HashSet<usize> = state.visible_books().into_iter().collect();
    let kindle: HashSet<usize> = AppState { section: Section::KindleLibrary, ..state.clone() }
        .visible_books()
        .into_iter()
        .collect();
    for (index, entry) in state.catalogue.iter().enumerate() {
        assert_eq!(local.contains(&index), entry.status != BookStatus::OnDevice);
        assert_eq!(kindle.contains(&index), entry.status != BookStatus::LocalOnly);
    }
}

#[test]
fn mock_catalogue_is_deterministic() {
    let entries = mock_catalogue();
    assert_eq!(entries.len(), 60);
    assert_eq!(entries[0].title, "The Amber Compass");
    assert_eq!(entries[58].title, "Ash and Amber");
    assert_eq!(entries[0].status, BookStatus::LocalOnly);
    assert_eq!(entries[5].status, BookStatus::OnDevice);
    assert_eq!(entries[1].status, BookStatus::Both);
    assert_eq!(entries[15].status, BookStatus::LocalOnly);
    assert_eq!(entries[2].size_bytes, 1_694_000);
    let device = entries[1].device.as_ref().unwrap();
    assert_eq!(device.asin.as_deref(), Some("00000000000000009E3779B97F4A7C15"));
    assert_eq!(book_asin(0), "00000000000000000000000000000000");
    assert_eq!(book_asin(2), format!("{:032X}", 2usize.wrapping_mul(0x9E37_79B9_7F4A_7C15)));
}

#[test]
fn section_titles() {
    assert_eq!(Section::LocalLibrary.title(), "Local Library");
    assert_eq!(Section::KindleLibrary.title(), "Kindle Library");
}

#[test]
fn cover_letters() {
    assert_eq!(first_letter("the way"), "T");
    assert_eq!(first_letter("Zed"), "Z");
    assert_eq!(first_letter("9 lives"), "9");
    assert_eq!(first_letter(""), "?");
    assert_eq!(first_letter("\u{e9}t\u{e9}"), "\u{c9}");
    assert_eq!(first_letter("\u{df}x"), "SS");
}

#[test]
fn status_bar_text() {
    let mut state = state();
    assert_eq!(status_text(&state), "No Kindle attached \u{b7} local library only");
    state.device = Some(kindred::gui::model::DeviceInfo {
        friendly_name: "Ken's Kindle".to_owned(),
        model: "Kindle Paperwhite (12th generation)".to_owned(),
    });
    assert_eq!(status_text(&state), "Ken's Kindle \u{b7} 60 books");
    state.loading = true;
    assert_eq!(status_text(&state), "Loading\u{2026}");
    state.status_message = Some("Done.".to_owned());
    assert_eq!(status_text(&state), "Done.");
}

#[test]
fn preview_offers_the_actions_the_entry_allows() {
    let mut state = state();
    assert_eq!(preview_actions(&state, 1), vec![PreviewAction::CopyToLibrary]);
    assert!(preview_actions(&state, state.catalogue.len()).is_empty());

    let key = state.catalogue[1].key();
    state.catalogue[1].local = Some(kindred::LibraryRecord {
        key: key.clone(),
        title: "T".to_owned(),
        format: kindred::BookFormat::Kfx,
        size_bytes: 1,
        local_path: Some("/books/t.kfx".to_owned()),
        cover_path: None,
        on_device: true,
        last_seen_device: None,
    });
    assert_eq!(
        preview_actions(&state, 1),
        vec![PreviewAction::CopyToLibrary, PreviewAction::SendToKindle]
    );

    state.collections = vec![kindred::LocalCollection { name: "Favourites".to_owned(), book_keys: vec![key] }];
    state.selected_collection = Some(0);
    assert_eq!(
        preview_actions(&state, 1),
        vec![
            PreviewAction::CopyToLibrary,
            PreviewAction::SendToKindle,
            PreviewAction::RemoveFromCollection
        ]
    );
    state.catalogue[1].device = None;
    assert_eq!(
        preview_actions(&state, 1),
        vec![PreviewAction::SendToKindle, PreviewAction::RemoveFromCollection]
    );
    assert_eq!(PreviewAction::CopyToLibrary.label(), "Copy to Library");
    assert_eq!(PreviewAction::SendToKindle.label(), "Send to Kindle");
    assert_eq!(PreviewAction::RemoveFromCollection.label(), "Remove from Collection");
}

#[test]
fn preview_lines_describe_the_entry() {
    let mut state = state();
    let entry = &state.catalogue[1];
    let lines = preview_lines(entry, "1.6 MB");
    assert_eq!(
        lines,
        vec![
            "Salt and Starlight".to_owned(),
            "Format: KFX".to_owned(),
            "Size: 1.6 MB".to_owned(),
            "Status: on device + local".to_owned(),
            format!("ASIN: {}", book_asin(1)),
            "On device: yes \u{b7} 0 metadata objects".to_owned(),
        ]
    );

    let key = state.catalogue[3].key();
    state.catalogue[3].device = None;
    state.catalogue[3].local = Some(kindred::LibraryRecord {
        key,
        title: "T".to_owned(),
        format: kindred::BookFormat::Azw,
        size_bytes: 1,
        local_path: None,
        cover_path: None,
        on_device: false,
        last_seen_device: None,
    });
    let lines = preview_lines(&state.catalogue[3], "1 B");
    assert_eq!(lines[3], "Status: local only");
    assert_eq!(lines[4], "Local: device only");
    assert_eq!(lines.len(), 5);
    assert_eq!(status_badge(BookStatus::OnDevice), "on device");
}
