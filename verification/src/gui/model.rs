//! GUI application state.
//!
//! A view model over Kindred's shared data types (`Book`, `BookStatus`,
//! `LibraryRecord`). No device logic lives here.

use vstd::prelude::*;

use crate::collections::LocalCollection;
use crate::gui::mock::{lemma_mock_titles_len, mock_catalogue};
use crate::inventory::{Book, BookFormat, BookView, opt_view};
use crate::library::{BookStatus, LibraryRecord, RecordView, book_key, spec_book_key};

verus! {

broadcast use vstd::string::group_string_axioms;

/// Logical sections in the left pane.
#[derive(Debug, Clone, Copy, PartialEq, Eq, Structural)]
pub enum Section {
    /// Locally-held books (LocalOnly + Both).
    LocalLibrary,
    /// Books on the attached Kindle (OnDevice + Both).
    KindleLibrary,
}

impl Section {
    /// The section heading.
    pub fn title(&self) -> (res: &'static str)
        ensures
            *self == Section::LocalLibrary ==> res@ == "Local Library"@,
            *self == Section::KindleLibrary ==> res@ == "Kindle Library"@,
    {
        match self {
            Section::LocalLibrary => "Local Library",
            Section::KindleLibrary => "Kindle Library",
        }
    }
}

/// The two library panes shown side by side.
#[derive(Debug, Clone, Copy, PartialEq, Eq, Structural)]
pub enum Pane {
    Local,
    Kindle,
}

/// How a pane shows its books.
#[derive(Debug, Clone, Copy, PartialEq, Eq, Structural)]
pub enum ViewMode {
    Covers,
    List,
    Details,
}

/// The column a details view is sorted by.
#[derive(Debug, Clone, Copy, PartialEq, Eq, Structural)]
pub enum SortKey {
    Title,
    Format,
    Size,
    Status,
}

/// The sort order of the details view.
#[derive(Debug, Clone, Copy, PartialEq, Eq, Structural)]
pub struct Sort {
    pub key: SortKey,
    pub ascending: bool,
}

/// A drag in flight: the pane it started in and the catalogue index dragged.
#[derive(Debug, Clone, Copy, PartialEq, Eq, Structural)]
pub struct Drag {
    pub pane: Pane,
    pub index: usize,
}

/// What dropping a dragged book does.
#[derive(Debug, Clone, Copy, PartialEq, Eq, Structural)]
pub enum DropAction {
    /// Copy the device book into the local library.
    CopyFromKindle { index: usize },
    /// Send the local copy to the Kindle.
    AddToKindle { index: usize },
}

/// The attached device as the UI shows it: never the raw serial.
#[derive(Debug, Clone)]
pub struct DeviceInfo {
    pub friendly_name: String,
    pub model: String,
}

/// A book as shown in the UI: the device book and/or the local record, with
/// the status badge derived from them.
#[derive(Debug, Clone)]
pub struct BookEntry {
    pub title: String,
    pub format: BookFormat,
    pub size_bytes: u64,
    pub status: BookStatus,
    /// The book on the attached device, when it is there.
    pub device: Option<Book>,
    /// The local library record, when there is one.
    pub local: Option<LibraryRecord>,
}

/// The abstract content of a `BookEntry`.
pub struct EntryView {
    pub title: Seq<char>,
    pub format: BookFormat,
    pub size_bytes: u64,
    pub status: BookStatus,
    pub device: Option<BookView>,
    pub local: Option<RecordView>,
}

impl View for BookEntry {
    type V = EntryView;

    open spec fn view(&self) -> EntryView {
        EntryView {
            title: self.title@,
            format: self.format,
            size_bytes: self.size_bytes,
            status: self.status,
            device: match self.device {
                Some(b) => Some(b@),
                None => None,
            },
            local: match self.local {
                Some(r) => Some(r@),
                None => None,
            },
        }
    }
}

pub open spec fn entries_view(s: Seq<BookEntry>) -> Seq<EntryView> {
    s.map_values(|e: BookEntry| e@)
}

/// Whether an entry has a local file that could be sent to the device.
pub open spec fn spec_has_local_copy(e: EntryView) -> bool {
    match e.local {
        Some(r) => r.local_path is Some,
        None => false,
    }
}

/// The library key of an entry: its device book's key, else its record's.
pub open spec fn spec_entry_key(e: EntryView) -> Seq<char> {
    match e.device {
        Some(b) => spec_book_key(b),
        None => match e.local {
            Some(r) => r.key,
            None => Seq::empty(),
        },
    }
}

impl BookEntry {
    /// Whether the entry has a local file that could be sent to the device.
    pub fn has_local_copy(&self) -> (res: bool)
        ensures
            res == spec_has_local_copy(self@),
    {
        match &self.local {
            Some(record) => record.local_path.is_some(),
            None => false,
        }
    }

    /// The stable library key of the entry.
    pub fn key(&self) -> (res: String)
        ensures
            res@ == spec_entry_key(self@),
    {
        match &self.device {
            Some(book) => book_key(book),
            None => match &self.local {
                Some(record) => record.key.clone(),
                None => String::new(),
            },
        }
    }
}

/// Messages of the section browser.
#[derive(Debug, Clone)]
pub enum Message {
    SectionSelected(Section),
    BookSelected(usize),
}

/// Full UI state.
#[derive(Debug, Clone)]
pub struct AppState {
    pub section: Section,
    pub view_mode: ViewMode,
    pub sort: Sort,
    /// The books shown, device and local merged.
    pub catalogue: Vec<BookEntry>,
    /// Catalogue index of the selected book.
    pub selected: Option<usize>,
    /// The drag in flight, if any.
    pub drag: Option<Drag>,
    /// The pane the pointer is over during a drag.
    pub drop_target: Option<Pane>,
    /// Whether a refresh is running.
    pub loading: bool,
    /// The attached device, if any.
    pub device: Option<DeviceInfo>,
    /// The latest status-bar message.
    pub status_message: Option<String>,
    /// Local collections.
    pub collections: Vec<LocalCollection>,
    /// Index of the collection being browsed, if any.
    pub selected_collection: Option<usize>,
}

impl Default for AppState {
    fn default() -> (res: AppState)
        ensures
            res.section == Section::LocalLibrary,
            res.view_mode == ViewMode::Covers,
            res.sort == (Sort { key: SortKey::Title, ascending: true }),
            res.selected is None,
            res.drag is None,
            res.drop_target is None,
            !res.loading,
            res.device is None,
            res.status_message is None,
            res.collections@.len() == 0,
            res.selected_collection is None,
            res.catalogue@.len() == 60,
    {
        proof {
            lemma_mock_titles_len();
        }
        AppState {
            section: Section::LocalLibrary,
            view_mode: ViewMode::Covers,
            sort: Sort { key: SortKey::Title, ascending: true },
            catalogue: mock_catalogue(),
            selected: None,
            drag: None,
            drop_target: None,
            loading: false,
            device: None,
            status_message: None,
            collections: Vec::new(),
            selected_collection: None,
        }
    }
}

/// Whether a book with this status is listed in a section: the local
/// library lists what is not device-only, the Kindle library what is not
/// local-only.
pub open spec fn visible_in(section: Section, status: BookStatus) -> bool {
    match section {
        Section::LocalLibrary => status != BookStatus::OnDevice,
        Section::KindleLibrary => status != BookStatus::LocalOnly,
    }
}

/// The catalogue indices visible in a section, in catalogue order.
pub open spec fn visible_indices(entries: Seq<EntryView>, section: Section) -> Seq<usize>
    decreases entries.len(),
{
    if entries.len() == 0 {
        Seq::empty()
    } else {
        let rest = visible_indices(entries.drop_last(), section);
        if visible_in(section, entries.last().status) {
            rest.push((entries.len() - 1) as usize)
        } else {
            rest
        }
    }
}

impl AppState {
    /// Catalogue indices visible for the current section.
    pub fn visible_books(&self) -> (res: Vec<usize>)
        ensures
            res@ == visible_indices(entries_view(self.catalogue@), self.section),
    {
        let ghost ev = entries_view(self.catalogue@);
        let mut out: Vec<usize> = Vec::new();
        let mut i: usize = 0;
        while i < self.catalogue.len()
            invariant
                i <= self.catalogue@.len(),
                ev == entries_view(self.catalogue@),
                out@ == visible_indices(ev.take(i as int), self.section),
            decreases self.catalogue@.len() - i,
        {
            proof {
                crate::search::lemma_take_next(ev, i as int);
            }
            let status = self.catalogue[i].status;
            let visible = match self.section {
                Section::LocalLibrary => status != BookStatus::OnDevice,
                Section::KindleLibrary => status != BookStatus::LocalOnly,
            };
            if visible {
                out.push(i);
            }
            i = i + 1;
        }
        assert(ev.take(self.catalogue@.len() as int) =~= ev);
        out
    }
}

/// Update the state from a section-browser message.
pub fn update(state: &mut AppState, message: Message)
    ensures
        match message {
            Message::SectionSelected(section) => *final(state) == (AppState {
                section,
                selected: None,
                ..*old(state)
            }),
            Message::BookSelected(index) => *final(state) == (AppState {
                selected: Some(index),
                ..*old(state)
            }),
        },
{
    match message {
        Message::SectionSelected(section) => {
            state.section = section;
            state.selected = None;
        },
        Message::BookSelected(index) => state.selected = Some(index),
    }
}

} // verus!
