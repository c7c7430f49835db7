//! The work a message asks the shell to perform, and drop targets.

use vstd::prelude::*;

use crate::gui::model::{AppState, BookEntry, EntryView, entries_view, spec_entry_key};
use crate::collections::CollectionView;
use crate::inventory::{Book, BookView, copy_book};
use crate::library::collections_view;

verus! {

broadcast use vstd::string::group_string_axioms;

/// Work for the shell to perform after an update.
#[derive(Debug)]
pub enum Effect {
    /// Nothing to do.
    Nothing,
    /// Reload identity, inventory and library.
    LoadAll,
    /// Copy this device book into the local library directory.
    CopyFromKindle(Book),
    /// Upload this local file onto the Kindle.
    AddToKindle { local_path: String, title: String },
}

/// The abstract content of an `Effect`.
pub enum EffectView {
    Nothing,
    LoadAll,
    CopyFromKindle(BookView),
    AddToKindle { local_path: Seq<char>, title: Seq<char> },
}

impl View for Effect {
    type V = EffectView;

    open spec fn view(&self) -> EffectView {
        match self {
            Effect::Nothing => EffectView::Nothing,
            Effect::LoadAll => EffectView::LoadAll,
            Effect::CopyFromKindle(b) => EffectView::CopyFromKindle(b@),
            Effect::AddToKindle { local_path, title } => EffectView::AddToKindle {
                local_path: local_path@,
                title: title@,
            },
        }
    }
}

/// Copying catalogue entry `index` to the library: its device book, if the
/// entry exists and has one.
pub open spec fn spec_copy_task(entries: Seq<EntryView>, index: int) -> EffectView {
    if 0 <= index < entries.len() {
        match entries[index].device {
            Some(b) => EffectView::CopyFromKindle(b),
            None => EffectView::Nothing,
        }
    } else {
        EffectView::Nothing
    }
}

/// Sending catalogue entry `index` to the Kindle: its local file, if the
/// entry exists and has one.
pub open spec fn spec_send_task(entries: Seq<EntryView>, index: int) -> EffectView {
    if 0 <= index < entries.len() {
        match entries[index].local {
            Some(r) => match r.local_path {
                Some(path) => EffectView::AddToKindle { local_path: path, title: entries[index].title },
                None => EffectView::Nothing,
            },
            None => EffectView::Nothing,
        }
    } else {
        EffectView::Nothing
    }
}

/// Task for copying a device book into the local library.
pub fn copy_to_library_task(state: &AppState, index: usize) -> (res: Effect)
    ensures
        res@ == spec_copy_task(entries_view(state.catalogue@), index as int),
{
    if index >= state.catalogue.len() {
        return Effect::Nothing;
    }
    match &state.catalogue[index].device {
        Some(book) => Effect::CopyFromKindle(copy_book(book)),
        None => Effect::Nothing,
    }
}

/// Task for sending a local book file to the Kindle.
pub fn send_to_kindle_task(state: &AppState, index: usize) -> (res: Effect)
    ensures
        res@ == spec_send_task(entries_view(state.catalogue@), index as int),
{
    if index >= state.catalogue.len() {
        return Effect::Nothing;
    }
    let entry = &state.catalogue[index];
    match &entry.local {
        Some(record) => match &record.local_path {
            Some(path) => Effect::AddToKindle { local_path: path.clone(), title: entry.title.clone() },
            None => Effect::Nothing,
        },
        None => Effect::Nothing,
    }
}

/// The (collection name, book key) a drop on a collection adds: the dragged
/// entry's key into the collection at `collection_index`.
pub open spec fn spec_collection_add_target(state: AppState, collection_index: int) -> Option<
    (Seq<char>, Seq<char>),
> {
    match state.drag {
        Some(drag) => {
            let entries = entries_view(state.catalogue@);
            let cols = collections_view(state.collections@);
            if drag.index < entries.len() && 0 <= collection_index < cols.len() {
                Some((cols[collection_index].name, spec_entry_key(entries[drag.index as int])))
            } else {
                None
            }
        },
        None => None,
    }
}

/// The (collection name, book key) a drop on a collection would add, or
/// `None` when there is no active drag or the collection index is invalid.
pub fn collection_add_target(state: &AppState, collection_index: usize) -> (res: Option<
    (String, String),
>)
    ensures
        match res {
            Some(pair) => spec_collection_add_target(*state, collection_index as int) == Some(
                (pair.0@, pair.1@),
            ),
            None => spec_collection_add_target(*state, collection_index as int) is None,
        },
{
    let drag = match state.drag {
        Some(drag) => drag,
        None => return None,
    };
    if drag.index >= state.catalogue.len() || collection_index >= state.collections.len() {
        return None;
    }
    let entry = &state.catalogue[drag.index];
    let collection = &state.collections[collection_index];
    Some((collection.name.clone(), entry.key()))
}

} // verus!
