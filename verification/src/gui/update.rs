//! Message handling of the two-pane library manager.
//!
//! `update` changes the state and names the work the shell must perform
//! next (an `Effect`); the shell performs it and reports back with a
//! message.

use vstd::prelude::*;

use crate::gui::load::LoadResult;
use crate::gui::merge::{build_catalogue, inventory_books, spec_catalogue};
use crate::gui::model::{
    AppState, Drag, DropAction, EntryView, Pane, Sort, SortKey, ViewMode, entries_view,
    spec_has_local_copy,
};
use crate::gui::tasks::{
    Effect, EffectView, copy_to_library_task, send_to_kindle_task, spec_copy_task, spec_send_task,
};
use crate::gui::transfer::{TransferOutcome, spec_summary};
use crate::search::lemma_take_next;

verus! {

broadcast use vstd::string::group_string_axioms;

/// Messages the UI can process.
#[derive(Debug, Clone)]
pub enum Message {
    ViewModeSelected(ViewMode),
    SortSelected(SortKey),
    DragStarted { pane: Pane, index: usize },
    DragOver(Pane),
    DragExited,
    DropOn(Pane),
    DragCancelled,
    CopyToLibrary(usize),
    SendToKindle(usize),
    Refresh,
    Loaded(Box<LoadResult>),
    TransferFinished(Box<Result<TransferOutcome, String>>),
}

/// What a drop on `target` does: a device book dragged from the Kindle pane
/// to the Local pane is copied; a book with a local file dragged from the
/// Local pane to the Kindle pane is sent; anything else does nothing.
pub open spec fn spec_drop_action(state: AppState, target: Pane) -> Option<DropAction> {
    match state.drag {
        Some(drag) => {
            let entries = entries_view(state.catalogue@);
            if drag.index >= entries.len() {
                None
            } else if drag.pane == Pane::Kindle && target == Pane::Local {
                if entries[drag.index as int].device is Some {
                    Some(DropAction::CopyFromKindle { index: drag.index })
                } else {
                    None
                }
            } else if drag.pane == Pane::Local && target == Pane::Kindle {
                if spec_has_local_copy(entries[drag.index as int]) {
                    Some(DropAction::AddToKindle { index: drag.index })
                } else {
                    None
                }
            } else {
                None
            }
        },
        None => None,
    }
}

/// Decide what (if anything) a drop on `target` should do.
pub fn drop_action(state: &AppState, target: Pane) -> (res: Option<DropAction>)
    ensures
        res == spec_drop_action(*state, target),
{
    let drag = match state.drag {
        Some(drag) => drag,
        None => return None,
    };
    if drag.index >= state.catalogue.len() {
        return None;
    }
    let entry = &state.catalogue[drag.index];
    match (drag.pane, target) {
        (Pane::Kindle, Pane::Local) => if entry.device.is_some() {
            Some(DropAction::CopyFromKindle { index: drag.index })
        } else {
            None
        },
        (Pane::Local, Pane::Kindle) => if entry.has_local_copy() {
            Some(DropAction::AddToKindle { index: drag.index })
        } else {
            None
        },
        _ => None,
    }
}

/// The work a drop asks for.
pub open spec fn spec_drop_effect(state: AppState, target: Pane) -> EffectView {
    match spec_drop_action(state, target) {
        Some(DropAction::CopyFromKindle { index }) => spec_copy_task(
            entries_view(state.catalogue@),
            index as int,
        ),
        Some(DropAction::AddToKindle { index }) => spec_send_task(
            entries_view(state.catalogue@),
            index as int,
        ),
        None => EffectView::Nothing,
    }
}

/// The sort after choosing column `key`: the same column flips direction, a
/// new column sorts ascending.
pub open spec fn spec_next_sort(sort: Sort, key: SortKey) -> Sort {
    if sort.key == key {
        Sort { key, ascending: !sort.ascending }
    } else {
        Sort { key, ascending: true }
    }
}

/// `parts` joined with `sep` between consecutive parts.
pub open spec fn join(parts: Seq<Seq<char>>, sep: Seq<char>) -> Seq<char>
    decreases parts.len(),
{
    if parts.len() == 0 {
        Seq::empty()
    } else if parts.len() == 1 {
        parts[0]
    } else {
        join(parts.drop_last(), sep) + sep + parts.last()
    }
}

/// `parts` joined with `; `.
pub fn join_messages(parts: &Vec<String>) -> (res: String)
    ensures
        res@ == join(crate::collections::strings_view(parts@), "; "@),
{
    let ghost pv = crate::collections::strings_view(parts@);
    let mut out = String::new();
    let mut i: usize = 0;
    while i < parts.len()
        invariant
            i <= parts@.len(),
            pv == crate::collections::strings_view(parts@),
            out@ == join(pv.take(i as int), "; "@),
        decreases parts@.len() - i,
    {
        proof {
            lemma_take_next(pv, i as int);
        }
        if i > 0 {
            out.append("; ");
        }
        out.append(parts[i].as_str());
        proof {
            if i == 0 {
                assert(out@ =~= join(pv.take(1), "; "@));
            }
        }
        i = i + 1;
    }
    assert(pv.take(parts@.len() as int) =~= pv);
    out
}

/// The selection after the catalogue is rebuilt: kept while it still names
/// an entry.
pub open spec fn kept_selection(selected: Option<usize>, len: nat) -> Option<usize> {
    match selected {
        Some(s) => if s >= len {
            None
        } else {
            Some(s)
        },
        None => None,
    }
}

/// The status message after a load: unchanged when the load reported no
/// failure, else the failures joined with `; `.
pub open spec fn loaded_status(before: Option<String>, after: Option<String>, errors: Seq<String>) -> bool {
    if errors.len() == 0 {
        after == before
    } else {
        match after {
            Some(m) => m@ == join(crate::collections::strings_view(errors), "; "@),
            None => false,
        }
    }
}

/// Apply a fresh `LoadResult`: rebuild the catalogue and device identity.
pub fn apply_loaded(state: &mut AppState, result: LoadResult)
    ensures
        !final(state).loading,
        final(state).device == result.device,
        entries_view(final(state).catalogue@) == spec_catalogue(
            inventory_books(match result.inventory {
                Some(inv) => Some(&inv),
                None => None,
            }),
            result.library@.records,
        ),
        final(state).selected == kept_selection(
            old(state).selected,
            final(state).catalogue@.len(),
        ),
        result.errors@.len() == 0 ==> final(state).status_message == old(state).status_message,
        result.errors@.len() != 0 ==> match final(state).status_message {
            Some(m) => m@ == join(crate::collections::strings_view(result.errors@), "; "@),
            None => false,
        },
        same_controls(*final(state), *old(state)),
{
    state.loading = false;
    let catalogue = build_catalogue(result.inventory.as_ref(), &result.library);
    state.catalogue = catalogue;
    state.device = result.device;
    if let Some(selected) = state.selected {
        if selected >= state.catalogue.len() {
            state.selected = None;
        }
    }
    if result.errors.len() > 0 {
        state.status_message = Some(join_messages(&result.errors));
    }
}

/// Everything but the catalogue, device, selection, loading flag and status
/// message is the same.
pub open spec fn same_controls(a: AppState, b: AppState) -> bool {
    &&& a.section == b.section
    &&& a.view_mode == b.view_mode
    &&& a.sort == b.sort
    &&& a.drag == b.drag
    &&& a.drop_target == b.drop_target
    &&& a.collections == b.collections
    &&& a.selected_collection == b.selected_collection
}

/// The status message of a failed transfer.
pub open spec fn failure_message(error: Seq<char>) -> Seq<char> {
    "Transfer failed: "@ + error
}

/// Update the state from a message, returning the work the shell must
/// perform next.
pub fn update(state: &mut AppState, message: Message) -> (effect: Effect)
    ensures
        match message {
            Message::ViewModeSelected(mode) => *final(state) == (AppState {
                view_mode: mode,
                ..*old(state)
            }) && effect@ == EffectView::Nothing,
            Message::SortSelected(key) => *final(state) == (AppState {
                sort: spec_next_sort(old(state).sort, key),
                ..*old(state)
            }) && effect@ == EffectView::Nothing,
            Message::DragStarted { pane, index } => *final(state) == (AppState {
                selected: Some(index),
                drag: Some(Drag { pane, index }),
                ..*old(state)
            }) && effect@ == EffectView::Nothing,
            Message::DragOver(pane) => *final(state) == (AppState {
                drop_target: Some(pane),
                ..*old(state)
            }) && effect@ == EffectView::Nothing,
            Message::DragExited => *final(state) == (AppState { drop_target: None, ..*old(state) })
                && effect@ == EffectView::Nothing,
            Message::DropOn(target) => *final(state) == (AppState {
                drag: None,
                drop_target: None,
                ..*old(state)
            }) && effect@ == spec_drop_effect(*old(state), target),
            Message::DragCancelled => *final(state) == (AppState {
                drag: None,
                drop_target: None,
                ..*old(state)
            }) && effect@ == EffectView::Nothing,
            Message::CopyToLibrary(index) => *final(state) == *old(state) && effect@
                == spec_copy_task(entries_view(old(state).catalogue@), index as int),
            Message::SendToKindle(index) => *final(state) == *old(state) && effect@
                == spec_send_task(entries_view(old(state).catalogue@), index as int),
            Message::Refresh => *final(state) == (AppState { loading: true, ..*old(state) })
                && effect@ == EffectView::LoadAll,
            Message::Loaded(result) => !final(state).loading && final(state).device
                == result.device && entries_view(final(state).catalogue@) == spec_catalogue(
                inventory_books(match result.inventory {
                    Some(inv) => Some(&inv),
                    None => None,
                }),
                result.library@.records,
            ) && final(state).selected == kept_selection(
                old(state).selected,
                final(state).catalogue@.len(),
            ) && loaded_status(
                old(state).status_message,
                final(state).status_message,
                result.errors@,
            ) && same_controls(*final(state), *old(state)) && effect@ == EffectView::Nothing,
            Message::TransferFinished(result) => match *result {
                Ok(outcome) => *final(state) == (AppState {
                    loading: true,
                    status_message: final(state).status_message,
                    ..*old(state)
                }) && match final(state).status_message {
                    Some(m) => m@ == spec_summary(outcome),
                    None => false,
                } && effect@ == EffectView::LoadAll,
                Err(error) => *final(state) == (AppState {
                    status_message: final(state).status_message,
                    ..*old(state)
                }) && match final(state).status_message {
                    Some(m) => m@ == failure_message(error@),
                    None => false,
                } && effect@ == EffectView::Nothing,
            },
        },
{
    match message {
        Message::ViewModeSelected(mode) => {
            state.view_mode = mode;
            Effect::Nothing
        },
        Message::SortSelected(key) => {
            if state.sort.key == key {
                state.sort.ascending = !state.sort.ascending;
            } else {
                state.sort = Sort { key, ascending: true };
            }
            Effect::Nothing
        },
        Message::DragStarted { pane, index } => {
            state.selected = Some(index);
            state.drag = Some(Drag { pane, index });
            Effect::Nothing
        },
        Message::DragOver(pane) => {
            state.drop_target = Some(pane);
            Effect::Nothing
        },
        Message::DragExited => {
            state.drop_target = None;
            Effect::Nothing
        },
        Message::DropOn(target) => {
            let action = drop_action(state, target);
            state.drag = None;
            state.drop_target = None;
            match action {
                Some(DropAction::CopyFromKindle { index }) => copy_to_library_task(state, index),
                Some(DropAction::AddToKindle { index }) => send_to_kindle_task(state, index),
                None => Effect::Nothing,
            }
        },
        Message::DragCancelled => {
            state.drag = None;
            state.drop_target = None;
            Effect::Nothing
        },
        Message::CopyToLibrary(index) => copy_to_library_task(state, index),
        Message::SendToKindle(index) => send_to_kindle_task(state, index),
        Message::Refresh => {
            state.loading = true;
            Effect::LoadAll
        },
        Message::Loaded(result) => {
            apply_loaded(state, *result);
            Effect::Nothing
        },
        Message::TransferFinished(result) => match *result {
            Ok(outcome) => {
                state.status_message = Some(outcome.summary());
                state.loading = true;
                Effect::LoadAll
            },
            Err(error) => {
                state.status_message = Some("Transfer failed: ".to_owned().concat(error.as_str()));
                Effect::Nothing
            },
        },
    }
}

} // verus!
