//! Text shown by the shell's views.

use vstd::prelude::*;

use crate::gui::model::{
    AppState, BookEntry, EntryView, entries_view, spec_entry_key, spec_has_local_copy,
};
use crate::inventory::BookFormat;
use crate::library::BookStatus;
use crate::library::contains_key;
use crate::text::{chars_of, decimal_string, radix_digits};

verus! {

broadcast use vstd::string::group_string_axioms;

/// The uppercase form of a character (`char::to_uppercase`), which may be
/// more than one character.
pub uninterp spec fn uppercase_of(c: char) -> Seq<char>;

/// The uppercase form of a character.
///
/// Trusted: `char::to_uppercase` collected into a string. Its result is named
/// `uppercase_of(c)`; the only fact stated about it is the one the std
/// documentation gives for ASCII: a lowercase ASCII letter becomes its
/// uppercase letter, and any other ASCII character stays as it is.
#[verifier::external_body]
fn char_to_uppercase(c: char) -> (res: String)
    ensures
        res@ == uppercase_of(c),
        'a' <= c && c <= 'z' ==> res@ == seq![((c as u32) - 32) as char],
        (c as u32) < 128 && !('a' <= c && c <= 'z') ==> res@ == seq![c],
{
    c.to_uppercase().collect()
}

/// The letter shown on a cover: the uppercased first character of the title,
/// or `?` for an empty title.
pub open spec fn spec_first_letter(title: Seq<char>) -> Seq<char> {
    if title.len() == 0 {
        seq!['?']
    } else {
        uppercase_of(title[0])
    }
}

/// The letter shown on a cover placeholder.
pub fn first_letter(title: &str) -> (res: String)
    ensures
        res@ == spec_first_letter(title@),
{
    let cs = chars_of(title);
    if cs.len() == 0 {
        proof {
            reveal_strlit("?");
        }
        "?".to_owned()
    } else {
        char_to_uppercase(cs[0])
    }
}

/// The status-bar text: the latest message, else the loading notice, else
/// the attached device and book count, else the offline notice.
pub open spec fn spec_status_text(state: AppState) -> Seq<char> {
    match state.status_message {
        Some(message) => message@,
        None => if state.loading {
            "Loading\u{2026}"@
        } else {
            match state.device {
                Some(device) => device.friendly_name@ + " \u{b7} "@ + radix_digits(
                    state.catalogue@.len(),
                    10,
                    false,
                ) + " books"@,
                None => "No Kindle attached \u{b7} local library only"@,
            }
        },
    }
}

/// The status-bar text.
pub fn status_text(state: &AppState) -> (res: String)
    ensures
        res@ == spec_status_text(*state),
{
    if let Some(message) = &state.status_message {
        return message.clone();
    }
    if state.loading {
        return "Loading\u{2026}".to_owned();
    }
    match &state.device {
        Some(device) => device.friendly_name.clone().concat(" \u{b7} ").concat(
            decimal_string(state.catalogue.len() as u64).as_str(),
        ).concat(" books"),
        None => "No Kindle attached \u{b7} local library only".to_owned(),
    }
}

/// An action the details pane offers for the selected book.
#[derive(Debug, Clone, Copy, PartialEq, Eq, Structural)]
pub enum PreviewAction {
    /// Copy the device book into the local library.
    CopyToLibrary,
    /// Send the local file to the Kindle.
    SendToKindle,
    /// Remove the book from the collection being browsed.
    RemoveFromCollection,
}

impl PreviewAction {
    /// The button label of the action.
    pub fn label(&self) -> (res: &'static str)
        ensures
            *self == PreviewAction::CopyToLibrary ==> res@ == "Copy to Library"@,
            *self == PreviewAction::SendToKindle ==> res@ == "Send to Kindle"@,
            *self == PreviewAction::RemoveFromCollection ==> res@ == "Remove from Collection"@,
    {
        proof {
            reveal_strlit("Copy to Library");
            reveal_strlit("Send to Kindle");
            reveal_strlit("Remove from Collection");
        }
        match self {
            PreviewAction::CopyToLibrary => "Copy to Library",
            PreviewAction::SendToKindle => "Send to Kindle",
            PreviewAction::RemoveFromCollection => "Remove from Collection",
        }
    }
}

/// Whether the entry is in the collection being browsed.
pub open spec fn in_browsed_collection(state: AppState, e: EntryView) -> bool {
    match state.selected_collection {
        Some(c) => c < state.collections@.len() && state.collections@[c as int]@.book_keys.contains(
            spec_entry_key(e),
        ),
        None => false,
    }
}

/// The actions offered for catalogue entry `index`, in button order: copy
/// when the book is on the device, send when it has a local file, remove
/// from the browsed collection when it is in it; none for an index past the
/// catalogue.
pub open spec fn spec_preview_actions(state: AppState, index: int) -> Seq<PreviewAction> {
    let entries = entries_view(state.catalogue@);
    if index < 0 || index >= entries.len() {
        Seq::empty()
    } else {
        let e = entries[index];
        (if e.device is Some {
            seq![PreviewAction::CopyToLibrary]
        } else {
            Seq::empty()
        }) + (if spec_has_local_copy(e) {
            seq![PreviewAction::SendToKindle]
        } else {
            Seq::empty()
        }) + (if in_browsed_collection(state, e) {
            seq![PreviewAction::RemoveFromCollection]
        } else {
            Seq::empty()
        })
    }
}

/// The actions the details pane offers for catalogue entry `index`.
pub fn preview_actions(state: &AppState, index: usize) -> (res: Vec<PreviewAction>)
    ensures
        res@ == spec_preview_actions(*state, index as int),
{
    let mut actions: Vec<PreviewAction> = Vec::new();
    if index >= state.catalogue.len() {
        assert(actions@ =~= spec_preview_actions(*state, index as int));
        return actions;
    }
    let entry = &state.catalogue[index];
    let ghost e = entries_view(state.catalogue@)[index as int];
    assert(e == entry@);
    let ghost a: Seq<PreviewAction> = if e.device is Some {
        seq![PreviewAction::CopyToLibrary]
    } else {
        Seq::empty()
    };
    let ghost b: Seq<PreviewAction> = if spec_has_local_copy(e) {
        seq![PreviewAction::SendToKindle]
    } else {
        Seq::empty()
    };
    if entry.device.is_some() {
        actions.push(PreviewAction::CopyToLibrary);
    }
    assert(actions@ =~= a);
    if entry.has_local_copy() {
        actions.push(PreviewAction::SendToKindle);
    }
    assert(actions@ =~= a + b);
    let in_collection = match state.selected_collection {
        Some(c) => if c < state.collections.len() {
            let key = entry.key();
            contains_key(&state.collections[c].book_keys, &key)
        } else {
            false
        },
        None => false,
    };
    if in_collection {
        actions.push(PreviewAction::RemoveFromCollection);
    }
    assert(actions@ =~= spec_preview_actions(*state, index as int));
    actions
}

/// The display label of a format.
pub open spec fn format_label(format: BookFormat) -> Seq<char> {
    match format {
        BookFormat::Kfx => seq!['K', 'F', 'X'],
        BookFormat::Azw => seq!['A', 'Z', 'W'],
    }
}

/// The badge text of a status.
pub open spec fn spec_status_badge(status: BookStatus) -> Seq<char> {
    match status {
        BookStatus::Both => "on device + local"@,
        BookStatus::OnDevice => "on device"@,
        BookStatus::LocalOnly => "local only"@,
    }
}

/// The badge text of a status: where the book is.
pub fn status_badge(status: BookStatus) -> (res: &'static str)
    ensures
        res@ == spec_status_badge(status),
{
    match status {
        BookStatus::Both => "on device + local",
        BookStatus::OnDevice => "on device",
        BookStatus::LocalOnly => "local only",
    }
}

/// The lines the details pane shows for an entry, `size` being the entry's
/// size as displayed: the title; its format, size and status; the device
/// book's identifier when it has one; the local file (or `device only`)
/// when the library holds a record; and the device facts when the book is
/// on the device.
pub open spec fn spec_preview_lines(e: EntryView, size: Seq<char>) -> Seq<Seq<char>> {
    seq![
        e.title,
        "Format: "@ + format_label(e.format),
        "Size: "@ + size,
        "Status: "@ + spec_status_badge(e.status),
    ] + (match e.device {
        Some(b) => match b.asin {
            Some(a) => seq!["ASIN: "@ + a],
            None => Seq::empty(),
        },
        None => Seq::empty(),
    }) + (match e.local {
        Some(r) => seq![
            "Local: "@ + match r.local_path {
                Some(p) => p,
                None => "device only"@,
            },
        ],
        None => Seq::empty(),
    }) + (match e.device {
        Some(b) => seq![
            "On device: yes \u{b7} "@ + radix_digits(b.metadata_handles.len(), 10, false)
                + " metadata objects"@,
        ],
        None => Seq::empty(),
    })
}

/// The lines the details pane shows for an entry; `size` is its size as
/// the shell displays it.
pub fn preview_lines(entry: &BookEntry, size: &str) -> (res: Vec<String>)
    ensures
        res@.map_values(|l: String| l@) == spec_preview_lines(entry@, size@),
{
    let ghost e = entry@;
    let mut lines: Vec<String> = Vec::new();
    lines.push(entry.title.clone());
    lines.push("Format: ".to_owned().concat(entry.format.label()));
    lines.push("Size: ".to_owned().concat(size));
    lines.push("Status: ".to_owned().concat(status_badge(entry.status)));
    let ghost head: Seq<Seq<char>> = seq![
        e.title,
        "Format: "@ + format_label(e.format),
        "Size: "@ + size@,
        "Status: "@ + spec_status_badge(e.status),
    ];
    assert(lines@.map_values(|l: String| l@) =~= head);
    let ghost with_asin: Seq<Seq<char>> = head + (match e.device {
        Some(b) => match b.asin {
            Some(a) => seq!["ASIN: "@ + a],
            None => Seq::empty(),
        },
        None => Seq::empty(),
    });
    if let Some(book) = &entry.device {
        if let Some(asin) = &book.asin {
            lines.push("ASIN: ".to_owned().concat(asin.as_str()));
        }
    }
    assert(lines@.map_values(|l: String| l@) =~= with_asin);
    let ghost with_local: Seq<Seq<char>> = with_asin + (match e.local {
        Some(r) => seq![
            "Local: "@ + match r.local_path {
                Some(p) => p,
                None => "device only"@,
            },
        ],
        None => Seq::empty(),
    });
    if let Some(record) = &entry.local {
        let location = match &record.local_path {
            Some(path) => path.as_str(),
            None => "device only",
        };
        lines.push("Local: ".to_owned().concat(location));
    }
    assert(lines@.map_values(|l: String| l@) =~= with_local);
    if let Some(book) = &entry.device {
        let count = decimal_string(book.metadata_handles.len() as u64);
        lines.push(
            "On device: yes \u{b7} ".to_owned().concat(count.as_str()).concat(" metadata objects"),
        );
    }
    assert(lines@.map_values(|l: String| l@) =~= spec_preview_lines(e, size@));
    lines
}

} // verus!
