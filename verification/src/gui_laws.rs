//! Laws of the desktop shell's state and catalogue.

use vstd::prelude::*;

use crate::gui::merge::{
    device_entry, local_only_entry, local_part, local_record_of, shows_alone, spec_catalogue,
};
use crate::gui::model::{AppState, EntryView, Pane, Section, visible_in, visible_indices};
use crate::gui::update::spec_drop_action;
use crate::inventory::BookView;
use crate::library::{
    BookStatus, RecordView, device_keys, key_is, keys_unique, record_index, spec_book_key,
};
use crate::search::lemma_first_index;

verus! {

/// An index is listed in a section exactly when its entry is visible there.
proof fn lemma_visible_indices(entries: Seq<EntryView>, section: Section, i: int)
    requires
        0 <= i < entries.len(),
        entries.len() <= usize::MAX,
    ensures
        visible_indices(entries, section).contains(i as usize) <==> visible_in(
            section,
            entries[i].status,
        ),
    decreases entries.len(),
{
    let rest = entries.drop_last();
    lemma_visible_indices_bounded(rest, section);
    if i < entries.len() - 1 {
        lemma_visible_indices(rest, section, i);
        assert(rest[i] == entries[i]);
        let v = visible_indices(rest, section);
        if visible_in(section, entries.last().status) {
            let w = v.push((entries.len() - 1) as usize);
            if v.contains(i as usize) {
                let k = choose|k: int| 0 <= k < v.len() && v[k] == i as usize;
                assert(w[k] == i as usize);
            }
            if w.contains(i as usize) {
                let k = choose|k: int| 0 <= k < w.len() && w[k] == i as usize;
                if k < v.len() {
                    assert(v[k] == i as usize);
                }
            }
        }
    } else {
        let v = visible_indices(rest, section);
        if visible_in(section, entries.last().status) {
            let w = v.push((entries.len() - 1) as usize);
            assert(w[v.len() as int] == i as usize);
        } else {
            if v.contains(i as usize) {
                let k = choose|k: int| 0 <= k < v.len() && v[k] == i as usize;
                assert(v[k] < rest.len());
            }
        }
    }
}

/// Every index listed in a section names an entry.
proof fn lemma_visible_indices_bounded(entries: Seq<EntryView>, section: Section)
    requires
        entries.len() <= usize::MAX,
    ensures
        forall|k: int|
            0 <= k < visible_indices(entries, section).len() ==> #[trigger] visible_indices(
                entries,
                section,
            )[k] < entries.len(),
    decreases entries.len(),
{
    if entries.len() > 0 {
        let rest = entries.drop_last();
        lemma_visible_indices_bounded(rest, section);
        let v = visible_indices(rest, section);
        assert forall|k: int|
            0 <= k < visible_indices(entries, section).len() implies #[trigger] visible_indices(
            entries,
            section,
        )[k] < entries.len() by {
            if k < v.len() {
                assert(visible_indices(entries, section)[k] == v[k]);
            }
        }
    }
}

/// The indices listed in a section rise strictly.
proof fn lemma_visible_indices_increasing(entries: Seq<EntryView>, section: Section)
    requires
        entries.len() <= usize::MAX,
    ensures
        forall|a: int, b: int|
            0 <= a < b < visible_indices(entries, section).len() ==> #[trigger] visible_indices(
                entries,
                section,
            )[a] < #[trigger] visible_indices(entries, section)[b],
    decreases entries.len(),
{
    if entries.len() > 0 {
        let rest = entries.drop_last();
        lemma_visible_indices_increasing(rest, section);
        lemma_visible_indices_bounded(rest, section);
        let v = visible_indices(rest, section);
        let w = visible_indices(entries, section);
        assert forall|a: int, b: int| 0 <= a < b < w.len() implies #[trigger] w[a] < #[trigger] w[b] by {
            assert(w[a] == v[a]);
            if b < v.len() {
                assert(w[b] == v[b]);
            }
        }
    }
}

/// The books a section shows: catalogue indices in strictly rising order,
/// each naming an entry, and an entry's index is among them exactly when the
/// entry is visible in the section (the local section hides books only on
/// the device; the Kindle section hides books only in the library).
pub proof fn law_visible_books_listing(entries: Seq<EntryView>, section: Section)
    requires
        entries.len() <= usize::MAX,
    ensures
        forall|a: int, b: int|
            0 <= a < b < visible_indices(entries, section).len() ==> #[trigger] visible_indices(
                entries,
                section,
            )[a] < #[trigger] visible_indices(entries, section)[b],
        forall|k: int|
            0 <= k < visible_indices(entries, section).len() ==> #[trigger] visible_indices(
                entries,
                section,
            )[k] < entries.len(),
        forall|i: int|
            0 <= i < entries.len() ==> (visible_indices(entries, section).contains(i as usize)
                <==> match section {
                Section::LocalLibrary => #[trigger] entries[i].status != BookStatus::OnDevice,
                Section::KindleLibrary => entries[i].status != BookStatus::LocalOnly,
            }),
{
    lemma_visible_indices_increasing(entries, section);
    lemma_visible_indices_bounded(entries, section);
    assert forall|i: int| 0 <= i < entries.len() implies (visible_indices(entries, section).contains(
        i as usize,
    ) <==> match section {
        Section::LocalLibrary => #[trigger] entries[i].status != BookStatus::OnDevice,
        Section::KindleLibrary => entries[i].status != BookStatus::LocalOnly,
    }) by {
        lemma_visible_indices(entries, section, i);
    }
}

/// Whether entry `i` is listed in the local or the Kindle section.
pub open spec fn listed_somewhere(entries: Seq<EntryView>, i: int) -> bool {
    visible_indices(entries, Section::LocalLibrary).contains(i as usize) || visible_indices(
        entries,
        Section::KindleLibrary,
    ).contains(i as usize)
}

/// Whether entry `i` is listed in both sections.
pub open spec fn listed_in_both(entries: Seq<EntryView>, i: int) -> bool {
    visible_indices(entries, Section::LocalLibrary).contains(i as usize) && visible_indices(
        entries,
        Section::KindleLibrary,
    ).contains(i as usize)
}

/// The two sections together list the whole catalogue: every book is in the
/// local library section, the Kindle library section, or both; books on the
/// device and in the library are in both.
pub proof fn law_sections_cover_catalogue(entries: Seq<EntryView>)
    requires
        entries.len() <= usize::MAX,
    ensures
        forall|i: int| 0 <= i < entries.len() ==> #[trigger] listed_somewhere(entries, i),
        forall|i: int|
            0 <= i < entries.len() && entries[i].status == BookStatus::Both ==> #[trigger] listed_in_both(
                entries,
                i,
            ),
{
    assert forall|i: int| 0 <= i < entries.len() implies #[trigger] listed_somewhere(entries, i) by {
        lemma_visible_indices(entries, Section::LocalLibrary, i);
        lemma_visible_indices(entries, Section::KindleLibrary, i);
    }
    assert forall|i: int|
        0 <= i < entries.len() && entries[i].status == BookStatus::Both implies #[trigger] listed_in_both(
        entries,
        i,
    ) by {
        lemma_visible_indices(entries, Section::LocalLibrary, i);
        lemma_visible_indices(entries, Section::KindleLibrary, i);
    }
}

/// Dropping a book on the pane it was dragged from does nothing.
pub proof fn law_drop_on_same_pane_does_nothing(state: AppState)
    requires
        state.drag is Some,
    ensures
        spec_drop_action(state, state.drag.unwrap().pane) is None,
{
}

/// The catalogue lists every device book once, in inventory order, each
/// marked `Both` exactly when the library holds a local file for it.
pub proof fn law_catalogue_lists_device_books(books: Seq<BookView>, records: Seq<RecordView>)
    ensures
        spec_catalogue(books, records).len() >= books.len(),
        forall|k: int|
            0 <= k < books.len() ==> (#[trigger] spec_catalogue(books, records)[k]).device == Some(
                books[k],
            ),
        forall|k: int|
            0 <= k < books.len() ==> ((#[trigger] spec_catalogue(books, records)[k]).status
                == BookStatus::Both <==> match local_record_of(books[k], records) {
                Some(r) => r.local_path is Some,
                None => false,
            }),
{
}

/// With unique record keys, every library record that holds a local file is
/// shown in the catalogue: beside its device book, or on its own.
pub proof fn law_catalogue_shows_local_files(books: Seq<BookView>, records: Seq<RecordView>)
    requires
        keys_unique(records),
    ensures
        forall|j: int|
            0 <= j < records.len() && (#[trigger] records[j]).local_path is Some ==> exists|e: int|
                0 <= e < spec_catalogue(books, records).len() && #[trigger] spec_catalogue(
                    books,
                    records,
                )[e].local == Some(records[j]),
{
    broadcast use vstd::seq_lib::group_seq_properties;

    let cat = spec_catalogue(books, records);
    let keys = device_keys(books);
    assert forall|j: int| 0 <= j < records.len() && (#[trigger] records[j]).local_path is Some implies exists|e: int|
        0 <= e < cat.len() && #[trigger] cat[e].local == Some(records[j]) by {
        let r = records[j];
        if keys.contains(r.key) {
            let k = choose|k: int| 0 <= k < keys.len() && keys[k] == r.key;
            assert(spec_book_key(books[k]) == r.key);
            lemma_first_index(records, key_is(r.key));
            let i = record_index(records, r.key).unwrap();
            assert(records[i].key == r.key);
            assert(i == j);
            assert(cat[k] == device_entry(books[k], records));
            assert(cat[k].local == Some(records[j]));
        } else {
            let p = shows_alone(keys);
            assert(p(r));
            records.lemma_filter_contains(p, j);
            let filtered = records.filter(p);
            let m = choose|m: int| 0 <= m < filtered.len() && filtered[m] == r;
            let lp = local_part(books, records);
            assert(lp[m] == local_only_entry(r));
            assert(cat[books.len() + m] == lp[m]);
            assert(cat[books.len() + m].local == Some(records[j]));
        }
    }
}

/// Every catalogue entry carries the title, format and size of what it
/// shows: the first entries are the device books, in order, each with its
/// own title, format and size; every other entry is a library record with a
/// local file shown on its own, local only, with that record's title,
/// format and size.
pub proof fn law_catalogue_entries_carry_their_book(books: Seq<BookView>, records: Seq<RecordView>)
    ensures
        spec_catalogue(books, records).len() >= books.len(),
        forall|k: int|
            0 <= k < books.len() ==> {
                let e = #[trigger] spec_catalogue(books, records)[k];
                &&& e.device == Some(books[k])
                &&& e.title == books[k].title
                &&& e.format == books[k].format
                &&& e.size_bytes == books[k].size_bytes
            },
        forall|k: int|
            books.len() <= k < spec_catalogue(books, records).len() ==> {
                let e = #[trigger] spec_catalogue(books, records)[k];
                &&& e.device is None
                &&& e.status == BookStatus::LocalOnly
                &&& e.local matches Some(r) && records.contains(r) && r.local_path is Some
                    && e.title == r.title && e.format == r.format && e.size_bytes == r.size_bytes
            },
{
    let keys = device_keys(books);
    let p = shows_alone(keys);
    records.filter_lemma(p);
    let cat = spec_catalogue(books, records);
    let filtered = records.filter(p);
    assert forall|k: int| books.len() <= k < cat.len() implies {
        let e = #[trigger] cat[k];
        &&& e.device is None
        &&& e.status == BookStatus::LocalOnly
        &&& e.local matches Some(r) && records.contains(r) && r.local_path is Some && e.title
            == r.title && e.format == r.format && e.size_bytes == r.size_bytes
    } by {
        let m = k - books.len();
        assert(cat[k] == local_part(books, records)[m]);
        assert(local_part(books, records)[m] == local_only_entry(filtered[m]));
        assert(p(filtered[m]));
        assert(filtered.contains(filtered[m]));
        records.lemma_filter_contains_rev(p, filtered[m]);
    }
}

} // verus!
