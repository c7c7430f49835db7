//! Merge the device inventory and local library into UI entries.

use vstd::prelude::*;

use crate::gui::model::{BookEntry, EntryView, entries_view};
use crate::inventory::{BookView, KindleInventory, books_view, copy_book};
use crate::library::{
    BookStatus, LibraryRecord, LocalLibrary, RecordView, book_key, copy_record, device_keys,
    record_index, records_view, spec_book_key,
};
use crate::search::{lemma_first_index, lemma_take_next};

verus! {

broadcast use vstd::string::group_string_axioms;

/// The local record of a device book: the record stored under its key.
pub open spec fn local_record_of(b: BookView, records: Seq<RecordView>) -> Option<RecordView> {
    match record_index(records, spec_book_key(b)) {
        Some(i) => Some(records[i]),
        None => None,
    }
}

/// The UI entry of a device book: `Both` when its record holds a local
/// file, otherwise `OnDevice`.
pub open spec fn device_entry(b: BookView, records: Seq<RecordView>) -> EntryView {
    let local = local_record_of(b, records);
    EntryView {
        title: b.title,
        format: b.format,
        size_bytes: b.size_bytes,
        status: match local {
            Some(r) => if r.local_path is Some {
                BookStatus::Both
            } else {
                BookStatus::OnDevice
            },
            None => BookStatus::OnDevice,
        },
        device: Some(b),
        local,
    }
}

/// The UI entry of a record shown on its own.
pub open spec fn local_only_entry(r: RecordView) -> EntryView {
    EntryView {
        title: r.title,
        format: r.format,
        size_bytes: r.size_bytes,
        status: BookStatus::LocalOnly,
        device: None,
        local: Some(r),
    }
}

/// Records shown on their own: they hold a local file and no device book
/// has their key.
pub open spec fn shows_alone(keys: Seq<Seq<char>>) -> spec_fn(RecordView) -> bool {
    |r: RecordView| r.local_path is Some && !keys.contains(r.key)
}

/// The device part of the catalogue: one entry per device book, in order.
pub open spec fn device_part(books: Seq<BookView>, records: Seq<RecordView>) -> Seq<EntryView> {
    books.map_values(|b: BookView| device_entry(b, records))
}

/// The local part of the catalogue: one entry per record shown on its own,
/// in library order.
pub open spec fn local_part(books: Seq<BookView>, records: Seq<RecordView>) -> Seq<EntryView> {
    records.filter(shows_alone(device_keys(books))).map_values(|r: RecordView| local_only_entry(r))
}

/// The merged catalogue: device books first, then local-only records.
pub open spec fn spec_catalogue(books: Seq<BookView>, records: Seq<RecordView>) -> Seq<EntryView> {
    device_part(books, records) + local_part(books, records)
}

/// The books of an optional inventory.
pub open spec fn inventory_books(inventory: Option<&KindleInventory>) -> Seq<BookView> {
    match inventory {
        Some(inv) => books_view(inv.books@),
        None => Seq::empty(),
    }
}

/// One entry per device book; `Both` when a local copy exists.
pub fn device_entries(inventory: &KindleInventory, library: &LocalLibrary) -> (res: Vec<BookEntry>)
    ensures
        entries_view(res@) == device_part(books_view(inventory.books@), library@.records),
{
    let ghost bv = books_view(inventory.books@);
    let ghost records = library@.records;
    let mut entries: Vec<BookEntry> = Vec::new();
    let mut i: usize = 0;
    while i < inventory.books.len()
        invariant
            i <= inventory.books@.len(),
            bv == books_view(inventory.books@),
            records == library@.records,
            entries_view(entries@) == device_part(bv.take(i as int), records),
        decreases inventory.books@.len() - i,
    {
        proof {
            lemma_take_next(bv, i as int);
        }
        let book = &inventory.books[i];
        let key = book_key(book);
        proof {
            lemma_first_index(records, crate::library::key_is(key@));
        }
        let local = library.lookup(key.as_str());
        let has_local = match local {
            Some(record) => record.local_path.is_some(),
            None => false,
        };
        let entry = BookEntry {
            title: book.title.clone(),
            format: book.format,
            size_bytes: book.size_bytes,
            status: if has_local {
                BookStatus::Both
            } else {
                BookStatus::OnDevice
            },
            device: Some(copy_book(book)),
            local: match local {
                Some(record) => Some(copy_record(record)),
                None => None,
            },
        };
        assert(entry@ == device_entry(bv[i as int], records));
        let ghost before = entries@;
        entries.push(entry);
        proof {
            assert(entries_view(entries@) =~= entries_view(before).push(entry@));
            assert(device_part(bv.take(i + 1), records) =~= device_part(bv.take(i as int), records).push(
                device_entry(bv[i as int], records),
            ));
        }
        i = i + 1;
    }
    assert(bv.take(inventory.books@.len() as int) =~= bv);
    entries
}

/// Whether `keys` holds `key`.
fn has_key(keys: &Vec<String>, key: &String) -> (res: bool)
    ensures
        res == crate::collections::strings_view(keys@).contains(key@),
{
    let ghost kv = crate::collections::strings_view(keys@);
    let mut i: usize = 0;
    while i < keys.len()
        invariant
            i <= keys@.len(),
            kv == crate::collections::strings_view(keys@),
            forall|k: int| 0 <= k < i ==> kv[k] != key@,
        decreases keys@.len() - i,
    {
        if keys[i] == *key {
            assert(kv[i as int] == key@);
            return true;
        }
        i = i + 1;
    }
    false
}

/// Local records that hold a file and are not on the device.
pub fn local_only_entries(library: &LocalLibrary, device_key_list: &Vec<String>) -> (res: Vec<
    BookEntry,
>)
    ensures
        entries_view(res@) == library@.records.filter(
            shows_alone(crate::collections::strings_view(device_key_list@)),
        ).map_values(|r: RecordView| local_only_entry(r)),
{
    broadcast use vstd::seq_lib::group_seq_properties;

    let ghost records = library@.records;
    let ghost p = shows_alone(crate::collections::strings_view(device_key_list@));
    let mut entries: Vec<BookEntry> = Vec::new();
    let mut i: usize = 0;
    while i < library.records.len()
        invariant
            i <= library.records@.len(),
            records == library@.records,
            p == shows_alone(crate::collections::strings_view(device_key_list@)),
            entries_view(entries@) == records.take(i as int).filter(p).map_values(
                |r: RecordView| local_only_entry(r),
            ),
        decreases library.records@.len() - i,
    {
        proof {
            lemma_take_next(records, i as int);
            records.take(i as int).lemma_filter_push(records[i as int], p);
        }
        let record = &library.records[i];
        if record.local_path.is_some() && !has_key(device_key_list, &record.key) {
            let entry = BookEntry {
                title: record.title.clone(),
                format: record.format,
                size_bytes: record.size_bytes,
                status: BookStatus::LocalOnly,
                device: None,
                local: Some(copy_record(record)),
            };
            let ghost before = entries@;
            entries.push(entry);
            proof {
                assert(entries_view(entries@) =~= entries_view(before).push(entry@));
                assert(records.take(i + 1).filter(p).map_values(|r: RecordView| local_only_entry(r))
                    =~= records.take(i as int).filter(p).map_values(
                    |r: RecordView| local_only_entry(r),
                ).push(local_only_entry(records[i as int])));
            }
        }
        i = i + 1;
    }
    assert(records.take(library.records@.len() as int) =~= records);
    entries
}

/// Merge device books and local records into one UI catalogue.
pub fn build_catalogue(inventory: Option<&KindleInventory>, library: &LocalLibrary) -> (res: Vec<
    BookEntry,
>)
    ensures
        entries_view(res@) == spec_catalogue(inventory_books(inventory), library@.records),
{
    let ghost books = inventory_books(inventory);
    let mut keys: Vec<String> = Vec::new();
    let mut entries: Vec<BookEntry> = match inventory {
        Some(inv) => {
            let mut i: usize = 0;
            while i < inv.books.len()
                invariant
                    i <= inv.books@.len(),
                    books == books_view(inv.books@),
                    crate::collections::strings_view(keys@) == device_keys(books.take(i as int)),
                decreases inv.books@.len() - i,
            {
                proof {
                    lemma_take_next(books, i as int);
                }
                let ghost before = keys@;
                let key = book_key(&inv.books[i]);
                keys.push(key);
                proof {
                    assert(crate::collections::strings_view(keys@) =~= crate::collections::strings_view(
                        before,
                    ).push(key@));
                    assert(device_keys(books.take(i + 1)) =~= device_keys(books.take(i as int)).push(
                        spec_book_key(books[i as int]),
                    ));
                }
                i = i + 1;
            }
            assert(books.take(inv.books@.len() as int) =~= books);
            device_entries(inv, library)
        },
        None => {
            assert(device_keys(books) =~= Seq::<Seq<char>>::empty());
            assert(crate::collections::strings_view(keys@) =~= Seq::<Seq<char>>::empty());
            let empty: Vec<BookEntry> = Vec::new();
            assert(entries_view(empty@) =~= device_part(books, library@.records));
            empty
        },
    };
    let local = local_only_entries(library, &keys);
    let ghost device_seq = entries_view(entries@);
    let mut j: usize = 0;
    while j < local.len()
        invariant
            j <= local@.len(),
            entries_view(entries@) == device_seq + entries_view(local@).take(j as int),
        decreases local@.len() - j,
    {
        let ghost before = entries@;
        let entry = copy_entry(&local[j]);
        entries.push(entry);
        proof {
            assert(entries_view(entries@) =~= entries_view(before).push(entry@));
            assert(entries_view(local@).take(j + 1) =~= entries_view(local@).take(j as int).push(
                entries_view(local@)[j as int],
            ));
        }
        j = j + 1;
    }
    assert(entries_view(local@).take(local@.len() as int) =~= entries_view(local@));
    entries
}

/// A copy of an entry.
pub fn copy_entry(entry: &BookEntry) -> (res: BookEntry)
    ensures
        res@ == entry@,
{
    BookEntry {
        title: entry.title.clone(),
        format: entry.format,
        size_bytes: entry.size_bytes,
        status: entry.status,
        device: match &entry.device {
            Some(b) => Some(copy_book(b)),
            None => None,
        },
        local: match &entry.local {
            Some(r) => Some(copy_record(r)),
            None => None,
        },
    }
}

} // verus!
