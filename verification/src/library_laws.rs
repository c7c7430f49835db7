//! Laws of the local library: what its operations promise together.

use vstd::prelude::*;

use crate::inventory::BookView;
use crate::library::{
    RecordView, add_missing, device_keys, key_is, key_is_not, keys_unique, mark_all,
    mark_presence, new_record, reconciled, record_index, spec_book_key, spec_upsert,
};
use crate::search::{
    first_index, lemma_first_index, lemma_first_index_exists, lemma_first_index_none,
    lemma_first_index_push_none, lemma_first_index_push_some, lemma_first_index_unique,
};

verus! {

/// Reading a key right after writing a record under it gives that record
/// back.
pub proof fn law_lookup_after_upsert(records: Seq<RecordView>, record: RecordView)
    ensures
        ({
            let after = spec_upsert(records, record);
            match record_index(after, record.key) {
                Some(i) => after[i] == record,
                None => false,
            }
        }),
{
    let p = key_is(record.key);
    lemma_first_index(records, p);
    match record_index(records, record.key) {
        Some(i) => {
            let after = records.update(i, record);
            assert forall|k: int| 0 <= k < i implies !p(#[trigger] after[k]) by {
                assert(after[k] == records[k]);
            }
            lemma_first_index_unique(after, p, i);
        },
        None => {
            lemma_first_index_push_none(records, record, p);
        },
    }
}

/// Writing a record leaves every record under another key where it was.
pub proof fn law_upsert_keeps_other_keys(records: Seq<RecordView>, record: RecordView, key: Seq<char>)
    requires
        key != record.key,
    ensures
        record_index(spec_upsert(records, record), key) == record_index(records, key),
        match record_index(records, key) {
            Some(i) => spec_upsert(records, record)[i] == records[i],
            None => true,
        },
{
    let p = key_is(key);
    let q = key_is(record.key);
    lemma_first_index(records, p);
    lemma_first_index(records, q);
    match record_index(records, record.key) {
        Some(j) => {
            let after = records.update(j, record);
            lemma_first_index(after, p);
            match record_index(records, key) {
                Some(i) => {
                    assert forall|k: int| 0 <= k < i implies !p(#[trigger] after[k]) by {
                        if k != j {
                            assert(after[k] == records[k]);
                        }
                    }
                    assert(after[i] == records[i]);
                    lemma_first_index_unique(after, p, i);
                },
                None => {
                    assert forall|k: int| 0 <= k < after.len() implies !p(#[trigger] after[k]) by {
                        if k != j {
                            assert(after[k] == records[k]);
                        }
                    }
                    lemma_first_index_none(after, p);
                },
            }
        },
        None => {
            match record_index(records, key) {
                Some(i) => {
                    lemma_first_index_push_some(records, record, p);
                },
                None => {
                    let after = records.push(record);
                    assert forall|k: int| 0 <= k < after.len() implies !p(#[trigger] after[k]) by {
                        if k < records.len() {
                            assert(after[k] == records[k]);
                        }
                    }
                    lemma_first_index_none(after, p);
                },
            }
        },
    }
}

/// Writing records never creates two records with one key.
pub proof fn law_upsert_keeps_keys_unique(records: Seq<RecordView>, record: RecordView)
    requires
        keys_unique(records),
    ensures
        keys_unique(spec_upsert(records, record)),
{
    let p = key_is(record.key);
    lemma_first_index(records, p);
    let after = spec_upsert(records, record);
    match record_index(records, record.key) {
        Some(i) => {
            assert forall|a: int, b: int|
                0 <= a < after.len() && 0 <= b < after.len() && a != b implies #[trigger] after[a].key
                != #[trigger] after[b].key by {
                if a != i && b != i {
                    assert(after[a] == records[a] && after[b] == records[b]);
                } else if a == i {
                    assert(after[b] == records[b]);
                    assert(records[i].key == record.key);
                } else {
                    assert(after[a] == records[a]);
                    assert(records[i].key == record.key);
                }
            }
        },
        None => {
            assert forall|a: int, b: int|
                0 <= a < after.len() && 0 <= b < after.len() && a != b implies #[trigger] after[a].key
                != #[trigger] after[b].key by {
                if a < records.len() && b < records.len() {
                    assert(after[a] == records[a] && after[b] == records[b]);
                } else if a < records.len() {
                    assert(after[a] == records[a]);
                    assert(!p(records[a]));
                } else {
                    assert(after[b] == records[b]);
                    assert(!p(records[b]));
                }
            }
        },
    }
}

/// After removing a key, no record has it, and every other record stays.
pub proof fn law_remove_forgets_key(records: Seq<RecordView>, key: Seq<char>)
    ensures
        record_index(records.filter(key_is_not(key)), key) is None,
        forall|r: RecordView| r.key != key ==> (records.contains(r) <==> records.filter(
            key_is_not(key),
        ).contains(r)),
{
    broadcast use vstd::seq_lib::group_seq_properties;

    let kept = records.filter(key_is_not(key));
    assert forall|k: int| 0 <= k < kept.len() implies !key_is(key)(#[trigger] kept[k]) by {
        records.lemma_filter_pred(key_is_not(key), k);
    }
    lemma_first_index_none(kept, key_is(key));
    assert forall|r: RecordView| r.key != key implies (records.contains(r) <==> kept.contains(r)) by {
        if records.contains(r) {
            let k = choose|k: int| 0 <= k < records.len() && records[k] == r;
            records.lemma_filter_contains(key_is_not(key), k);
        }
        if kept.contains(r) {
            records.lemma_filter_contains_rev(key_is_not(key), r);
        }
    }
}

// ---------------------------------------------------------------------------
// Reconcile
// ---------------------------------------------------------------------------

/// The records a reconcile starts from stay in front, in order.
proof fn lemma_add_missing_prefix(records: Seq<RecordView>, books: Seq<BookView>, serial: Option<Seq<char>>)
    ensures
        add_missing(records, books, serial).len() >= records.len(),
        forall|j: int| 0 <= j < records.len() ==> #[trigger] add_missing(records, books, serial)[j]
            == records[j],
    decreases books.len(),
{
    if books.len() > 0 {
        lemma_add_missing_prefix(records, books.drop_last(), serial);
    }
}

/// After adding missing records, every device book's key has a record.
proof fn lemma_add_missing_covers(records: Seq<RecordView>, books: Seq<BookView>, serial: Option<Seq<char>>)
    ensures
        forall|k: int|
            0 <= k < books.len() ==> record_index(
                add_missing(records, books, serial),
                spec_book_key(#[trigger] books[k]),
            ) is Some,
    decreases books.len(),
{
    if books.len() > 0 {
        let prev = add_missing(records, books.drop_last(), serial);
        lemma_add_missing_covers(records, books.drop_last(), serial);
        let b = books.last();
        assert forall|k: int| 0 <= k < books.len() implies record_index(
            add_missing(records, books, serial),
            spec_book_key(#[trigger] books[k]),
        ) is Some by {
            let key = spec_book_key(books[k]);
            if k < books.len() - 1 {
                assert(books[k] == books.drop_last()[k]);
                if record_index(prev, spec_book_key(b)) is None {
                    lemma_first_index_push_some(prev, new_record(b, serial), key_is(key));
                }
            } else {
                if record_index(prev, spec_book_key(b)) is None {
                    lemma_first_index_push_none(prev, new_record(b, serial), key_is(key));
                }
            }
        }
    }
}

/// Adding missing records never duplicates a key.
proof fn lemma_add_missing_unique(records: Seq<RecordView>, books: Seq<BookView>, serial: Option<Seq<char>>)
    requires
        keys_unique(records),
    ensures
        keys_unique(add_missing(records, books, serial)),
    decreases books.len(),
{
    if books.len() > 0 {
        let prev = add_missing(records, books.drop_last(), serial);
        lemma_add_missing_unique(records, books.drop_last(), serial);
        let b = books.last();
        let r = new_record(b, serial);
        if record_index(prev, spec_book_key(b)) is None {
            lemma_first_index(prev, key_is(spec_book_key(b)));
            let after = prev.push(r);
            assert forall|a: int, c: int|
                0 <= a < after.len() && 0 <= c < after.len() && a != c implies #[trigger] after[a].key
                != #[trigger] after[c].key by {
                if a < prev.len() && c < prev.len() {
                    assert(after[a] == prev[a] && after[c] == prev[c]);
                } else if a < prev.len() {
                    assert(after[a] == prev[a]);
                    assert(!key_is(spec_book_key(b))(prev[a]));
                } else {
                    assert(after[c] == prev[c]);
                    assert(!key_is(spec_book_key(b))(prev[c]));
                }
            }
        }
    }
}

/// Adding missing records changes nothing when every device book already
/// has a record.
proof fn lemma_add_missing_noop(records: Seq<RecordView>, books: Seq<BookView>, serial: Option<Seq<char>>)
    requires
        forall|k: int| 0 <= k < books.len() ==> record_index(records, spec_book_key(#[trigger] books[k])) is Some,
    ensures
        add_missing(records, books, serial) == records,
    decreases books.len(),
{
    if books.len() > 0 {
        assert forall|k: int| 0 <= k < books.drop_last().len() implies record_index(
            records,
            spec_book_key(#[trigger] books.drop_last()[k]),
        ) is Some by {
            assert(books.drop_last()[k] == books[k]);
        }
        lemma_add_missing_noop(records, books.drop_last(), serial);
        assert(record_index(records, spec_book_key(books[books.len() - 1])) is Some);
    }
}

/// Marking presence again changes nothing.
proof fn lemma_mark_presence_idempotent(r: RecordView, keys: Seq<Seq<char>>, serial: Option<Seq<char>>)
    ensures
        mark_presence(mark_presence(r, keys, serial), keys, serial) == mark_presence(r, keys, serial),
{
}

/// After a reconcile, every book on the device has a record, marked on the
/// device and last seen on this device.
pub proof fn law_reconcile_records_device_books(
    records: Seq<RecordView>,
    books: Seq<BookView>,
    serial: Option<Seq<char>>,
)
    ensures
        forall|k: int|
            0 <= k < books.len() ==> exists|j: int|
                0 <= j < reconciled(records, books, serial).len() && #[trigger] reconciled(
                    records,
                    books,
                    serial,
                )[j].key == spec_book_key(#[trigger] books[k]) && reconciled(records, books, serial)[j].on_device
                    && reconciled(records, books, serial)[j].last_seen_device == serial,
{
    let added = add_missing(records, books, serial);
    let keys = device_keys(books);
    lemma_add_missing_covers(records, books, serial);
    assert forall|k: int| 0 <= k < books.len() implies exists|j: int|
        0 <= j < reconciled(records, books, serial).len() && #[trigger] reconciled(
            records,
            books,
            serial,
        )[j].key == spec_book_key(#[trigger] books[k]) && reconciled(records, books, serial)[j].on_device
            && reconciled(records, books, serial)[j].last_seen_device == serial by {
        let key = spec_book_key(books[k]);
        let out = reconciled(records, books, serial);
        lemma_first_index(added, key_is(key));
        let j = record_index(added, key).unwrap();
        assert(keys[k] == key);
        assert(keys.contains(key));
        assert(out[j] == mark_presence(added[j], keys, serial));
        assert(out[j].key == key && out[j].on_device && out[j].last_seen_device == serial);
    }
}

/// After a reconcile, a record is marked on the device exactly when its key
/// is the key of a book on the device.
pub proof fn law_reconcile_presence_matches_device(
    records: Seq<RecordView>,
    books: Seq<BookView>,
    serial: Option<Seq<char>>,
)
    ensures
        forall|j: int|
            0 <= j < reconciled(records, books, serial).len() ==> (#[trigger] reconciled(
                records,
                books,
                serial,
            )[j].on_device <==> device_keys(books).contains(reconciled(records, books, serial)[j].key)),
{
}

/// A reconcile never drops a record: the records it starts from keep their
/// places, their keys, titles, formats, sizes, local files and covers; only
/// their presence changes.
pub proof fn law_reconcile_keeps_records(
    records: Seq<RecordView>,
    books: Seq<BookView>,
    serial: Option<Seq<char>>,
)
    ensures
        reconciled(records, books, serial).len() >= records.len(),
        forall|j: int|
            0 <= j < records.len() ==> #[trigger] reconciled(records, books, serial)[j] == mark_presence(
                records[j],
                device_keys(books),
                serial,
            ),
{
    lemma_add_missing_prefix(records, books, serial);
}

/// A reconcile keeps record keys unique.
pub proof fn law_reconcile_keeps_keys_unique(
    records: Seq<RecordView>,
    books: Seq<BookView>,
    serial: Option<Seq<char>>,
)
    requires
        keys_unique(records),
    ensures
        keys_unique(reconciled(records, books, serial)),
{
    lemma_add_missing_unique(records, books, serial);
    let added = add_missing(records, books, serial);
    let out = reconciled(records, books, serial);
    assert forall|a: int, c: int|
        0 <= a < out.len() && 0 <= c < out.len() && a != c implies #[trigger] out[a].key
        != #[trigger] out[c].key by {
        assert(out[a].key == added[a].key);
        assert(out[c].key == added[c].key);
    }
}

/// Reconciling twice against the same inventory gives what reconciling once
/// gives.
pub proof fn law_reconcile_idempotent(
    records: Seq<RecordView>,
    books: Seq<BookView>,
    serial: Option<Seq<char>>,
)
    ensures
        reconciled(reconciled(records, books, serial), books, serial) == reconciled(
            records,
            books,
            serial,
        ),
{
    let once = reconciled(records, books, serial);
    let added = add_missing(records, books, serial);
    let keys = device_keys(books);
    lemma_add_missing_covers(records, books, serial);
    assert forall|k: int| 0 <= k < books.len() implies record_index(
        once,
        spec_book_key(#[trigger] books[k]),
    ) is Some by {
        let key = spec_book_key(books[k]);
        lemma_first_index(added, key_is(key));
        let j = record_index(added, key).unwrap();
        assert(once[j].key == added[j].key);
        lemma_first_index_exists(once, key_is(key), j);
    }
    lemma_add_missing_noop(once, books, serial);
    assert forall|j: int| 0 <= j < once.len() implies #[trigger] mark_all(once, keys, serial)[j]
        == once[j] by {
        lemma_mark_presence_idempotent(added[j], keys, serial);
    }
    assert(mark_all(once, keys, serial) =~= once);
}

// ---------------------------------------------------------------------------
// What a reconcile appends
// ---------------------------------------------------------------------------

/// The device books a reconcile adds records for: in inventory order, the
/// first book of each key that the library does not hold yet.
pub open spec fn missing_books(records: Seq<RecordView>, books: Seq<BookView>) -> Seq<BookView>
    decreases books.len(),
{
    if books.len() == 0 {
        Seq::empty()
    } else {
        let prev = missing_books(records, books.drop_last());
        let b = books.last();
        if record_index(records, spec_book_key(b)) is Some || device_keys(prev).contains(
            spec_book_key(b),
        ) {
            prev
        } else {
            prev.push(b)
        }
    }
}

/// The records new device books get.
pub open spec fn new_records(books: Seq<BookView>, serial: Option<Seq<char>>) -> Seq<RecordView> {
    books.map_values(|b: BookView| new_record(b, serial))
}

/// Whether `picked` is `books` with some books left out, the rest in order.
pub open spec fn in_order_within(picked: Seq<BookView>, books: Seq<BookView>, at: Seq<int>) -> bool {
    &&& at.len() == picked.len()
    &&& forall|i: int| 0 <= i < at.len() ==> 0 <= #[trigger] at[i] < books.len() && books[at[i]] == picked[i]
    &&& forall|i: int, j: int| 0 <= i < j < at.len() ==> #[trigger] at[i] < #[trigger] at[j]
}

/// A key has a record exactly when some record carries it.
proof fn lemma_has_key(s: Seq<RecordView>, key: Seq<char>)
    ensures
        record_index(s, key) is Some <==> exists|j: int| 0 <= j < s.len() && #[trigger] s[j].key == key,
{
    lemma_first_index(s, key_is(key));
    if exists|j: int| 0 <= j < s.len() && #[trigger] s[j].key == key {
        let j = choose|j: int| 0 <= j < s.len() && #[trigger] s[j].key == key;
        lemma_first_index_exists(s, key_is(key), j);
    }
}

/// The books picked for new records are fresh, of distinct keys, cover every
/// missing key, and come in inventory order.
proof fn lemma_missing_books(records: Seq<RecordView>, books: Seq<BookView>) -> (at: Seq<int>)
    ensures
        forall|i: int|
            0 <= i < missing_books(records, books).len() ==> record_index(
                records,
                spec_book_key(#[trigger] missing_books(records, books)[i]),
            ) is None,
        forall|i: int, j: int|
            0 <= i < j < missing_books(records, books).len() ==> spec_book_key(
                #[trigger] missing_books(records, books)[i],
            ) != spec_book_key(#[trigger] missing_books(records, books)[j]),
        forall|k: int|
            0 <= k < books.len() && record_index(records, spec_book_key(#[trigger] books[k])) is None
                ==> device_keys(missing_books(records, books)).contains(spec_book_key(books[k])),
        in_order_within(missing_books(records, books), books, at),
    decreases books.len(),
{
    if books.len() == 0 {
        Seq::empty()
    } else {
        let bl = books.drop_last();
        let prev = missing_books(records, bl);
        let at_prev = lemma_missing_books(records, bl);
        let b = books.last();
        let key = spec_book_key(b);
        let mb = missing_books(records, books);
        let grows = !(record_index(records, key) is Some || device_keys(prev).contains(key));
        let at = if grows {
            at_prev.push(books.len() - 1)
        } else {
            at_prev
        };
        assert forall|i: int| 0 <= i < mb.len() implies record_index(
            records,
            spec_book_key(#[trigger] mb[i]),
        ) is None by {
            if i < prev.len() {
                assert(mb[i] == prev[i]);
            }
        }
        assert forall|i: int, j: int| 0 <= i < j < mb.len() implies spec_book_key(#[trigger] mb[i])
            != spec_book_key(#[trigger] mb[j]) by {
            assert(mb[i] == prev[i]);
            if j < prev.len() {
                assert(mb[j] == prev[j]);
            } else {
                assert(device_keys(prev)[i] == spec_book_key(prev[i]));
            }
        }
        assert forall|k: int|
            0 <= k < books.len() && record_index(records, spec_book_key(#[trigger] books[k])) is None
            implies device_keys(mb).contains(spec_book_key(books[k])) by {
            let kk = spec_book_key(books[k]);
            if k < bl.len() {
                assert(bl[k] == books[k]);
                let i = choose|i: int| 0 <= i < device_keys(prev).len() && device_keys(prev)[i] == kk;
                assert(mb[i] == prev[i]);
                assert(device_keys(mb)[i] == kk);
            } else if grows {
                assert(device_keys(mb)[prev.len() as int] == kk);
            } else {
                let i = choose|i: int| 0 <= i < device_keys(prev).len() && device_keys(prev)[i] == kk;
                assert(device_keys(mb)[i] == kk);
            }
        }
        assert forall|i: int| 0 <= i < at.len() implies 0 <= #[trigger] at[i] < books.len() && books[at[i]]
            == mb[i] by {
            if i < at_prev.len() {
                assert(at[i] == at_prev[i]);
                assert(bl[at_prev[i]] == books[at_prev[i]]);
                assert(mb[i] == prev[i]);
            }
        }
        assert forall|i: int, j: int| 0 <= i < j < at.len() implies #[trigger] at[i] < #[trigger] at[j] by {
            assert(at[i] == at_prev[i]);
            if j < at_prev.len() {
                assert(at[j] == at_prev[j]);
            }
        }
        at
    }
}

/// Adding missing records appends one new record per picked book.
proof fn lemma_add_missing_split(records: Seq<RecordView>, books: Seq<BookView>, serial: Option<Seq<char>>)
    ensures
        add_missing(records, books, serial) == records + new_records(missing_books(records, books), serial),
    decreases books.len(),
{
    if books.len() == 0 {
        assert(records + new_records(Seq::empty(), serial) =~= records);
    } else {
        let bl = books.drop_last();
        lemma_add_missing_split(records, bl, serial);
        let mb = missing_books(records, bl);
        let prev = add_missing(records, bl, serial);
        let b = books.last();
        let key = spec_book_key(b);
        lemma_has_key(prev, key);
        lemma_has_key(records, key);
        if record_index(prev, key) is Some {
            let j = choose|j: int| 0 <= j < prev.len() && #[trigger] prev[j].key == key;
            if j < records.len() {
                assert(prev[j] == records[j]);
            } else {
                let i = j - records.len();
                assert(prev[j] == new_record(mb[i], serial));
                assert(device_keys(mb)[i] == key);
            }
            assert(missing_books(records, books) == mb);
            assert(add_missing(records, books, serial) == prev);
        } else {
            if record_index(records, key) is Some {
                let j = choose|j: int| 0 <= j < records.len() && #[trigger] records[j].key == key;
                assert(prev[j] == records[j]);
            }
            if device_keys(mb).contains(key) {
                let i = choose|i: int| 0 <= i < device_keys(mb).len() && device_keys(mb)[i] == key;
                assert(prev[records.len() + i] == new_record(mb[i], serial));
                assert(prev[records.len() + i].key == key);
            }
            assert(new_records(mb.push(b), serial) =~= new_records(mb, serial).push(new_record(b, serial)));
            assert(records + new_records(mb.push(b), serial) =~= prev.push(new_record(b, serial)));
            assert(record_index(records, key) is None);
            assert(!device_keys(mb).contains(key));
            assert(missing_books(records, books) == mb.push(b));
            assert(add_missing(records, books, serial) == prev.push(new_record(b, serial)));
        }
    }
}

/// A reconcile keeps the library's records in front and appends, in
/// inventory order, one new record for the first device book of each key the
/// library lacked: its title, format and size, no local file or cover, on
/// the device and last seen on this device. The appended keys are new and
/// distinct, and every key the library lacked gets one.
pub proof fn law_reconcile_appends_missing(
    records: Seq<RecordView>,
    books: Seq<BookView>,
    serial: Option<Seq<char>>,
)
    ensures
        reconciled(records, books, serial).len() == records.len() + missing_books(records, books).len(),
        forall|i: int|
            0 <= i < missing_books(records, books).len() ==> #[trigger] reconciled(records, books, serial)[records.len()
                + i] == new_record(missing_books(records, books)[i], serial),
        forall|i: int|
            0 <= i < missing_books(records, books).len() ==> record_index(
                records,
                spec_book_key(#[trigger] missing_books(records, books)[i]),
            ) is None,
        forall|i: int, j: int|
            0 <= i < j < missing_books(records, books).len() ==> spec_book_key(
                #[trigger] missing_books(records, books)[i],
            ) != spec_book_key(#[trigger] missing_books(records, books)[j]),
        forall|k: int|
            0 <= k < books.len() && record_index(records, spec_book_key(#[trigger] books[k])) is None
                ==> device_keys(missing_books(records, books)).contains(spec_book_key(books[k])),
        exists|at: Seq<int>| in_order_within(missing_books(records, books), books, at),
{
    lemma_add_missing_split(records, books, serial);
    let at = lemma_missing_books(records, books);
    let mb = missing_books(records, books);
    let added = add_missing(records, books, serial);
    let out = reconciled(records, books, serial);
    assert forall|i: int| 0 <= i < mb.len() implies #[trigger] out[records.len() + i] == new_record(
        mb[i],
        serial,
    ) by {
        assert(added[records.len() + i] == new_record(mb[i], serial));
        assert(books[at[i]] == mb[i]);
        assert(device_keys(books)[at[i]] == spec_book_key(mb[i]));
    }
}

/// After a reconcile, the key of every device book is found, a record on
/// the device was last seen on this device, and a record off the device is
/// one the library already held, its last-seen device kept.
pub proof fn law_reconcile_finds_and_tracks(
    records: Seq<RecordView>,
    books: Seq<BookView>,
    serial: Option<Seq<char>>,
)
    ensures
        forall|k: int|
            0 <= k < books.len() ==> record_index(
                reconciled(records, books, serial),
                spec_book_key(#[trigger] books[k]),
            ) is Some,
        forall|j: int|
            0 <= j < reconciled(records, books, serial).len() && #[trigger] reconciled(
                records,
                books,
                serial,
            )[j].on_device ==> reconciled(records, books, serial)[j].last_seen_device == serial,
        forall|j: int|
            0 <= j < reconciled(records, books, serial).len() && !#[trigger] reconciled(
                records,
                books,
                serial,
            )[j].on_device ==> j < records.len() && reconciled(records, books, serial)[j].last_seen_device
                == records[j].last_seen_device,
{
    let out = reconciled(records, books, serial);
    law_reconcile_records_device_books(records, books, serial);
    law_reconcile_keeps_records(records, books, serial);
    law_reconcile_appends_missing(records, books, serial);
    assert forall|k: int| 0 <= k < books.len() implies record_index(
        out,
        spec_book_key(#[trigger] books[k]),
    ) is Some by {
        let j = choose|j: int|
            0 <= j < out.len() && #[trigger] out[j].key == spec_book_key(books[k]) && out[j].on_device
                && out[j].last_seen_device == serial;
        lemma_first_index_exists(out, key_is(spec_book_key(books[k])), j);
    }
    let mb = missing_books(records, books);
    assert forall|j: int| 0 <= j < out.len() && !#[trigger] out[j].on_device implies j < records.len()
        && out[j].last_seen_device == records[j].last_seen_device by {
        if j >= records.len() {
            assert(out[records.len() + (j - records.len())] == new_record(mb[j - records.len()], serial));
        }
    }
}

/// Reconciling changes only presence: every record the library held keeps
/// its place, key, title, format, size, local file and cover; only whether
/// it is on the device and where it was last seen may change.
pub proof fn law_reconcile_changes_only_presence(
    records: Seq<RecordView>,
    books: Seq<BookView>,
    serial: Option<Seq<char>>,
)
    ensures
        reconciled(records, books, serial).len() >= records.len(),
        forall|j: int|
            0 <= j < records.len() ==> {
                let after = #[trigger] reconciled(records, books, serial)[j];
                &&& after.key == records[j].key
                &&& after.title == records[j].title
                &&& after.format == records[j].format
                &&& after.size_bytes == records[j].size_bytes
                &&& after.local_path == records[j].local_path
                &&& after.cover_path == records[j].cover_path
            },
{
    law_reconcile_keeps_records(records, books, serial);
}

/// Each record a reconcile appends is a device book the library lacked,
/// keyed by its identifier (or `dict:` and its title), with its title,
/// format and size, no local file or cover, on the device and last seen on
/// this device.
pub proof fn law_reconcile_new_record_fields(
    records: Seq<RecordView>,
    books: Seq<BookView>,
    serial: Option<Seq<char>>,
)
    ensures
        forall|j: int|
            records.len() <= j < reconciled(records, books, serial).len() ==> exists|k: int|
                0 <= k < books.len() && {
                    let r = #[trigger] reconciled(records, books, serial)[j];
                    let b = #[trigger] books[k];
                    &&& r.key == match b.asin {
                        Some(a) => a,
                        None => seq!['d', 'i', 'c', 't', ':'] + b.title,
                    }
                    &&& r.title == b.title
                    &&& r.format == b.format
                    &&& r.size_bytes == b.size_bytes
                    &&& r.local_path is None
                    &&& r.cover_path is None
                    &&& r.on_device
                    &&& r.last_seen_device == serial
                },
{
    law_reconcile_appends_missing(records, books, serial);
    let at = choose|at: Seq<int>| in_order_within(missing_books(records, books), books, at);
    let out = reconciled(records, books, serial);
    let mb = missing_books(records, books);
    assert forall|j: int| records.len() <= j < out.len() implies exists|k: int|
        0 <= k < books.len() && {
            let r = #[trigger] out[j];
            let b = #[trigger] books[k];
            &&& r.key == match b.asin {
                Some(a) => a,
                None => seq!['d', 'i', 'c', 't', ':'] + b.title,
            }
            &&& r.title == b.title
            &&& r.format == b.format
            &&& r.size_bytes == b.size_bytes
            &&& r.local_path is None
            &&& r.cover_path is None
            &&& r.on_device
            &&& r.last_seen_device == serial
        } by {
        let i = j - records.len();
        assert(out[records.len() + i] == new_record(mb[i], serial));
        let k = at[i];
        assert(books[k] == mb[i]);
    }
}

} // verus!
