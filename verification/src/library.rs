//! Local book library (per-user index + offline view).
//!
//! The library is a device-independent index of books keyed by ASIN (with a
//! `dict:<title>` key for non-ASIN items such as dictionaries). The attached
//! device remains the source of truth for what is physically on it; the
//! library is reconciled against a fresh inventory on connect.

use vstd::prelude::*;

use crate::collections::{CollectionView, LocalCollection};
use crate::external::{io_error_text, json_error_text};
use crate::inventory::{
    Book, BookFormat, BookView, KindleInventory, books_view, opt_view, parse_book_filename,
    spec_parse_book_filename,
};
use crate::search::{first_index, lemma_first_index, lemma_first_index_none, lemma_first_index_unique, lemma_take_next};

verus! {

broadcast use vstd::string::group_string_axioms;

/// Whether a book lives on the attached device, in the local library, or both.
#[derive(Debug, Clone, Copy, PartialEq, Eq, Structural)]
pub enum BookStatus {
    /// Present on the device; no local copy in the library.
    OnDevice,
    /// In the local library only (offline copy, not currently on the device).
    LocalOnly,
    /// Present in both.
    Both,
}

/// One book record in the local library.
#[derive(Debug, Clone, PartialEq, Eq)]
pub struct LibraryRecord {
    /// Stable record key: the ASIN, or `dict:<title>` for non-ASIN items.
    pub key: String,
    pub title: String,
    pub format: BookFormat,
    pub size_bytes: u64,
    /// Local path of the book file when a local copy exists.
    pub local_path: Option<String>,
    /// Local path of a user-supplied cover image, when one was matched.
    pub cover_path: Option<String>,
    /// Last known presence on an attached device.
    pub on_device: bool,
    /// Serial of the device last seen holding this book.
    pub last_seen_device: Option<String>,
}

/// The abstract content of a `LibraryRecord`.
pub struct RecordView {
    pub key: Seq<char>,
    pub title: Seq<char>,
    pub format: BookFormat,
    pub size_bytes: u64,
    pub local_path: Option<Seq<char>>,
    pub cover_path: Option<Seq<char>>,
    pub on_device: bool,
    pub last_seen_device: Option<Seq<char>>,
}

impl View for LibraryRecord {
    type V = RecordView;

    open spec fn view(&self) -> RecordView {
        RecordView {
            key: self.key@,
            title: self.title@,
            format: self.format,
            size_bytes: self.size_bytes,
            local_path: opt_view(self.local_path),
            cover_path: opt_view(self.cover_path),
            on_device: self.on_device,
            last_seen_device: opt_view(self.last_seen_device),
        }
    }
}

/// The local library.
#[derive(Debug, Clone, PartialEq, Eq)]
pub struct LocalLibrary {
    pub version: u32,
    pub records: Vec<LibraryRecord>,
    /// User-authored local collections (see the `collections` module).
    pub collections: Vec<LocalCollection>,
}

/// The abstract content of a `LocalLibrary`.
pub struct LibraryView {
    pub version: u32,
    pub records: Seq<RecordView>,
    pub collections: Seq<CollectionView>,
}

pub open spec fn records_view(s: Seq<LibraryRecord>) -> Seq<RecordView> {
    s.map_values(|r: LibraryRecord| r@)
}

pub open spec fn collections_view(s: Seq<LocalCollection>) -> Seq<CollectionView> {
    s.map_values(|c: LocalCollection| c@)
}

impl View for LocalLibrary {
    type V = LibraryView;

    open spec fn view(&self) -> LibraryView {
        LibraryView {
            version: self.version,
            records: records_view(self.records@),
            collections: collections_view(self.collections@),
        }
    }
}

impl Default for LocalLibrary {
    fn default() -> (res: LocalLibrary)
        ensures
            res.version == 0,
            res.records@.len() == 0,
            res.collections@.len() == 0,
    {
        LocalLibrary { version: 0, records: Vec::new(), collections: Vec::new() }
    }
}

/// Errors of library operations.
#[derive(Debug)]
pub enum LibraryError {
    Io(std::io::Error),
    Json(serde_json::Error),
    EmptyCollectionName,
    CollectionExists(String),
    CollectionNotFound(String),
}

/// Records whose key is `key`.
pub open spec fn key_is(key: Seq<char>) -> spec_fn(RecordView) -> bool {
    |r: RecordView| r.key == key
}

/// Records whose key is not `key`.
pub open spec fn key_is_not(key: Seq<char>) -> spec_fn(RecordView) -> bool {
    |r: RecordView| r.key != key
}

/// The position of the record for `key`: the first with that key.
pub open spec fn record_index(records: Seq<RecordView>, key: Seq<char>) -> Option<int> {
    first_index(records, key_is(key))
}

/// The status of a record: on the device, local only, or both.
pub open spec fn spec_record_status(r: RecordView) -> BookStatus {
    if r.on_device {
        if r.local_path is Some {
            BookStatus::Both
        } else {
            BookStatus::OnDevice
        }
    } else {
        BookStatus::LocalOnly
    }
}

/// `dict:`, the key prefix of items without an identifier.
pub open spec fn dict_prefix() -> Seq<char> {
    seq!['d', 'i', 'c', 't', ':']
}

/// The stable library key for a book: its ASIN, or `dict:<title>`.
pub open spec fn spec_book_key(b: BookView) -> Seq<char> {
    match b.asin {
        Some(a) => a,
        None => dict_prefix() + b.title,
    }
}

/// The record a device book gets when it first enters the library.
pub open spec fn new_record(b: BookView, serial: Option<Seq<char>>) -> RecordView {
    RecordView {
        key: spec_book_key(b),
        title: b.title,
        format: b.format,
        size_bytes: b.size_bytes,
        local_path: None,
        cover_path: None,
        on_device: true,
        last_seen_device: serial,
    }
}

/// The records after writing `record` under its key: the first record with
/// that key is replaced, or the record is appended when the key is new.
pub open spec fn spec_upsert(records: Seq<RecordView>, record: RecordView) -> Seq<RecordView> {
    match record_index(records, record.key) {
        Some(i) => records.update(i, record),
        None => records.push(record),
    }
}

/// No two records share a key.
pub open spec fn keys_unique(records: Seq<RecordView>) -> bool {
    forall|i: int, j: int|
        0 <= i < records.len() && 0 <= j < records.len() && i != j ==> #[trigger] records[i].key
            != #[trigger] records[j].key
}

pub open spec fn opt_str_view(s: Option<&str>) -> Option<Seq<char>> {
    match s {
        Some(s) => Some(s@),
        None => None,
    }
}

/// The library after adding, in inventory order, a record for each device
/// book whose key has none yet.
pub open spec fn add_missing(records: Seq<RecordView>, books: Seq<BookView>, serial: Option<Seq<char>>) -> Seq<RecordView>
    decreases books.len(),
{
    if books.len() == 0 {
        records
    } else {
        let prev = add_missing(records, books.drop_last(), serial);
        let b = books.last();
        if record_index(prev, spec_book_key(b)) is Some {
            prev
        } else {
            prev.push(new_record(b, serial))
        }
    }
}

/// The library keys of the books on the device.
pub open spec fn device_keys(books: Seq<BookView>) -> Seq<Seq<char>> {
    books.map_values(|b: BookView| spec_book_key(b))
}

/// A record's presence after a reconcile: on the device exactly when its key
/// is among the device keys, and then last seen on the given device.
pub open spec fn mark_presence(r: RecordView, keys: Seq<Seq<char>>, serial: Option<Seq<char>>) -> RecordView {
    if keys.contains(r.key) {
        RecordView { on_device: true, last_seen_device: serial, ..r }
    } else {
        RecordView { on_device: false, ..r }
    }
}

pub open spec fn mark_all(records: Seq<RecordView>, keys: Seq<Seq<char>>, serial: Option<Seq<char>>) -> Seq<RecordView> {
    records.map_values(|r: RecordView| mark_presence(r, keys, serial))
}

/// The records after reconciling against the device books.
pub open spec fn reconciled(records: Seq<RecordView>, books: Seq<BookView>, serial: Option<Seq<char>>) -> Seq<RecordView> {
    mark_all(add_missing(records, books, serial), device_keys(books), serial)
}

/// Whether `keys` holds `key`.
pub(crate) fn contains_key(keys: &Vec<String>, key: &String) -> (res: bool)
    ensures
        res == crate::collections::strings_view(keys@).contains(key@),
{
    let ghost kv = crate::collections::strings_view(keys@);
    let mut i: usize = 0;
    while i < keys.len()
        invariant
            i <= keys@.len(),
            kv == crate::collections::strings_view(keys@),
            forall|k: int| 0 <= k < i ==> kv[k] != key@,
        decreases keys@.len() - i,
    {
        if keys[i] == *key {
            assert(kv[i as int] == key@);
            return true;
        }
        i = i + 1;
    }
    false
}

/// A copy of an optional string.
pub fn copy_opt_string(s: &Option<String>) -> (res: Option<String>)
    ensures
        res == *s,
{
    match s {
        Some(s) => Some(s.clone()),
        None => None,
    }
}

/// A copy of a record.
pub fn copy_record(record: &LibraryRecord) -> (res: LibraryRecord)
    ensures
        res@ == record@,
{
    LibraryRecord {
        key: record.key.clone(),
        title: record.title.clone(),
        format: record.format,
        size_bytes: record.size_bytes,
        local_path: copy_opt_string(&record.local_path),
        cover_path: copy_opt_string(&record.cover_path),
        on_device: record.on_device,
        last_seen_device: copy_opt_string(&record.last_seen_device),
    }
}

/// The position of the record for `key` in `records`.
fn position_of(records: &Vec<LibraryRecord>, key: &String) -> (res: Option<usize>)
    ensures
        match res {
            Some(i) => record_index(records_view(records@), key@) == Some(i as int) && i
                < records@.len(),
            None => record_index(records_view(records@), key@) is None,
        },
{
    let ghost rv = records_view(records@);
    let mut i: usize = 0;
    while i < records.len()
        invariant
            i <= records@.len(),
            rv == records_view(records@),
            forall|k: int| 0 <= k < i ==> !key_is(key@)(#[trigger] rv[k]),
        decreases records@.len() - i,
    {
        if records[i].key == *key {
            proof {
                lemma_first_index_unique(rv, key_is(key@), i as int);
            }
            return Some(i);
        }
        i = i + 1;
    }
    proof {
        lemma_first_index_none(rv, key_is(key@));
    }
    None
}

/// The stable library key for a book (ASIN, or `dict:<title>`).
pub fn book_key(book: &Book) -> (res: String)
    ensures
        res@ == spec_book_key(book@),
{
    match &book.asin {
        Some(asin) => asin.clone(),
        None => {
            let prefix = "dict:";
            proof {
                reveal_strlit("dict:");
            }
            let key = prefix.to_owned();
            key.concat(book.title.as_str())
        },
    }
}

/// The record a device book gets when it first enters the library.
pub fn record_from_book(book: &Book, key: String, device_serial: Option<&str>) -> (res:
    LibraryRecord)
    ensures
        res@ == (RecordView { key: key@, ..new_record(book@, opt_str_view(device_serial)) }),
{
    LibraryRecord {
        key,
        title: book.title.clone(),
        format: book.format,
        size_bytes: book.size_bytes,
        local_path: None,
        cover_path: None,
        on_device: true,
        last_seen_device: match device_serial {
            Some(s) => Some(s.to_owned()),
            None => None,
        },
    }
}

/// The record a local book file gets when it is added to the library: keyed
/// by its ASIN, or `dict:<title>`; held locally at `local_path`; not known
/// on any device.
pub open spec fn local_file_record(
    parsed: (Seq<char>, Option<Seq<char>>, BookFormat),
    local_path: Seq<char>,
    size_bytes: u64,
) -> RecordView {
    RecordView {
        key: match parsed.1 {
            Some(asin) => asin,
            None => dict_prefix() + parsed.0,
        },
        title: parsed.0,
        format: parsed.2,
        size_bytes,
        local_path: Some(local_path),
        cover_path: None,
        on_device: false,
        last_seen_device: None,
    }
}

/// The library record for a local book file named `file_name` (a
/// `Title_ASIN.ext` name), or `None` when the name is not a book filename.
pub fn record_from_local_file(file_name: &str, local_path: &str, size_bytes: u64) -> (res: Option<
    LibraryRecord,
>)
    ensures
        match spec_parse_book_filename(file_name@) {
            Some(parsed) => res matches Some(r) && r@ == local_file_record(
                parsed,
                local_path@,
                size_bytes,
            ),
            None => res is None,
        },
{
    let (title, asin, format) = match parse_book_filename(file_name) {
        Some(parsed) => parsed,
        None => return None,
    };
    let key = match asin {
        Some(asin) => asin,
        None => {
            proof {
                reveal_strlit("dict:");
            }
            assert("dict:"@ =~= dict_prefix());
            "dict:".to_owned().concat(title.as_str())
        },
    };
    Some(
        LibraryRecord {
            key,
            title,
            format,
            size_bytes,
            local_path: Some(local_path.to_owned()),
            cover_path: None,
            on_device: false,
            last_seen_device: None,
        },
    )
}

/// Derive the status of a record from its presence and local copy.
pub fn record_status(record: &LibraryRecord) -> (res: BookStatus)
    ensures
        res == spec_record_status(record@),
{
    match (record.on_device, record.local_path.is_some()) {
        (true, true) => BookStatus::Both,
        (true, false) => BookStatus::OnDevice,
        (false, _) => BookStatus::LocalOnly,
    }
}

impl LocalLibrary {
    pub const CURRENT_VERSION: u32 = 1;

    /// The record stored under `key`.
    pub fn lookup(&self, key: &str) -> (res: Option<&LibraryRecord>)
        ensures
            match record_index(self@.records, key@) {
                Some(i) => res == Some(&self.records@[i]),
                None => res is None,
            },
    {
        let k = key.to_owned();
        match position_of(&self.records, &k) {
            Some(i) => Some(&self.records[i]),
            None => None,
        }
    }

    /// Insert or replace the record for a key.
    pub fn upsert(&mut self, record: LibraryRecord)
        ensures
            final(self).version == old(self).version,
            final(self).collections == old(self).collections,
            final(self).records@ == match record_index(old(self)@.records, record.key@) {
                Some(i) => old(self).records@.update(i, record),
                None => old(self).records@.push(record),
            },
            final(self)@.records == spec_upsert(old(self)@.records, record@),
    {
        let ghost orig = self.records@;
        match position_of(&self.records, &record.key) {
            Some(i) => {
                self.records.set(i, record);
                assert(records_view(self.records@) =~= records_view(orig).update(i as int, record@));
            },
            None => {
                self.records.push(record);
                assert(records_view(self.records@) =~= records_view(orig).push(record@));
            },
        }
    }

    /// Remove every record stored under `key`.
    pub fn remove(&mut self, key: &str)
        ensures
            final(self).version == old(self).version,
            final(self).collections == old(self).collections,
            final(self)@.records == old(self)@.records.filter(key_is_not(key@)),
    {
        broadcast use vstd::seq_lib::group_seq_properties;

        let k = key.to_owned();
        let ghost orig = old(self)@.records;
        let ghost p = key_is_not(key@);
        let mut i: usize = 0;
        let ghost mut j: int = 0;
        while i < self.records.len()
            invariant
                0 <= j <= orig.len(),
                k@ == key@,
                p == key_is_not(key@),
                self@.records == orig.take(j).filter(p) + orig.skip(j),
                i == orig.take(j).filter(p).len(),
                self.records@.len() - i == orig.len() - j,
                self.version == old(self).version,
                self.collections == old(self).collections,
            decreases self.records@.len() - i,
        {
            proof {
                lemma_take_next(orig, j);
                orig.take(j).lemma_filter_push(orig[j], p);
                assert(self@.records[i as int] == orig[j]);
            }
            if self.records[i].key == k {
                let ghost before = self.records@;
                self.records.remove(i);
                proof {
                    assert(self.records@ == before.remove(i as int));
                    assert(records_view(self.records@) =~= records_view(before).remove(i as int));
                    assert(!p(orig[j]));
                    assert(orig.take(j + 1).filter(p) == orig.take(j).filter(p));
                    assert(self@.records =~= orig.take(j + 1).filter(p) + orig.skip(j + 1));
                }
            } else {
                proof {
                    assert(self@.records =~= orig.take(j + 1).filter(p) + orig.skip(j + 1));
                }
                i = i + 1;
            }
            proof {
                j = j + 1;
            }
        }
        proof {
            assert(orig.take(j) =~= orig);
            assert(orig.skip(j) =~= Seq::<RecordView>::empty());
            assert(self@.records =~= orig.filter(p));
        }
    }

    /// Reconcile records against a fresh device inventory.
    ///
    /// Device books are added as records (or refreshed), records absent from
    /// the device are marked off-device, and `device_serial` is recorded on
    /// books present.
    pub fn reconcile(&mut self, inventory: &KindleInventory, device_serial: Option<&str>)
        ensures
            final(self).version == old(self).version,
            final(self).collections == old(self).collections,
            final(self)@.records == reconciled(
                old(self)@.records,
                books_view(inventory.books@),
                opt_str_view(device_serial),
            ),
    {
        let ghost books = books_view(inventory.books@);
        let ghost serial = opt_str_view(device_serial);
        let ghost orig = old(self)@.records;
        let n = inventory.books.len();

        let mut present: Vec<String> = Vec::new();
        let mut i: usize = 0;
        while i < n
            invariant
                n == inventory.books@.len(),
                books == books_view(inventory.books@),
                i <= n,
                crate::collections::strings_view(present@) == device_keys(books.take(i as int)),
            decreases n - i,
        {
            proof {
                lemma_take_next(books, i as int);
            }
            let key = book_key(&inventory.books[i]);
            let ghost before = present@;
            assert(books[i as int] == inventory.books@[i as int]@);
            present.push(key);
            i = i + 1;
            proof {
                assert(crate::collections::strings_view(present@) =~= crate::collections::strings_view(before).push(key@));
                assert(device_keys(books.take(i as int)) =~= device_keys(books.take(i - 1)).push(spec_book_key(books[i - 1])));
                assert(crate::collections::strings_view(present@) =~= device_keys(books.take(i as int)));
            }
        }
        assert(books.take(n as int) =~= books);

        let mut i: usize = 0;
        while i < n
            invariant
                n == inventory.books@.len(),
                books == books_view(inventory.books@),
                serial == opt_str_view(device_serial),
                i <= n,
                self@.records == add_missing(orig, books.take(i as int), serial),
                self.version == old(self).version,
                self.collections == old(self).collections,
            decreases n - i,
        {
            proof {
                lemma_take_next(books, i as int);
            }
            let key = book_key(&inventory.books[i]);
            match position_of(&self.records, &key) {
                Some(_) => {},
                None => {
                    let record = record_from_book(&inventory.books[i], key, device_serial);
                    let ghost before = self.records@;
                    self.records.push(record);
                    proof {
                        assert(records_view(self.records@) =~= records_view(before).push(record@));
                    }
                },
            }
            i = i + 1;
        }

        let ghost added = self@.records;
        let ghost keys = device_keys(books);
        let serial_string: Option<String> = match device_serial {
            Some(s) => Some(s.to_owned()),
            None => None,
        };
        let m = self.records.len();
        let mut i: usize = 0;
        assert(self@.records =~= mark_all(added.take(0), keys, serial) + added.skip(0));
        while i < m
            invariant
                m == self.records@.len(),
                added.len() == m,
                crate::collections::strings_view(present@) == keys,
                opt_view(serial_string) == serial,
                i <= m,
                self@.records == mark_all(added.take(i as int), keys, serial) + added.skip(i as int),
                self.version == old(self).version,
                self.collections == old(self).collections,
            decreases m - i,
        {
            assert(self@.records[i as int] == added[i as int]);
            let on = contains_key(&present, &self.records[i].key);
            let ghost before = self.records@;
            assert(before[i as int]@ == added[i as int]);
            let mut record = self.records.remove(i);
            record.on_device = on;
            if on {
                record.last_seen_device = copy_opt_string(&serial_string);
            }
            self.records.insert(i, record);
            proof {
                assert(self.records@ == before.update(i as int, record));
                assert(records_view(self.records@) =~= records_view(before).update(i as int, record@));
                lemma_take_next(added, i as int);
                assert(record@ == mark_presence(added[i as int], keys, serial));
                assert(self@.records =~= mark_all(added.take(i + 1), keys, serial) + added.skip(i + 1));
            }
            i = i + 1;
        }
        proof {
            assert(added.take(m as int) =~= added);
            assert(self@.records =~= mark_all(added, keys, serial));
        }
    }

    /// Derive the status of a record from its presence and local copy.
    pub fn status(&self, key: &str) -> (res: Option<BookStatus>)
        ensures
            res == match record_index(self@.records, key@) {
                Some(i) => Some(spec_record_status(self@.records[i])),
                None => None,
            },
    {
        proof {
            lemma_first_index(self@.records, key_is(key@));
        }
        match self.lookup(key) {
            Some(record) => Some(record_status(record)),
            None => None,
        }
    }
}

/// The friendly message of a library error; for wrapped I/O and JSON errors,
/// the prefix that comes before the wrapped error's own text.
pub open spec fn spec_library_message(error: LibraryError) -> Seq<char> {
    match error {
        LibraryError::Io(_) => "local library I/O error: "@,
        LibraryError::Json(_) => "local library JSON error: "@,
        LibraryError::EmptyCollectionName => "collection name must not be empty"@,
        LibraryError::CollectionExists(name) => "collection '"@ + name@ + "' already exists"@,
        LibraryError::CollectionNotFound(name) => "collection '"@ + name@ + "' not found"@,
    }
}

impl LibraryError {
    /// The friendly, user-facing message of the error.
    pub fn message(&self) -> (res: String)
        ensures
            !(*self is Io || *self is Json) ==> res@ == spec_library_message(*self),
            (*self is Io || *self is Json) ==> spec_library_message(*self).is_prefix_of(res@),
    {
        match self {
            LibraryError::Io(error) => "local library I/O error: ".to_owned().concat(
                io_error_text(error).as_str(),
            ),
            LibraryError::Json(error) => "local library JSON error: ".to_owned().concat(
                json_error_text(error).as_str(),
            ),
            LibraryError::EmptyCollectionName => "collection name must not be empty".to_owned(),
            LibraryError::CollectionExists(name) => "collection '".to_owned().concat(
                name.as_str(),
            ).concat("' already exists"),
            LibraryError::CollectionNotFound(name) => "collection '".to_owned().concat(
                name.as_str(),
            ).concat("' not found"),
        }
    }
}

/// The status label shown in listings.
pub open spec fn spec_status_label(r: RecordView) -> Seq<char> {
    match spec_record_status(r) {
        BookStatus::Both => "both"@,
        BookStatus::OnDevice => "on device"@,
        BookStatus::LocalOnly => "local only"@,
    }
}

/// The status label of a record: `both`, `on device` or `local only`.
pub fn status_label(record: &LibraryRecord) -> (res: &'static str)
    ensures
        res@ == spec_status_label(record@),
{
    match (record.on_device, record.local_path.is_some()) {
        (true, true) => "both",
        (true, false) => "on device",
        (false, _) => "local only",
    }
}

/// How many records have a given status.
pub open spec fn count_status(records: Seq<RecordView>, status: BookStatus) -> nat
    decreases records.len(),
{
    if records.len() == 0 {
        0
    } else {
        count_status(records.drop_last(), status) + if spec_record_status(records.last())
            == status {
            1nat
        } else {
            0nat
        }
    }
}

/// Record counts by status.
#[derive(Debug, Clone, Copy, PartialEq, Eq, Structural)]
pub struct StatusCounts {
    pub on_device: usize,
    pub local_only: usize,
    pub both: usize,
}

/// Count the records of a library by status.
pub fn status_counts(library: &LocalLibrary) -> (res: StatusCounts)
    ensures
        res.on_device == count_status(library@.records, BookStatus::OnDevice),
        res.local_only == count_status(library@.records, BookStatus::LocalOnly),
        res.both == count_status(library@.records, BookStatus::Both),
{
    let ghost rv = library@.records;
    let mut counts = StatusCounts { on_device: 0, local_only: 0, both: 0 };
    let mut i: usize = 0;
    while i < library.records.len()
        invariant
            i <= library.records@.len(),
            rv == library@.records,
            counts.on_device == count_status(rv.take(i as int), BookStatus::OnDevice),
            counts.local_only == count_status(rv.take(i as int), BookStatus::LocalOnly),
            counts.both == count_status(rv.take(i as int), BookStatus::Both),
            counts.on_device + counts.local_only + counts.both == i,
        decreases library.records@.len() - i,
    {
        proof {
            lemma_take_next(rv, i as int);
        }
        match record_status(&library.records[i]) {
            BookStatus::OnDevice => counts.on_device = counts.on_device + 1,
            BookStatus::LocalOnly => counts.local_only = counts.local_only + 1,
            BookStatus::Both => counts.both = counts.both + 1,
        }
        i = i + 1;
    }
    assert(rv.take(library.records@.len() as int) =~= rv);
    counts
}

} // verus!
