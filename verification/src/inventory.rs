//! Kindle-aware inventory built above the raw MTP object layer.
//!
//! A folder listing from the device is turned into user-facing `Book`
//! values. Identity comes from the `Title_ASIN` filename convention observed
//! on the Paperwhite: `Title_ASIN.kfx` content files, `Title_ASIN.sdr`
//! sidecar folders and `.mf` / `.yjf` / `.meta` metadata objects.

use vstd::prelude::*;

use crate::text::{
    ascii_lowercase, chars_eq, chars_of, chars_start_with, last_index_of, lemma_last_index_of,
    rfind, rsplit_once, slice_chars, string_of, to_ascii_lowercase,
};

verus! {

broadcast use vstd::string::group_string_axioms;

/// Book content formats recognised from device evidence.
#[derive(Debug, Clone, Copy, PartialEq, Eq, Structural)]
pub enum BookFormat {
    Kfx,
    Azw,
}

/// One object of an MTP folder listing.
#[derive(Debug, Clone)]
pub struct MtpObjectSummary {
    pub filename: String,
    pub is_folder: bool,
    pub handle: u64,
    pub size_bytes: u64,
}

/// What a listed object means to the inventory.
pub struct ObjectView {
    pub filename: Seq<char>,
    pub is_folder: bool,
    pub handle: u64,
    pub size_bytes: u64,
}

impl View for MtpObjectSummary {
    type V = ObjectView;

    open spec fn view(&self) -> ObjectView {
        ObjectView {
            filename: self.filename@,
            is_folder: self.is_folder,
            handle: self.handle,
            size_bytes: self.size_bytes,
        }
    }
}

/// A single book on the device: user-facing identity plus the storage
/// objects that make it up.
#[derive(Debug, Clone)]
pub struct Book {
    pub title: String,
    /// Stable per-book key from the `Title_ASIN` filename suffix. Absent for
    /// items without an identifier (e.g. dictionaries).
    pub asin: Option<String>,
    pub format: BookFormat,
    pub size_bytes: u64,
    /// MTP handle of the content file.
    pub content_handle: u64,
    /// MTP handle of the `.sdr` sidecar folder, when one exists.
    pub sidecar_handle: Option<u64>,
    /// MTP handles of associated metadata objects (`.mf`/`.yjf`/`.meta`).
    pub metadata_handles: Vec<u64>,
}

/// The abstract content of a `Book`.
pub struct BookView {
    pub title: Seq<char>,
    pub asin: Option<Seq<char>>,
    pub format: BookFormat,
    pub size_bytes: u64,
    pub content_handle: u64,
    pub sidecar_handle: Option<u64>,
    pub metadata_handles: Seq<u64>,
}

/// The view of an optional string.
pub open spec fn opt_view(s: Option<String>) -> Option<Seq<char>> {
    match s {
        Some(s) => Some(s@),
        None => None,
    }
}

impl View for Book {
    type V = BookView;

    open spec fn view(&self) -> BookView {
        BookView {
            title: self.title@,
            asin: opt_view(self.asin),
            format: self.format,
            size_bytes: self.size_bytes,
            content_handle: self.content_handle,
            sidecar_handle: self.sidecar_handle,
            metadata_handles: self.metadata_handles@,
        }
    }
}

/// The full inventory of one attached Kindle.
#[derive(Debug, Clone)]
pub struct KindleInventory {
    pub storage_description: String,
    pub books: Vec<Book>,
}

pub open spec fn objects_view(s: Seq<MtpObjectSummary>) -> Seq<ObjectView> {
    s.map_values(|o: MtpObjectSummary| o@)
}

pub open spec fn books_view(s: Seq<Book>) -> Seq<BookView> {
    s.map_values(|b: Book| b@)
}

// ---------------------------------------------------------------------------
// Filename conventions
// ---------------------------------------------------------------------------

/// The text after the last `.` of a filename.
pub open spec fn spec_extension(name: Seq<char>) -> Option<Seq<char>> {
    match rsplit_once(name, '.') {
        Some(parts) => Some(parts.1),
        None => None,
    }
}

/// The filename without its last `.`-extension (the whole name when it has
/// no `.`).
pub open spec fn spec_strip_extension(name: Seq<char>) -> Seq<char> {
    match rsplit_once(name, '.') {
        Some(parts) => parts.0,
        None => name,
    }
}

/// The recognised format of an extension, compared without ASCII case.
pub open spec fn spec_format_of(ext: Seq<char>) -> Option<BookFormat> {
    let lower = ascii_lowercase(ext);
    if lower == seq!['k', 'f', 'x'] {
        Some(BookFormat::Kfx)
    } else if lower == seq!['a', 'z', 'w'] {
        Some(BookFormat::Azw)
    } else {
        None
    }
}

/// Whether an extension names a per-book metadata object.
pub open spec fn is_metadata_extension(ext: Seq<char>) -> bool {
    let lower = ascii_lowercase(ext);
    lower == seq!['m', 'f'] || lower == seq!['y', 'j', 'f'] || lower == seq!['m', 'e', 't', 'a']
}

pub open spec fn is_ascii_upper(c: char) -> bool {
    'A' <= c && c <= 'Z'
}

pub open spec fn is_ascii_digit(c: char) -> bool {
    '0' <= c && c <= '9'
}

/// A device identifier: at least 10 characters, all ASCII uppercase letters
/// or digits (10-char classic ASINs and 32-char hex ids).
pub open spec fn spec_is_identifier(t: Seq<char>) -> bool {
    &&& t.len() >= 10
    &&& forall|i: int| 0 <= i < t.len() ==> is_ascii_upper(#[trigger] t[i]) || is_ascii_digit(t[i])
}

/// Split a `Title_ASIN` stem into title and identifier: the identifier is the
/// text after the last `_` when it looks like one; otherwise the whole stem
/// is the title.
pub open spec fn spec_split_identity(stem: Seq<char>) -> (Seq<char>, Option<Seq<char>>) {
    match rsplit_once(stem, '_') {
        Some(parts) => if spec_is_identifier(parts.1) {
            (parts.0, Some(parts.1))
        } else {
            (stem, None)
        },
        None => (stem, None),
    }
}

/// `Title_ASIN.ext` parsed into title, identifier and format.
pub open spec fn spec_parse_book_filename(name: Seq<char>) -> Option<
    (Seq<char>, Option<Seq<char>>, BookFormat),
> {
    match spec_extension(name) {
        Some(ext) => match spec_format_of(ext) {
            Some(format) => {
                let parts = spec_split_identity(spec_strip_extension(name));
                Some((parts.0, parts.1, format))
            },
            None => None,
        },
        None => None,
    }
}

// ---------------------------------------------------------------------------
// Grouping a folder listing into books
// ---------------------------------------------------------------------------

/// A book content file: a file whose extension is a recognised format.
pub open spec fn is_content(o: ObjectView) -> bool {
    &&& !o.is_folder
    &&& match spec_extension(o.filename) {
        Some(ext) => spec_format_of(ext) is Some,
        None => false,
    }
}

/// A per-book metadata file (`.mf`, `.yjf`, `.meta`).
pub open spec fn is_metadata(o: ObjectView) -> bool {
    &&& !o.is_folder
    &&& match spec_extension(o.filename) {
        Some(ext) => is_metadata_extension(ext),
        None => false,
    }
}

/// A `Stem.sdr` sidecar folder for the given stem.
pub open spec fn is_sidecar_of(o: ObjectView, stem: Seq<char>) -> bool {
    o.is_folder && o.filename == stem + seq!['.', 's', 'd', 'r']
}

/// The handle of the first sidecar folder for `stem`.
pub open spec fn sidecar_in(objects: Seq<ObjectView>, stem: Seq<char>) -> Option<u64>
    decreases objects.len(),
{
    if objects.len() == 0 {
        None
    } else {
        match sidecar_in(objects.drop_last(), stem) {
            Some(h) => Some(h),
            None => if is_sidecar_of(objects.last(), stem) {
                Some(objects.last().handle)
            } else {
                None
            },
        }
    }
}

/// A metadata object belongs to a book when its stem starts with the book's
/// content stem, or equals the book's identifier.
pub open spec fn metadata_belongs(o: ObjectView, stem: Seq<char>, asin: Option<Seq<char>>) -> bool {
    &&& is_metadata(o)
    &&& (stem.is_prefix_of(spec_strip_extension(o.filename)) || asin == Some(
        spec_strip_extension(o.filename),
    ))
}

/// The handles, in listing order, of the metadata objects of a book.
pub open spec fn metadata_in(objects: Seq<ObjectView>, stem: Seq<char>, asin: Option<Seq<char>>) -> Seq<u64>
    decreases objects.len(),
{
    if objects.len() == 0 {
        Seq::empty()
    } else {
        let rest = metadata_in(objects.drop_last(), stem, asin);
        if metadata_belongs(objects.last(), stem, asin) {
            rest.push(objects.last().handle)
        } else {
            rest
        }
    }
}

/// The book described by content object `o` of the listing `all`.
pub open spec fn book_for(o: ObjectView, all: Seq<ObjectView>) -> BookView {
    let stem = spec_strip_extension(o.filename);
    let identity = spec_split_identity(stem);
    BookView {
        title: identity.0,
        asin: identity.1,
        format: spec_format_of(spec_extension(o.filename).unwrap()).unwrap(),
        size_bytes: o.size_bytes,
        content_handle: o.handle,
        sidecar_handle: sidecar_in(all, stem),
        metadata_handles: metadata_in(all, stem, identity.1),
    }
}

/// One book per content object of `prefix`, in listing order, each grouped
/// with its sidecar and metadata objects from the whole listing `all`.
pub open spec fn books_of(prefix: Seq<ObjectView>, all: Seq<ObjectView>) -> Seq<BookView>
    decreases prefix.len(),
{
    if prefix.len() == 0 {
        Seq::empty()
    } else {
        let rest = books_of(prefix.drop_last(), all);
        if is_content(prefix.last()) {
            rest.push(book_for(prefix.last(), all))
        } else {
            rest
        }
    }
}

/// The books of a content folder listing.
pub open spec fn books_in_folder(objects: Seq<ObjectView>) -> Seq<BookView> {
    books_of(objects, objects)
}

/// The first folder called `name` in a listing.
pub open spec fn folder_in(objects: Seq<ObjectView>, name: Seq<char>) -> Option<int>
    decreases objects.len(),
{
    if objects.len() == 0 {
        None
    } else {
        match folder_in(objects.drop_last(), name) {
            Some(i) => Some(i),
            None => if objects.last().is_folder && objects.last().filename == name {
                Some(objects.len() - 1)
            } else {
                None
            },
        }
    }
}

/// A dictionary item: a recognised-format file, titled by its stem.
pub open spec fn dictionary_book(o: ObjectView) -> BookView {
    BookView {
        title: spec_strip_extension(o.filename),
        asin: None,
        format: spec_format_of(spec_extension(o.filename).unwrap()).unwrap(),
        size_bytes: o.size_bytes,
        content_handle: o.handle,
        sidecar_handle: None,
        metadata_handles: Seq::empty(),
    }
}

/// The dictionaries of a dictionaries-folder listing, in listing order.
pub open spec fn dictionaries_of(objects: Seq<ObjectView>) -> Seq<BookView>
    decreases objects.len(),
{
    if objects.len() == 0 {
        Seq::empty()
    } else {
        let rest = dictionaries_of(objects.drop_last());
        if is_content(objects.last()) {
            rest.push(dictionary_book(objects.last()))
        } else {
            rest
        }
    }
}

// ---------------------------------------------------------------------------
// Executable filename helpers
// ---------------------------------------------------------------------------

fn extension_chars(name: &[char]) -> (res: Option<Vec<char>>)
    ensures
        match res {
            Some(ext) => spec_extension(name@) == Some(ext@),
            None => spec_extension(name@) is None,
        },
{
    match rfind(name, '.') {
        Some(i) => {
            let n = name.len();
            Some(slice_chars(name, i + 1, n))
        },
        None => None,
    }
}

fn strip_extension_chars(name: &[char]) -> (res: Vec<char>)
    ensures
        res@ == spec_strip_extension(name@),
{
    match rfind(name, '.') {
        Some(i) => slice_chars(name, 0, i),
        None => slice_chars(name, 0, name.len()),
    }
}

/// The first `n` of the four characters `c0..c3`.
pub open spec fn lit4(c0: char, c1: char, c2: char, c3: char, n: int) -> Seq<char> {
    seq![c0, c1, c2, c3].take(n)
}

fn lit_eq(a: &[char], c0: char, c1: char, c2: char, c3: char, n: usize) -> (res: bool)
    requires
        n <= 4,
    ensures
        res == (a@ == lit4(c0, c1, c2, c3, n as int)),
{
    let ghost lit = lit4(c0, c1, c2, c3, n as int);
    if a.len() != n {
        return false;
    }
    let ok = (n <= 0 || a[0] == c0) && (n <= 1 || a[1] == c1) && (n <= 2 || a[2] == c2) && (n <= 3
        || a[3] == c3);
    if ok {
        assert(a@ =~= lit);
    } else {
        assert(a@ != lit) by {
            if a@ == lit {
                assert(n > 0 ==> a@[0] == c0);
                assert(n > 1 ==> a@[1] == c1);
                assert(n > 2 ==> a@[2] == c2);
                assert(n > 3 ==> a@[3] == c3);
            }
        }
    }
    ok
}

fn format_of_chars(ext: &[char]) -> (res: Option<BookFormat>)
    ensures
        res == spec_format_of(ext@),
{
    assert(lit4('k', 'f', 'x', ' ', 3) =~= seq!['k', 'f', 'x']);
    assert(lit4('a', 'z', 'w', ' ', 3) =~= seq!['a', 'z', 'w']);
    let lower = to_ascii_lowercase(ext);
    if lit_eq(lower.as_slice(), 'k', 'f', 'x', ' ', 3) {
        Some(BookFormat::Kfx)
    } else if lit_eq(lower.as_slice(), 'a', 'z', 'w', ' ', 3) {
        Some(BookFormat::Azw)
    } else {
        None
    }
}

fn is_metadata_extension_chars(ext: &[char]) -> (res: bool)
    ensures
        res == is_metadata_extension(ext@),
{
    assert(lit4('m', 'f', ' ', ' ', 2) =~= seq!['m', 'f']);
    assert(lit4('y', 'j', 'f', ' ', 3) =~= seq!['y', 'j', 'f']);
    assert(lit4('m', 'e', 't', 'a', 4) =~= seq!['m', 'e', 't', 'a']);
    let lower = to_ascii_lowercase(ext);
    let l = lower.as_slice();
    lit_eq(l, 'm', 'f', ' ', ' ', 2) || lit_eq(l, 'y', 'j', 'f', ' ', 3) || lit_eq(
        l,
        'm',
        'e',
        't',
        'a',
        4,
    )
}

fn is_identifier_chars(t: &[char]) -> (res: bool)
    ensures
        res == spec_is_identifier(t@),
{
    if t.len() < 10 {
        return false;
    }
    let mut i: usize = 0;
    while i < t.len()
        invariant
            i <= t@.len(),
            forall|k: int| 0 <= k < i ==> is_ascii_upper(#[trigger] t@[k]) || is_ascii_digit(t@[k]),
        decreases t@.len() - i,
    {
        let c = t[i];
        if !(('A' <= c && c <= 'Z') || ('0' <= c && c <= '9')) {
            return false;
        }
        i = i + 1;
    }
    true
}

fn split_identity_chars(stem: &[char]) -> (res: (Vec<char>, Option<Vec<char>>))
    ensures
        res.0@ == spec_split_identity(stem@).0,
        match res.1 {
            Some(id) => spec_split_identity(stem@).1 == Some(id@),
            None => spec_split_identity(stem@).1 is None,
        },
{
    match rfind(stem, '_') {
        Some(i) => {
            let n = stem.len();
            let id = slice_chars(stem, i + 1, n);
            if is_identifier_chars(id.as_slice()) {
                (slice_chars(stem, 0, i), Some(id))
            } else {
                (slice_chars(stem, 0, stem.len()), None)
            }
        },
        None => (slice_chars(stem, 0, stem.len()), None),
    }
}

fn string_opt(v: Option<Vec<char>>) -> (res: Option<String>)
    ensures
        match v {
            Some(c) => opt_view(res) == Some(c@),
            None => res is None,
        },
{
    match v {
        Some(c) => Some(string_of(c.as_slice())),
        None => None,
    }
}

impl BookFormat {
    /// Map a filename extension to a recognised format (ASCII case is
    /// ignored).
    pub fn from_extension(ext: &str) -> (res: Option<BookFormat>)
        ensures
            res == spec_format_of(ext@),
    {
        let cs = chars_of(ext);
        format_of_chars(cs.as_slice())
    }

    /// The display label of the format.
    pub fn label(&self) -> (res: &'static str)
        ensures
            *self == BookFormat::Kfx ==> res@ == seq!['K', 'F', 'X'],
            *self == BookFormat::Azw ==> res@ == seq!['A', 'Z', 'W'],
    {
        match self {
            BookFormat::Kfx => {
                proof {
                    reveal_strlit("KFX");
                }
                "KFX"
            },
            BookFormat::Azw => {
                proof {
                    reveal_strlit("AZW");
                }
                "AZW"
            },
        }
    }
}

/// The extension of a filename: the text after its last `.`.
pub fn extension(filename: &str) -> (res: Option<String>)
    ensures
        opt_view(res) == spec_extension(filename@),
{
    let cs = chars_of(filename);
    string_opt(extension_chars(cs.as_slice()))
}

/// The filename without its last `.`-extension.
pub fn strip_extension(filename: &str) -> (res: String)
    ensures
        res@ == spec_strip_extension(filename@),
{
    let cs = chars_of(filename);
    let stem = strip_extension_chars(cs.as_slice());
    string_of(stem.as_slice())
}

/// True when `token` looks like a device identifier: uppercase letters and
/// digits, at least 10 characters long.
pub fn is_identifier(token: &str) -> (res: bool)
    ensures
        res == spec_is_identifier(token@),
{
    let cs = chars_of(token);
    is_identifier_chars(cs.as_slice())
}

/// Split a `Title_ASIN` stem into (title, identifier).
///
/// The identifier is the trailing underscore-separated token when it looks
/// like a device id (10-char ASIN or 32-char hex id). Items without one
/// (e.g. dictionaries) keep the whole stem as the title.
pub fn split_identity(stem: &str) -> (res: (String, Option<String>))
    ensures
        res.0@ == spec_split_identity(stem@).0,
        opt_view(res.1) == spec_split_identity(stem@).1,
{
    let cs = chars_of(stem);
    let (title, id) = split_identity_chars(cs.as_slice());
    (string_of(title.as_slice()), string_opt(id))
}

/// Parse a `Title_ASIN.ext` filename into (title, asin, format).
///
/// Returns `None` when the extension is not a recognised book format.
pub fn parse_book_filename(filename: &str) -> (res: Option<(String, Option<String>, BookFormat)>)
    ensures
        match res {
            Some(parsed) => spec_parse_book_filename(filename@) == Some(
                (parsed.0@, opt_view(parsed.1), parsed.2),
            ),
            None => spec_parse_book_filename(filename@) is None,
        },
{
    let cs = chars_of(filename);
    let ext = match extension_chars(cs.as_slice()) {
        Some(ext) => ext,
        None => return None,
    };
    let format = match format_of_chars(ext.as_slice()) {
        Some(format) => format,
        None => return None,
    };
    let stem = strip_extension_chars(cs.as_slice());
    let (title, id) = split_identity_chars(stem.as_slice());
    Some((string_of(title.as_slice()), string_opt(id), format))
}

// ---------------------------------------------------------------------------
// Executable grouping
// ---------------------------------------------------------------------------

/// The filenames of a listing as character vectors.
fn listing_names(objects: &[MtpObjectSummary]) -> (names: Vec<Vec<char>>)
    ensures
        names@.len() == objects@.len(),
        forall|k: int| 0 <= k < names@.len() ==> #[trigger] names@[k]@ == objects@[k].filename@,
{
    let mut names: Vec<Vec<char>> = Vec::new();
    let mut i: usize = 0;
    while i < objects.len()
        invariant
            i <= objects@.len(),
            names@.len() == i,
            forall|k: int| 0 <= k < i ==> #[trigger] names@[k]@ == objects@[k].filename@,
        decreases objects@.len() - i,
    {
        names.push(chars_of(objects[i].filename.as_str()));
        i = i + 1;
    }
    names
}

/// The format of a content object, or `None` when it is not book content.
fn content_format(o: &MtpObjectSummary, name: &[char]) -> (res: Option<BookFormat>)
    requires
        name@ == o.filename@,
    ensures
        (res is Some) == is_content(o@),
        res matches Some(f) ==> Some(f) == spec_format_of(spec_extension(o@.filename).unwrap()),
{
    if o.is_folder {
        return None;
    }
    match extension_chars(name) {
        Some(ext) => format_of_chars(ext.as_slice()),
        None => None,
    }
}

/// Whether `name` is `stem` followed by `.sdr`.
fn is_sidecar_name(name: &[char], stem: &[char]) -> (res: bool)
    ensures
        res == (name@ == stem@ + seq!['.', 's', 'd', 'r']),
{
    let ghost target = stem@ + seq!['.', 's', 'd', 'r'];
    if name.len() < 4 || name.len() - 4 != stem.len() {
        assert(name@.len() != target.len());
        return false;
    }
    let n = name.len();
    let ok = chars_start_with(name, stem) && name[n - 4] == '.' && name[n - 3] == 's' && name[n
        - 2] == 'd' && name[n - 1] == 'r';
    if ok {
        assert(name@ =~= target);
    } else {
        assert(name@ != target) by {
            if name@ == target {
                assert(stem@.is_prefix_of(name@)) by {
                    assert forall|k: int| 0 <= k < stem@.len() implies stem@[k] == name@[k] by {
                        assert(target[k] == stem@[k]);
                    }
                }
                assert(target[n - 4] == '.');
                assert(target[n - 3] == 's');
                assert(target[n - 2] == 'd');
                assert(target[n - 1] == 'r');
            }
        }
    }
    ok
}

proof fn lemma_take_push<A>(s: Seq<A>, i: int)
    requires
        0 <= i < s.len(),
    ensures
        s.take(i + 1).drop_last() == s.take(i),
        s.take(i + 1).last() == s[i],
        s.take(i + 1).len() == i + 1,
{
    assert(s.take(i + 1).drop_last() =~= s.take(i));
}

/// The handle of the first sidecar folder for `stem` in a listing.
fn sidecar_handle_for(objects: &[MtpObjectSummary], names: &Vec<Vec<char>>, stem: &[char]) -> (res:
    Option<u64>)
    requires
        names@.len() == objects@.len(),
        forall|k: int| 0 <= k < names@.len() ==> #[trigger] names@[k]@ == objects@[k].filename@,
    ensures
        res == sidecar_in(objects_view(objects@), stem@),
{
    let ghost all = objects_view(objects@);
    let mut found: Option<u64> = None;
    let mut i: usize = 0;
    while i < objects.len()
        invariant
            i <= objects@.len(),
            all == objects_view(objects@),
            names@.len() == objects@.len(),
            forall|k: int| 0 <= k < names@.len() ==> #[trigger] names@[k]@ == objects@[k].filename@,
            found == sidecar_in(all.take(i as int), stem@),
        decreases objects@.len() - i,
    {
        proof {
            lemma_take_push(all, i as int);
        }
        if found.is_none() && objects[i].is_folder && is_sidecar_name(names[i].as_slice(), stem) {
            found = Some(objects[i].handle);
        }
        i = i + 1;
    }
    assert(all.take(objects@.len() as int) =~= all);
    found
}

/// The handles, in listing order, of the metadata objects of a book.
fn metadata_handles_for(
    objects: &[MtpObjectSummary],
    names: &Vec<Vec<char>>,
    stem: &[char],
    asin: &Option<Vec<char>>,
) -> (res: Vec<u64>)
    requires
        names@.len() == objects@.len(),
        forall|k: int| 0 <= k < names@.len() ==> #[trigger] names@[k]@ == objects@[k].filename@,
    ensures
        res@ == metadata_in(
            objects_view(objects@),
            stem@,
            match asin {
                Some(a) => Some(a@),
                None => None,
            },
        ),
{
    let ghost all = objects_view(objects@);
    let ghost asin_view = match asin {
        Some(a) => Some(a@),
        None => None,
    };
    let mut out: Vec<u64> = Vec::new();
    let mut i: usize = 0;
    while i < objects.len()
        invariant
            i <= objects@.len(),
            all == objects_view(objects@),
            names@.len() == objects@.len(),
            forall|k: int| 0 <= k < names@.len() ==> #[trigger] names@[k]@ == objects@[k].filename@,
            asin_view == match asin {
                Some(a) => Some(a@),
                None => None,
            },
            out@ == metadata_in(all.take(i as int), stem@, asin_view),
        decreases objects@.len() - i,
    {
        proof {
            lemma_take_push(all, i as int);
        }
        let name = names[i].as_slice();
        if !objects[i].is_folder {
            match extension_chars(name) {
                Some(ext) => {
                    if is_metadata_extension_chars(ext.as_slice()) {
                        let meta_stem = strip_extension_chars(name);
                        let by_stem = chars_start_with(meta_stem.as_slice(), stem);
                        let by_asin = match asin {
                            Some(a) => chars_eq(a.as_slice(), meta_stem.as_slice()),
                            None => false,
                        };
                        if by_stem || by_asin {
                            out.push(objects[i].handle);
                        }
                    }
                },
                None => {},
            }
        }
        i = i + 1;
    }
    assert(all.take(objects@.len() as int) =~= all);
    out
}

/// Group the objects of a book-content folder into `Book` values.
///
/// On the observed device each book is a `Title_ASIN.kfx` content file paired
/// with a `Title_ASIN.sdr` sidecar folder and `<id>.mf` / `Title_ASIN….yjf`
/// metadata objects. Metadata whose stem matches neither the content stem nor
/// the identifier (such as a folder-level `.meta`) is attached to no book.
pub fn books_from_folder(objects: &[MtpObjectSummary]) -> (books: Vec<Book>)
    ensures
        books_view(books@) == books_in_folder(objects_view(objects@)),
{
    let ghost all = objects_view(objects@);
    let names = listing_names(objects);
    let mut books: Vec<Book> = Vec::new();
    let mut i: usize = 0;
    while i < objects.len()
        invariant
            i <= objects@.len(),
            all == objects_view(objects@),
            names@.len() == objects@.len(),
            forall|k: int| 0 <= k < names@.len() ==> #[trigger] names@[k]@ == objects@[k].filename@,
            books_view(books@) == books_of(all.take(i as int), all),
        decreases objects@.len() - i,
    {
        proof {
            lemma_take_push(all, i as int);
        }
        let object = &objects[i];
        let name = names[i].as_slice();
        match content_format(object, name) {
            Some(format) => {
                let stem = strip_extension_chars(name);
                let (title, asin) = split_identity_chars(stem.as_slice());
                let sidecar_handle = sidecar_handle_for(objects, &names, stem.as_slice());
                let metadata_handles = metadata_handles_for(objects, &names, stem.as_slice(), &asin);
                let book = Book {
                    title: string_of(title.as_slice()),
                    asin: string_opt(asin),
                    format,
                    size_bytes: object.size_bytes,
                    content_handle: object.handle,
                    sidecar_handle,
                    metadata_handles,
                };
                assert(book@ == book_for(all[i as int], all));
                let ghost before = books@;
                books.push(book);
                assert(books_view(books@) =~= books_view(before).push(book@));
            },
            None => {},
        }
        i = i + 1;
    }
    assert(all.take(objects@.len() as int) =~= all);
    books
}

/// The first folder called `name` in a listing.
pub fn find_folder<'a>(objects: &'a [MtpObjectSummary], name: &str) -> (res: Option<
    &'a MtpObjectSummary,
>)
    ensures
        match res {
            Some(o) => exists|i: int|
                0 <= i < objects@.len() && folder_in(objects_view(objects@), name@) == Some(i) && *o
                    == objects@[i],
            None => folder_in(objects_view(objects@), name@) is None,
        },
{
    let ghost all = objects_view(objects@);
    let target = chars_of(name);
    let mut i: usize = 0;
    while i < objects.len()
        invariant
            i <= objects@.len(),
            all == objects_view(objects@),
            folder_in(all.take(i as int), name@) is None,
            target@ == name@,
        decreases objects@.len() - i,
    {
        proof {
            lemma_take_push(all, i as int);
        }
        let object = &objects[i];
        if object.is_folder {
            let candidate = chars_of(object.filename.as_str());
            if chars_eq(candidate.as_slice(), target.as_slice()) {
                assert(folder_in(all.take(i + 1), name@) == Some(i as int));
                proof {
                    lemma_folder_in_extends(all, name@, i as int + 1);
                }
                return Some(object);
            }
        }
        i = i + 1;
    }
    assert(all.take(objects@.len() as int) =~= all);
    None
}

/// Once a prefix holds a match, every longer prefix gives the same match.
proof fn lemma_folder_in_extends(all: Seq<ObjectView>, name: Seq<char>, n: int)
    requires
        0 <= n <= all.len(),
        folder_in(all.take(n), name) is Some,
    ensures
        folder_in(all, name) == folder_in(all.take(n), name),
    decreases all.len() - n,
{
    if n < all.len() {
        lemma_take_push(all, n);
        lemma_folder_in_extends(all, name, n + 1);
    } else {
        assert(all.take(n) =~= all);
    }
}

/// The dictionaries of a `documents/dictionaries/` listing: each file of a
/// recognised format, titled by its filename stem.
pub fn dictionary_books(objects: &[MtpObjectSummary]) -> (books: Vec<Book>)
    ensures
        books_view(books@) == dictionaries_of(objects_view(objects@)),
{
    let ghost all = objects_view(objects@);
    let mut books: Vec<Book> = Vec::new();
    let mut i: usize = 0;
    while i < objects.len()
        invariant
            i <= objects@.len(),
            all == objects_view(objects@),
            books_view(books@) == dictionaries_of(all.take(i as int)),
        decreases objects@.len() - i,
    {
        proof {
            lemma_take_push(all, i as int);
        }
        let object = &objects[i];
        let name = chars_of(object.filename.as_str());
        match content_format(object, name.as_slice()) {
            Some(format) => {
                let stem = strip_extension_chars(name.as_slice());
                let book = Book {
                    title: string_of(stem.as_slice()),
                    asin: None,
                    format,
                    size_bytes: object.size_bytes,
                    content_handle: object.handle,
                    sidecar_handle: None,
                    metadata_handles: Vec::new(),
                };
                let ghost before = books@;
                books.push(book);
                assert(books_view(books@) =~= books_view(before).push(book@));
            },
            None => {},
        }
        i = i + 1;
    }
    assert(all.take(objects@.len() as int) =~= all);
    books
}

/// A copy of a list of handles.
pub fn copy_handles(handles: &Vec<u64>) -> (res: Vec<u64>)
    ensures
        res@ == handles@,
{
    let mut out: Vec<u64> = Vec::new();
    let mut i: usize = 0;
    while i < handles.len()
        invariant
            i <= handles@.len(),
            out@ == handles@.take(i as int),
        decreases handles@.len() - i,
    {
        out.push(handles[i]);
        i = i + 1;
        assert(out@ =~= handles@.take(i as int));
    }
    assert(handles@.take(handles@.len() as int) =~= handles@);
    out
}

/// A copy of a book.
pub fn copy_book(book: &Book) -> (res: Book)
    ensures
        res@ == book@,
{
    Book {
        title: book.title.clone(),
        asin: match &book.asin {
            Some(a) => Some(a.clone()),
            None => None,
        },
        format: book.format,
        size_bytes: book.size_bytes,
        content_handle: book.content_handle,
        sidecar_handle: book.sidecar_handle,
        metadata_handles: copy_handles(&book.metadata_handles),
    }
}

} // verus!
