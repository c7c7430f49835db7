//! Safe book-level device management decisions.
//!
//! Operations are driven by a `Book` record from a fresh inventory. Removing
//! a book inspects every handle the book records (content file, `.sdr`
//! sidecar folder, metadata objects) against what the record expects before
//! anything is deleted: on a mismatch nothing is deleted, and only the
//! recorded handles are ever targeted. Only Kindling's own artifacts may be
//! deleted by bare handle.

use vstd::prelude::*;

use crate::error::KindredError;
use crate::inventory::{Book, BookFormat, BookView, KindleInventory, books_view, opt_view};
use crate::search::{first_index, lemma_first_index_none, lemma_first_index_unique};
use crate::text::{chars_of, chars_start_with, decimal_string, radix_digits};

verus! {

broadcast use vstd::string::group_string_axioms;

/// Prefix of artifacts added by Kindling itself (controlled test files).
pub const ADDED_PREFIX: &'static str = "kindling_";

/// The filename extension of a format as written on the device.
pub open spec fn format_extension(format: BookFormat) -> Seq<char> {
    match format {
        BookFormat::Kfx => seq!['k', 'f', 'x'],
        BookFormat::Azw => seq!['a', 'z', 'w'],
    }
}

/// The on-device content stem of a book: `Title_ASIN`, or `Title`.
pub open spec fn spec_content_stem(b: BookView) -> Seq<char> {
    match b.asin {
        Some(asin) => b.title + seq!['_'] + asin,
        None => b.title,
    }
}

/// The on-device content filename of a book: `Title_ASIN.ext`, or
/// `Title.ext`.
pub open spec fn spec_content_filename(b: BookView) -> Seq<char> {
    spec_content_stem(b) + seq!['.'] + format_extension(b.format)
}

/// The on-device sidecar folder name of a book: `Title_ASIN.sdr`.
pub open spec fn spec_sidecar_name(b: BookView) -> Seq<char> {
    spec_content_stem(b) + seq!['.', 's', 'd', 'r']
}

/// Reconstruct the on-device content stem (`Title_ASIN`, or `Title`).
pub fn content_stem(book: &Book) -> (res: String)
    ensures
        res@ == spec_content_stem(book@),
{
    proof {
        reveal_strlit("_");
    }
    match &book.asin {
        Some(asin) => book.title.clone().concat("_").concat(asin.as_str()),
        None => book.title.clone(),
    }
}

/// Reconstruct the on-device content filename for a book.
pub fn content_filename(book: &Book) -> (res: String)
    ensures
        res@ == spec_content_filename(book@),
{
    let ext = match book.format {
        BookFormat::Kfx => "kfx",
        BookFormat::Azw => "azw",
    };
    proof {
        reveal_strlit(".");
        reveal_strlit("kfx");
        reveal_strlit("azw");
    }
    content_stem(book).concat(".").concat(ext)
}

/// Reconstruct the on-device sidecar folder name for a book.
pub fn sidecar_name(book: &Book) -> (res: String)
    ensures
        res@ == spec_sidecar_name(book@),
{
    proof {
        reveal_strlit(".sdr");
    }
    content_stem(book).concat(".sdr")
}

/// `file` or `folder`.
pub open spec fn kind_word(is_folder: bool) -> Seq<char> {
    if is_folder {
        "folder"@
    } else {
        "file"@
    }
}

/// The message for an object of the wrong kind.
pub open spec fn wrong_kind_message(handle: u64, is_folder: bool, expected_folder: bool) -> Seq<
    char,
> {
    "object handle "@ + radix_digits(handle as nat, 10, false) + " is a "@ + kind_word(is_folder)
        + ", expected "@ + kind_word(expected_folder)
}

fn kind_text(is_folder: bool) -> (res: &'static str)
    ensures
        res@ == kind_word(is_folder),
{
    if is_folder {
        "folder"
    } else {
        "file"
    }
}

/// Hold what the device reports for a handle against what a deletion
/// expects: an object of the wrong kind is invalid; a renamed object means
/// the handle is stale. Nothing may be deleted unless this is `Ok`.
pub fn check_expected_object(
    handle: u64,
    is_folder: bool,
    filename: &str,
    expected_name: Option<&str>,
    expected_folder: bool,
) -> (res: Result<(), KindredError>)
    ensures
        is_folder != expected_folder ==> (res matches Err(KindredError::InvalidObject { message })
            && message@ == wrong_kind_message(handle, is_folder, expected_folder)),
        is_folder == expected_folder ==> match expected_name {
            Some(name) => if filename@ == name@ {
                res is Ok
            } else {
                res matches Err(KindredError::StaleObject)
            },
            None => res is Ok,
        },
{
    if is_folder != expected_folder {
        let message = "object handle ".to_owned().concat(decimal_string(handle).as_str()).concat(
            " is a ",
        ).concat(kind_text(is_folder)).concat(", expected ").concat(kind_text(expected_folder));
        return Err(KindredError::InvalidObject { message });
    }
    match expected_name {
        Some(name) => {
            let actual = filename.to_owned();
            let expected = name.to_owned();
            if actual != expected {
                return Err(KindredError::StaleObject);
            }
            Ok(())
        },
        None => Ok(()),
    }
}

/// Whether a filename marks a Kindling-controlled artifact.
pub open spec fn is_kindling_controlled(filename: Seq<char>) -> bool {
    "kindling_"@.is_prefix_of(filename)
}

/// Safety guard for deleting by bare handle: only objects whose filename
/// begins with the Kindling-controlled prefix may go; anything else is
/// refused with `AccessDenied`.
pub fn check_added_object(filename: &str) -> (res: Result<(), KindredError>)
    ensures
        is_kindling_controlled(filename@) ==> res is Ok,
        !is_kindling_controlled(filename@) ==> res matches Err(KindredError::AccessDenied),
{
    let name = chars_of(filename);
    let prefix = chars_of(ADDED_PREFIX);
    proof {
        reveal_strlit("kindling_");
    }
    assert(ADDED_PREFIX@ == "kindling_"@);
    if chars_start_with(name.as_slice(), prefix.as_slice()) {
        Ok(())
    } else {
        Err(KindredError::AccessDenied)
    }
}

/// A book's content handle must name a file before it is downloaded.
pub fn check_content_file(is_folder: bool) -> (res: Result<(), KindredError>)
    ensures
        !is_folder ==> res is Ok,
        is_folder ==> (res matches Err(KindredError::InvalidObject { message }) && message@
            == "book content handle is not a file"@),
{
    if is_folder {
        Err(KindredError::InvalidObject { message: "book content handle is not a file".to_owned() })
    } else {
        Ok(())
    }
}

/// Books whose identifier is `asin`.
pub open spec fn asin_is(asin: Seq<char>) -> spec_fn(BookView) -> bool {
    |b: BookView| b.asin == Some(asin)
}

/// The first book of an inventory with the given ASIN.
pub fn find_book<'a>(inventory: &'a KindleInventory, asin: &str) -> (res: Option<&'a Book>)
    ensures
        match first_index(books_view(inventory.books@), asin_is(asin@)) {
            Some(i) => res == Some(&inventory.books@[i]),
            None => res is None,
        },
{
    let ghost bv = books_view(inventory.books@);
    let target = asin.to_owned();
    let mut i: usize = 0;
    while i < inventory.books.len()
        invariant
            i <= inventory.books@.len(),
            bv == books_view(inventory.books@),
            target@ == asin@,
            forall|k: int| 0 <= k < i ==> !asin_is(asin@)(#[trigger] bv[k]),
        decreases inventory.books@.len() - i,
    {
        let matches = match &inventory.books[i].asin {
            Some(a) => *a == target,
            None => false,
        };
        if matches {
            proof {
                lemma_first_index_unique(bv, asin_is(asin@), i as int);
            }
            return Some(&inventory.books[i]);
        }
        i = i + 1;
    }
    proof {
        lemma_first_index_none(bv, asin_is(asin@));
    }
    None
}

// ---------------------------------------------------------------------------
// Removing a book
// ---------------------------------------------------------------------------

/// A device object a removal will delete, with what it must be.
#[derive(Debug, Clone)]
pub struct RemovalTarget {
    pub handle: u64,
    /// The name it must carry, when the record knows it.
    pub expected_name: Option<String>,
    /// Whether it must be a folder.
    pub expected_folder: bool,
}

/// The abstract content of a `RemovalTarget`.
pub struct TargetView {
    pub handle: u64,
    pub expected_name: Option<Seq<char>>,
    pub expected_folder: bool,
}

impl View for RemovalTarget {
    type V = TargetView;

    open spec fn view(&self) -> TargetView {
        TargetView {
            handle: self.handle,
            expected_name: opt_view(self.expected_name),
            expected_folder: self.expected_folder,
        }
    }
}

pub open spec fn targets_view(s: Seq<RemovalTarget>) -> Seq<TargetView> {
    s.map_values(|t: RemovalTarget| t@)
}

/// What removing a book deletes: its content file under its content
/// filename, its sidecar folder under its sidecar name when it has one, and
/// each of its metadata objects as a file.
pub open spec fn removal_targets(b: BookView) -> Seq<TargetView> {
    seq![
        TargetView {
            handle: b.content_handle,
            expected_name: Some(spec_content_filename(b)),
            expected_folder: false,
        },
    ] + (match b.sidecar_handle {
        Some(h) => seq![
            TargetView { handle: h, expected_name: Some(spec_sidecar_name(b)), expected_folder: true },
        ],
        None => Seq::empty(),
    }) + b.metadata_handles.map_values(
        |h: u64| TargetView { handle: h, expected_name: None, expected_folder: false },
    )
}

/// Whether what the device reports for a target is what the target must be.
pub open spec fn fits(t: TargetView, is_folder: bool, filename: Seq<char>) -> bool {
    &&& is_folder == t.expected_folder
    &&& t.expected_name matches Some(name) ==> filename == name
}

/// What the device reports for an object.
#[derive(Debug, Clone)]
pub struct ObjectCheck {
    pub is_folder: bool,
    pub filename: String,
}

/// The next device call of a removal, or its end.
#[derive(Debug)]
pub enum RemoveStep {
    /// Read what the device holds under this handle and report it with
    /// `Removal::inspected`.
    Inspect(u64),
    /// Delete this handle and report it with `Removal::deleted`.
    Delete(u64),
    /// Every target is deleted.
    Done,
    /// A target is not what the book records; nothing was deleted.
    Failed(KindredError),
}

/// A book removal in progress.
pub struct Removal {
    pub targets: Vec<RemovalTarget>,
    /// How many targets have been inspected and found as expected.
    pub checked: usize,
    /// How many targets have been deleted.
    pub deleted: usize,
    /// Whether an inspection found a mismatch.
    pub failed: bool,
    /// What the device reported for each target inspected.
    pub reports: Ghost<Seq<(bool, Seq<char>)>>,
}

impl Removal {
    /// The removal's own consistency: deletion starts only once every
    /// target has been inspected, and every inspected target fit.
    pub open spec fn wf(&self) -> bool {
        &&& self.checked <= self.targets@.len()
        &&& self.deleted <= self.targets@.len()
        &&& self.deleted > 0 ==> self.checked == self.targets@.len() && !self.failed
        &&& self.reports@.len() == self.checked
        &&& forall|i: int|
            0 <= i < self.checked ==> fits(
                #[trigger] targets_view(self.targets@)[i],
                self.reports@[i].0,
                self.reports@[i].1,
            )
    }

    /// Whether the removal waits for an inspection.
    pub open spec fn awaits_inspection(&self) -> bool {
        !self.failed && self.checked < self.targets@.len()
    }

    /// Whether the removal waits for a deletion.
    pub open spec fn awaits_deletion(&self) -> bool {
        !self.failed && self.checked == self.targets@.len() && self.deleted < self.targets@.len()
    }

    /// Whether every target has been inspected and fit what it must be.
    pub open spec fn all_fit(&self) -> bool {
        &&& self.checked == self.targets@.len()
        &&& !self.failed
        &&& forall|i: int|
            0 <= i < self.targets@.len() ==> fits(
                #[trigger] targets_view(self.targets@)[i],
                self.reports@[i].0,
                self.reports@[i].1,
            )
    }

    /// Begin removing `book`: the first call inspects its content file.
    pub fn start(book: &Book) -> (res: (Removal, RemoveStep))
        ensures
            res.0.wf(),
            targets_view(res.0.targets@) == removal_targets(book@),
            res.0.checked == 0,
            res.0.deleted == 0,
            !res.0.failed,
            res.1 == RemoveStep::Inspect(book.content_handle),
    {
        let ghost b = book@;
        let mut targets: Vec<RemovalTarget> = Vec::new();
        targets.push(
            RemovalTarget {
                handle: book.content_handle,
                expected_name: Some(content_filename(book)),
                expected_folder: false,
            },
        );
        if let Some(h) = book.sidecar_handle {
            targets.push(
                RemovalTarget { handle: h, expected_name: Some(sidecar_name(book)), expected_folder: true },
            );
        }
        let ghost head = targets_view(targets@);
        let mut i: usize = 0;
        while i < book.metadata_handles.len()
            invariant
                i <= book.metadata_handles@.len(),
                b == book@,
                targets_view(targets@) == head + b.metadata_handles.take(i as int).map_values(
                    |h: u64| TargetView { handle: h, expected_name: None, expected_folder: false },
                ),
            decreases book.metadata_handles@.len() - i,
        {
            let ghost before = targets@;
            let ghost tv = TargetView { handle: b.metadata_handles[i as int], expected_name: None, expected_folder: false };
            let target = RemovalTarget { handle: book.metadata_handles[i], expected_name: None, expected_folder: false };
            assert(target@ == tv);
            targets.push(target);
            assert(targets_view(targets@) =~= targets_view(before).push(tv));
            assert(b.metadata_handles.take(i + 1) =~= b.metadata_handles.take(i as int).push(
                b.metadata_handles[i as int],
            ));
            assert(b.metadata_handles.take(i + 1).map_values(
                |h: u64| TargetView { handle: h, expected_name: None, expected_folder: false },
            ) =~= b.metadata_handles.take(i as int).map_values(
                |h: u64| TargetView { handle: h, expected_name: None, expected_folder: false },
            ).push(tv));
            assert(targets_view(targets@) =~= head + b.metadata_handles.take(i + 1).map_values(
                |h: u64| TargetView { handle: h, expected_name: None, expected_folder: false },
            ));
            i = i + 1;
        }
        assert(b.metadata_handles.take(i as int) =~= b.metadata_handles);
        assert(targets_view(targets@) =~= removal_targets(b));
        let removal = Removal { targets, checked: 0, deleted: 0, failed: false, reports: Ghost(Seq::empty()) };
        (removal, RemoveStep::Inspect(book.content_handle))
    }

    /// Whether the removal waits for an inspection.
    pub fn is_awaiting_inspection(&self) -> (res: bool)
        ensures
            res == self.awaits_inspection(),
    {
        !self.failed && self.checked < self.targets.len()
    }

    /// Whether the removal waits for a deletion.
    pub fn is_awaiting_deletion(&self) -> (res: bool)
        ensures
            res == self.awaits_deletion(),
    {
        !self.failed && self.checked == self.targets.len() && self.deleted < self.targets.len()
    }

    /// Report what the device holds under the handle the last step asked to
    /// inspect. A mismatch fails the removal, with nothing deleted; once
    /// every target fits, deletion begins with the first.
    pub fn inspected(self, check: ObjectCheck) -> (res: (Removal, RemoveStep))
        requires
            self.wf(),
            self.awaits_inspection(),
        ensures
            res.0.wf(),
            res.0.targets == self.targets,
            res.0.deleted == 0,
            res.1 matches RemoveStep::Delete(h) ==> res.0.all_fit() && h == res.0.targets@[0].handle,
            ({
                let t = targets_view(self.targets@)[self.checked as int];
                if fits(t, check.is_folder, check.filename@) {
                    &&& !res.0.failed
                    &&& res.0.checked == self.checked + 1
                    &&& res.0.checked < self.targets@.len() ==> res.1 == RemoveStep::Inspect(
                        self.targets@[res.0.checked as int].handle,
                    )
                    &&& res.0.checked == self.targets@.len() ==> res.1 == RemoveStep::Delete(
                        self.targets@[0].handle,
                    )
                } else {
                    &&& res.0.failed
                    &&& res.0.checked == self.checked
                    &&& check.is_folder != t.expected_folder ==> (res.1 matches RemoveStep::Failed(
                        KindredError::InvalidObject { message },
                    ) && message@ == wrong_kind_message(t.handle, check.is_folder, t.expected_folder))
                    &&& check.is_folder == t.expected_folder ==> res.1 matches RemoveStep::Failed(
                        KindredError::StaleObject,
                    )
                }
            }),
    {
        let mut removal = self;
        let n = removal.targets.len();
        let k = removal.checked;
        let target = &removal.targets[k];
        let ghost t = targets_view(removal.targets@)[k as int];
        assert(t == target@);
        let expected = match &target.expected_name {
            Some(name) => Some(name.as_str()),
            None => None,
        };
        let outcome = check_expected_object(
            target.handle,
            check.is_folder,
            check.filename.as_str(),
            expected,
            target.expected_folder,
        );
        match outcome {
            Ok(()) => {
                assert(k < n);
                proof {
                    removal.reports@ = removal.reports@.push((check.is_folder, check.filename@));
                }
                removal.checked = k + 1;
                if removal.checked < removal.targets.len() {
                    let h = removal.targets[removal.checked].handle;
                    (removal, RemoveStep::Inspect(h))
                } else {
                    let h = removal.targets[0].handle;
                    (removal, RemoveStep::Delete(h))
                }
            },
            Err(error) => {
                removal.failed = true;
                (removal, RemoveStep::Failed(error))
            },
        }
    }

    /// Report that the handle the last step asked to delete is deleted.
    pub fn deleted(self) -> (res: (Removal, RemoveStep))
        requires
            self.wf(),
            self.awaits_deletion(),
        ensures
            res.0.wf(),
            res.0.targets == self.targets,
            res.0.checked == self.checked,
            !res.0.failed,
            res.0.deleted == self.deleted + 1,
            res.0.deleted < self.targets@.len() ==> res.1 == RemoveStep::Delete(
                self.targets@[res.0.deleted as int].handle,
            ),
            res.0.deleted == self.targets@.len() ==> res.1 == RemoveStep::Done,
            res.1 matches RemoveStep::Delete(h) ==> res.0.all_fit() && h == res.0.targets@[res.0.deleted as int].handle,
    {
        let mut removal = self;
        removal.deleted = removal.deleted + 1;
        if removal.deleted < removal.targets.len() {
            let h = removal.targets[removal.deleted].handle;
            (removal, RemoveStep::Delete(h))
        } else {
            (removal, RemoveStep::Done)
        }
    }
}

} // verus!
