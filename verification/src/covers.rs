//! User-supplied cover images for the local library.
//!
//! Covers are local images named `<key>.<ext>`, where the key is a record's
//! stable key (ASIN, or `dict:<title>`) with every character that is not an
//! ASCII letter or digit replaced by `_`. Listing the covers folder is the
//! application's part; matching the listed covers to records is here.

use vstd::prelude::*;

use crate::inventory::opt_view;
use crate::library::{LocalLibrary, RecordView, copy_opt_string, records_view};
use crate::search::lemma_take_next;
use crate::text::{chars_of, string_of};

verus! {

broadcast use vstd::string::group_string_axioms;

pub open spec fn is_ascii_alphanumeric(c: char) -> bool {
    ('0' <= c && c <= '9') || ('A' <= c && c <= 'Z') || ('a' <= c && c <= 'z')
}

/// A key made usable as a filename: non-alphanumerics become `_`.
pub open spec fn spec_sanitize_key(key: Seq<char>) -> Seq<char> {
    key.map_values(|c: char| if is_ascii_alphanumeric(c) { c } else { '_' })
}

/// Replace non-alphanumeric characters so a key can be a filename.
pub fn sanitize_key(key: &str) -> (res: String)
    ensures
        res@ == spec_sanitize_key(key@),
{
    let cs = chars_of(key);
    let mut out: Vec<char> = Vec::new();
    let mut i: usize = 0;
    while i < cs.len()
        invariant
            i <= cs@.len(),
            cs@ == key@,
            out@ == spec_sanitize_key(cs@.take(i as int)),
        decreases cs@.len() - i,
    {
        let c = cs[i];
        let keep = ('0' <= c && c <= '9') || ('A' <= c && c <= 'Z') || ('a' <= c && c <= 'z');
        out.push(if keep { c } else { '_' });
        i = i + 1;
        assert(spec_sanitize_key(cs@.take(i as int)) =~= spec_sanitize_key(cs@.take(i - 1)).push(
            if keep { c } else { '_' },
        ));
    }
    assert(cs@.take(cs@.len() as int) =~= cs@);
    string_of(out.as_slice())
}

/// One listed cover image: its filename stem and its path.
pub struct CoverFile {
    pub stem: String,
    pub path: String,
}

pub open spec fn covers_view(covers: Seq<CoverFile>) -> Seq<(Seq<char>, Seq<char>)> {
    covers.map_values(|c: CoverFile| (c.stem@, c.path@))
}

/// The path of the cover for a sanitized key: the last listed cover with that
/// stem (a later file with the same stem replaces an earlier one).
pub open spec fn cover_for(covers: Seq<(Seq<char>, Seq<char>)>, stem: Seq<char>) -> Option<Seq<char>>
    decreases covers.len(),
{
    if covers.len() == 0 {
        None
    } else if covers.last().0 == stem {
        Some(covers.last().1)
    } else {
        cover_for(covers.drop_last(), stem)
    }
}

/// A record with its cover path set to its matched cover (or cleared).
pub open spec fn with_cover(r: RecordView, covers: Seq<(Seq<char>, Seq<char>)>) -> RecordView {
    RecordView { cover_path: cover_for(covers, spec_sanitize_key(r.key)), ..r }
}

/// How many records' cover paths a scan changes.
pub open spec fn covers_changed(records: Seq<RecordView>, covers: Seq<(Seq<char>, Seq<char>)>) -> nat
    decreases records.len(),
{
    if records.len() == 0 {
        0
    } else {
        covers_changed(records.drop_last(), covers) + if records.last().cover_path != cover_for(
            covers,
            spec_sanitize_key(records.last().key),
        ) {
            1nat
        } else {
            0nat
        }
    }
}

/// The matched cover path of a sanitized key.
fn find_cover(covers: &Vec<CoverFile>, stem: &String) -> (res: Option<String>)
    ensures
        opt_view(res) == cover_for(covers_view(covers@), stem@),
{
    let ghost cv = covers_view(covers@);
    let mut i: usize = covers.len();
    assert(cv.take(i as int) =~= cv);
    while i > 0
        invariant
            i <= covers@.len(),
            cv == covers_view(covers@),
            cover_for(cv, stem@) == cover_for(cv.take(i as int), stem@),
        decreases i,
    {
        proof {
            lemma_take_next(cv, i - 1);
        }
        if covers[i - 1].stem == *stem {
            return Some(covers[i - 1].path.clone());
        }
        i = i - 1;
    }
    None
}

impl LocalLibrary {
    /// Match listed cover images to records and record their paths.
    ///
    /// A record's cover is the listed file whose stem is the record's
    /// sanitized key; stale paths are cleared when the cover is gone.
    /// Returns the number of records changed.
    pub fn apply_covers(&mut self, covers: &Vec<CoverFile>) -> (changed: usize)
        ensures
            final(self).version == old(self).version,
            final(self).collections == old(self).collections,
            final(self)@.records == with_covers(old(self)@.records, covers_view(covers@)),
            changed == covers_changed(old(self)@.records, covers_view(covers@)),
    {
        let ghost orig = old(self)@.records;
        let ghost cv = covers_view(covers@);
        let n = self.records.len();
        let mut changed: usize = 0;
        let mut i: usize = 0;
        assert(self@.records =~= orig.take(0).map_values(|r: RecordView| with_cover(r, cv))
            + orig.skip(0));
        while i < n
            invariant
                n == self.records@.len(),
                orig.len() == n,
                cv == covers_view(covers@),
                i <= n,
                self@.records == orig.take(i as int).map_values(|r: RecordView| with_cover(r, cv))
                    + orig.skip(i as int),
                changed == covers_changed(orig.take(i as int), cv),
                changed <= i,
                self.version == old(self).version,
                self.collections == old(self).collections,
            decreases n - i,
        {
            proof {
                lemma_take_next(orig, i as int);
            }
            assert(self@.records[i as int] == orig[i as int]);
            let stem = sanitize_key(self.records[i].key.as_str());
            let matched = find_cover(covers, &stem);
            let ghost before = self.records@;
            let mut record = self.records.remove(i);
            let differs = match (&record.cover_path, &matched) {
                (Some(a), Some(b)) => *a != *b,
                (None, None) => false,
                _ => true,
            };
            if differs {
                record.cover_path = copy_opt_string(&matched);
                changed = changed + 1;
            }
            self.records.insert(i, record);
            proof {
                assert(self.records@ == before.update(i as int, record));
                assert(records_view(self.records@) =~= records_view(before).update(
                    i as int,
                    record@,
                ));
                assert(record@ == with_cover(orig[i as int], cv));
                assert(self@.records =~= orig.take(i + 1).map_values(
                    |r: RecordView| with_cover(r, cv),
                ) + orig.skip(i + 1));
            }
            i = i + 1;
        }
        proof {
            assert(orig.take(n as int) =~= orig);
            assert(self@.records =~= with_covers(orig, cv));
        }
        changed
    }
}

impl LocalLibrary {
    /// Match user-supplied cover images to records, given the listing of the
    /// covers directory: `None` when there is no such directory, which
    /// leaves the library as it is and changes no record. Returns the number
    /// of records changed.
    pub fn scan_covers(&mut self, listing: Option<&Vec<CoverFile>>) -> (changed: usize)
        ensures
            listing is None ==> *final(self) == *old(self) && changed == 0,
            listing matches Some(covers) ==> final(self).version == old(self).version
                && final(self).collections == old(self).collections && final(self)@.records
                == with_covers(old(self)@.records, covers_view(covers@)) && changed
                == covers_changed(old(self)@.records, covers_view(covers@)),
    {
        match listing {
            Some(covers) => self.apply_covers(covers),
            None => 0,
        }
    }
}

/// All records with their matched covers.
pub open spec fn with_covers(records: Seq<RecordView>, covers: Seq<(Seq<char>, Seq<char>)>) -> Seq<RecordView> {
    records.map_values(|r: RecordView| with_cover(r, covers))
}

/// Scanning the same covers again changes no record: a scan is idempotent.
pub proof fn law_cover_scan_idempotent(records: Seq<RecordView>, covers: Seq<(Seq<char>, Seq<char>)>)
    ensures
        with_covers(with_covers(records, covers), covers) == with_covers(records, covers),
        covers_changed(with_covers(records, covers), covers) == 0,
    decreases records.len(),
{
    let once = with_covers(records, covers);
    assert(with_covers(once, covers) =~= once);
    if records.len() > 0 {
        law_cover_scan_idempotent(records.drop_last(), covers);
        assert(once.drop_last() =~= with_covers(records.drop_last(), covers));
    }
}

/// Sanitizing keeps every ASCII letter and every ASCII digit `0`..=`9` and
/// turns every other character into `_`, one for one; so a key made only of
/// ASCII letters and digits sanitizes to itself.
pub proof fn law_sanitize_key_chars(key: Seq<char>)
    ensures
        spec_sanitize_key(key).len() == key.len(),
        forall|i: int|
            0 <= i < key.len() ==> #[trigger] spec_sanitize_key(key)[i] == if ('0' <= key[i] && key[i]
                <= '9') || ('A' <= key[i] && key[i] <= 'Z') || ('a' <= key[i] && key[i] <= 'z') {
                key[i]
            } else {
                '_'
            },
        (forall|i: int|
            0 <= i < key.len() ==> ('0' <= #[trigger] key[i] && key[i] <= '9') || ('A' <= key[i]
                && key[i] <= 'Z') || ('a' <= key[i] && key[i] <= 'z')) ==> spec_sanitize_key(key)
            == key,
{
    if forall|i: int|
        0 <= i < key.len() ==> ('0' <= #[trigger] key[i] && key[i] <= '9') || ('A' <= key[i] && key[i]
            <= 'Z') || ('a' <= key[i] && key[i] <= 'z') {
        assert(spec_sanitize_key(key) =~= key);
    }
}

} // verus!
