//! Local collections: user-named groupings of book keys.
//!
//! Device-side Amazon Collections are not readable over MTP, so collections
//! here are a local, USB-independent grouping stored inside the local
//! library.

use vstd::prelude::*;

use crate::library::{LibraryError, LocalLibrary, collections_view};
use crate::search::{first_index, lemma_first_index, lemma_first_index_none, lemma_first_index_unique, lemma_take_next};
use crate::text::{trim, trim_str};

verus! {

broadcast use vstd::string::group_string_axioms;

/// A user-named local collection of book keys.
///
/// Keys are the stable library keys: ASIN, or `dict:<title>`.
#[derive(Debug, Clone, PartialEq, Eq)]
pub struct LocalCollection {
    pub name: String,
    /// Stable library keys of the books in this collection.
    pub book_keys: Vec<String>,
}

/// The abstract content of a `LocalCollection`.
pub struct CollectionView {
    pub name: Seq<char>,
    pub book_keys: Seq<Seq<char>>,
}

pub open spec fn strings_view(s: Seq<String>) -> Seq<Seq<char>> {
    s.map_values(|k: String| k@)
}

impl View for LocalCollection {
    type V = CollectionView;

    open spec fn view(&self) -> CollectionView {
        CollectionView { name: self.name@, book_keys: strings_view(self.book_keys@) }
    }
}

/// Collections called `name`.
pub open spec fn name_is(name: Seq<char>) -> spec_fn(CollectionView) -> bool {
    |c: CollectionView| c.name == name
}

/// Collections not called `name`.
pub open spec fn name_is_not(name: Seq<char>) -> spec_fn(CollectionView) -> bool {
    |c: CollectionView| c.name != name
}

/// Keys other than `key`.
pub open spec fn key_other_than(key: Seq<char>) -> spec_fn(Seq<char>) -> bool {
    |k: Seq<char>| k != key
}

/// The position of the collection called `name`: the first with that name.
pub open spec fn collection_index(cols: Seq<CollectionView>, name: Seq<char>) -> Option<int> {
    first_index(cols, name_is(name))
}

/// The keys after adding `key`: unchanged when already present, else
/// appended.
pub open spec fn spec_add_key(keys: Seq<Seq<char>>, key: Seq<char>) -> Seq<Seq<char>> {
    if keys.contains(key) {
        keys
    } else {
        keys.push(key)
    }
}

/// No two collections share a name.
pub open spec fn names_unique(cols: Seq<CollectionView>) -> bool {
    forall|i: int, j: int|
        0 <= i < cols.len() && 0 <= j < cols.len() && i != j ==> #[trigger] cols[i].name
            != #[trigger] cols[j].name
}

/// The position of the collection called `name` in `cols`.
fn position_of_collection(cols: &Vec<LocalCollection>, name: &String) -> (res: Option<usize>)
    ensures
        match res {
            Some(i) => collection_index(collections_view(cols@), name@) == Some(i as int) && i
                < cols@.len(),
            None => collection_index(collections_view(cols@), name@) is None,
        },
{
    let ghost cv = collections_view(cols@);
    let mut i: usize = 0;
    while i < cols.len()
        invariant
            i <= cols@.len(),
            cv == collections_view(cols@),
            forall|k: int| 0 <= k < i ==> !name_is(name@)(#[trigger] cv[k]),
        decreases cols@.len() - i,
    {
        if cols[i].name == *name {
            proof {
                lemma_first_index_unique(cv, name_is(name@), i as int);
            }
            return Some(i);
        }
        i = i + 1;
    }
    proof {
        lemma_first_index_none(cv, name_is(name@));
    }
    None
}

/// Whether `keys` holds `key`.
fn holds_key(keys: &Vec<String>, key: &String) -> (res: bool)
    ensures
        res == strings_view(keys@).contains(key@),
{
    let ghost kv = strings_view(keys@);
    let mut i: usize = 0;
    while i < keys.len()
        invariant
            i <= keys@.len(),
            kv == strings_view(keys@),
            forall|k: int| 0 <= k < i ==> kv[k] != key@,
        decreases keys@.len() - i,
    {
        if keys[i] == *key {
            assert(kv[i as int] == key@);
            return true;
        }
        i = i + 1;
    }
    false
}

/// Remove every key equal to `key`, keeping the order of the others.
fn retain_other_keys(keys: &mut Vec<String>, key: &String)
    ensures
        strings_view(final(keys)@) == strings_view(old(keys)@).filter(key_other_than(key@)),
{
    broadcast use vstd::seq_lib::group_seq_properties;

    let ghost orig = strings_view(old(keys)@);
    let ghost p = key_other_than(key@);
    let mut i: usize = 0;
    let ghost mut j: int = 0;
    while i < keys.len()
        invariant
            0 <= j <= orig.len(),
            orig == strings_view(old(keys)@),
            p == key_other_than(key@),
            strings_view(keys@) == orig.take(j).filter(p) + orig.skip(j),
            i == orig.take(j).filter(p).len(),
            keys@.len() - i == orig.len() - j,
        decreases keys@.len() - i,
    {
        proof {
            lemma_take_next(orig, j);
            orig.take(j).lemma_filter_push(orig[j], p);
            assert(strings_view(keys@)[i as int] == orig[j]);
        }
        if keys[i] == *key {
            let ghost before = keys@;
            keys.remove(i);
            proof {
                assert(strings_view(keys@) =~= strings_view(before).remove(i as int));
                assert(strings_view(keys@) =~= orig.take(j + 1).filter(p) + orig.skip(j + 1));
            }
        } else {
            proof {
                assert(strings_view(keys@) =~= orig.take(j + 1).filter(p) + orig.skip(j + 1));
            }
            i = i + 1;
        }
        proof {
            j = j + 1;
        }
    }
    proof {
        assert(orig.take(j) =~= orig);
        assert(orig.skip(j) =~= Seq::<Seq<char>>::empty());
        assert(strings_view(keys@) =~= orig.filter(p));
    }
}

/// Remove every collection called `name`, keeping the order of the others.
fn retain_other_collections(cols: &mut Vec<LocalCollection>, name: &String)
    ensures
        collections_view(final(cols)@) == collections_view(old(cols)@).filter(name_is_not(name@)),
{
    broadcast use vstd::seq_lib::group_seq_properties;

    let ghost orig = collections_view(old(cols)@);
    let ghost p = name_is_not(name@);
    let mut i: usize = 0;
    let ghost mut j: int = 0;
    while i < cols.len()
        invariant
            0 <= j <= orig.len(),
            orig == collections_view(old(cols)@),
            p == name_is_not(name@),
            collections_view(cols@) == orig.take(j).filter(p) + orig.skip(j),
            i == orig.take(j).filter(p).len(),
            cols@.len() - i == orig.len() - j,
        decreases cols@.len() - i,
    {
        proof {
            lemma_take_next(orig, j);
            orig.take(j).lemma_filter_push(orig[j], p);
            assert(collections_view(cols@)[i as int] == orig[j]);
        }
        if cols[i].name == *name {
            let ghost before = cols@;
            cols.remove(i);
            proof {
                assert(collections_view(cols@) =~= collections_view(before).remove(i as int));
                assert(collections_view(cols@) =~= orig.take(j + 1).filter(p) + orig.skip(j + 1));
            }
        } else {
            proof {
                assert(collections_view(cols@) =~= orig.take(j + 1).filter(p) + orig.skip(j + 1));
            }
            i = i + 1;
        }
        proof {
            j = j + 1;
        }
    }
    proof {
        assert(orig.take(j) =~= orig);
        assert(orig.skip(j) =~= Seq::<CollectionView>::empty());
        assert(collections_view(cols@) =~= orig.filter(p));
    }
}

impl LocalLibrary {
    /// Look up a named collection.
    pub fn collection(&self, name: &str) -> (res: Option<&LocalCollection>)
        ensures
            match collection_index(self@.collections, name@) {
                Some(i) => res == Some(&self.collections@[i]),
                None => res is None,
            },
    {
        let n = name.to_owned();
        match position_of_collection(&self.collections, &n) {
            Some(i) => Some(&self.collections[i]),
            None => None,
        }
    }

    /// Create a new empty collection named `name` with surrounding whitespace
    /// removed; errors when that name is blank or already taken.
    pub fn create_collection(&mut self, name: &str) -> (res: Result<(), LibraryError>)
        ensures
            final(self).version == old(self).version,
            final(self).records == old(self).records,
            trim(name@).len() == 0 ==> res matches Err(LibraryError::EmptyCollectionName),
            trim(name@).len() != 0 && collection_index(old(self)@.collections, trim(name@))
                is Some ==> (res matches Err(LibraryError::CollectionExists(n)) && n@ == trim(
                name@,
            )),
            res is Ok <==> trim(name@).len() != 0 && collection_index(
                old(self)@.collections,
                trim(name@),
            ) is None,
            res is Ok ==> final(self)@.collections == old(self)@.collections.push(
                CollectionView { name: trim(name@), book_keys: Seq::empty() },
            ),
            res is Err ==> final(self)@.collections == old(self)@.collections,
    {
        let trimmed = trim_str(name);
        if trimmed.as_str().is_empty() {
            return Err(LibraryError::EmptyCollectionName);
        }
        if position_of_collection(&self.collections, &trimmed).is_some() {
            return Err(LibraryError::CollectionExists(trimmed));
        }
        let collection = LocalCollection { name: trimmed, book_keys: Vec::new() };
        let ghost before = self.collections@;
        self.collections.push(collection);
        proof {
            assert(collection@.book_keys =~= Seq::<Seq<char>>::empty());
            assert(collections_view(self.collections@) =~= collections_view(before).push(
                collection@,
            ));
        }
        Ok(())
    }

    /// Rename a collection to `new` with surrounding whitespace removed;
    /// errors when that name is blank, belongs to another collection, or no
    /// collection is called `current`.
    pub fn rename_collection(&mut self, current: &str, new: &str) -> (res: Result<(), LibraryError>)
        ensures
            final(self).version == old(self).version,
            final(self).records == old(self).records,
            trim(new@).len() == 0 ==> res matches Err(LibraryError::EmptyCollectionName),
            trim(new@).len() != 0 && collection_index(old(self)@.collections, trim(new@)) is Some
                && trim(new@) != current@ ==> (res matches Err(LibraryError::CollectionExists(n)) && n@
                == trim(new@)),
            trim(new@).len() != 0 && (collection_index(old(self)@.collections, trim(new@)) is None
                || trim(new@) == current@) ==> match collection_index(old(self)@.collections, current@) {
                Some(i) => res is Ok && final(self)@.collections == old(self)@.collections.update(
                    i,
                    CollectionView { name: trim(new@), ..old(self)@.collections[i] },
                ),
                None => res matches Err(LibraryError::CollectionNotFound(n)) && n@ == current@,
            },
            res is Err ==> final(self)@.collections == old(self)@.collections,
    {
        let new_name = trim_str(new);
        if new_name.as_str().is_empty() {
            return Err(LibraryError::EmptyCollectionName);
        }
        let old_name = current.to_owned();
        if position_of_collection(&self.collections, &new_name).is_some() && new_name != old_name {
            return Err(LibraryError::CollectionExists(new_name));
        }
        match position_of_collection(&self.collections, &old_name) {
            Some(i) => {
                let ghost before = self.collections@;
                let mut collection = self.collections.remove(i);
                collection.name = new_name;
                self.collections.insert(i, collection);
                proof {
                    assert(self.collections@ == before.update(i as int, collection));
                    assert(collections_view(self.collections@) =~= collections_view(before).update(
                        i as int,
                        collection@,
                    ));
                }
                Ok(())
            },
            None => Err(LibraryError::CollectionNotFound(old_name)),
        }
    }

    /// Delete a collection (its books are not removed from the library).
    pub fn delete_collection(&mut self, name: &str)
        ensures
            final(self).version == old(self).version,
            final(self).records == old(self).records,
            final(self)@.collections == old(self)@.collections.filter(name_is_not(name@)),
    {
        let n = name.to_owned();
        retain_other_collections(&mut self.collections, &n);
    }

    /// Add a book key to a collection (no-op when already present).
    pub fn add_book_to_collection(&mut self, name: &str, key: &str) -> (res: Result<(), LibraryError>)
        ensures
            final(self).version == old(self).version,
            final(self).records == old(self).records,
            match collection_index(old(self)@.collections, name@) {
                Some(i) => res is Ok && final(self)@.collections == old(self)@.collections.update(
                    i,
                    CollectionView {
                        book_keys: spec_add_key(old(self)@.collections[i].book_keys, key@),
                        ..old(self)@.collections[i]
                    },
                ),
                None => res matches Err(LibraryError::CollectionNotFound(n)) && n@ == name@
                    && final(self)@.collections == old(self)@.collections,
            },
    {
        let n = name.to_owned();
        match position_of_collection(&self.collections, &n) {
            Some(i) => {
                let k = key.to_owned();
                let ghost before = self.collections@;
                let mut collection = self.collections.remove(i);
                let ghost keys_before = collection.book_keys@;
                if !holds_key(&collection.book_keys, &k) {
                    collection.book_keys.push(k);
                    proof {
                        assert(strings_view(collection.book_keys@) =~= strings_view(keys_before).push(
                            key@,
                        ));
                    }
                }
                self.collections.insert(i, collection);
                proof {
                    assert(self.collections@ == before.update(i as int, collection));
                    assert(collections_view(self.collections@) =~= collections_view(before).update(
                        i as int,
                        collection@,
                    ));
                }
                Ok(())
            },
            None => Err(LibraryError::CollectionNotFound(n)),
        }
    }

    /// Remove a book key from a collection (no-op when absent).
    pub fn remove_book_from_collection(&mut self, name: &str, key: &str) -> (res: Result<
        (),
        LibraryError,
    >)
        ensures
            final(self).version == old(self).version,
            final(self).records == old(self).records,
            match collection_index(old(self)@.collections, name@) {
                Some(i) => res is Ok && final(self)@.collections == old(self)@.collections.update(
                    i,
                    CollectionView {
                        book_keys: old(self)@.collections[i].book_keys.filter(key_other_than(key@)),
                        ..old(self)@.collections[i]
                    },
                ),
                None => res matches Err(LibraryError::CollectionNotFound(n)) && n@ == name@
                    && final(self)@.collections == old(self)@.collections,
            },
    {
        let n = name.to_owned();
        match position_of_collection(&self.collections, &n) {
            Some(i) => {
                let k = key.to_owned();
                let ghost before = self.collections@;
                let mut collection = self.collections.remove(i);
                retain_other_keys(&mut collection.book_keys, &k);
                self.collections.insert(i, collection);
                proof {
                    assert(self.collections@ == before.update(i as int, collection));
                    assert(collections_view(self.collections@) =~= collections_view(before).update(
                        i as int,
                        collection@,
                    ));
                }
                Ok(())
            },
            None => Err(LibraryError::CollectionNotFound(n)),
        }
    }
}

} // verus!
