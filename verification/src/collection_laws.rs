//! Laws of local collections.

use vstd::prelude::*;

use crate::collections::{
    CollectionView, collection_index, key_other_than, name_is, name_is_not, names_unique,
    spec_add_key,
};
use crate::search::{
    lemma_first_index, lemma_first_index_none, lemma_first_index_push_none,
    lemma_first_index_unique,
};

verus! {

/// A newly created collection is found under its name, empty.
pub proof fn law_created_collection_is_found(cols: Seq<CollectionView>, name: Seq<char>)
    requires
        collection_index(cols, name) is None,
    ensures
        ({
            let after = cols.push(CollectionView { name, book_keys: Seq::empty() });
            collection_index(after, name) == Some(cols.len() as int) && after[cols.len() as int].book_keys.len() == 0
        }),
{
    lemma_first_index_push_none(cols, CollectionView { name, book_keys: Seq::empty() }, name_is(name));
}

/// Creating a collection under a name no collection has keeps names unique.
pub proof fn law_create_keeps_names_unique(cols: Seq<CollectionView>, name: Seq<char>)
    requires
        names_unique(cols),
        collection_index(cols, name) is None,
    ensures
        names_unique(cols.push(CollectionView { name, book_keys: Seq::empty() })),
{
    lemma_first_index(cols, name_is(name));
    let after = cols.push(CollectionView { name, book_keys: Seq::empty() });
    assert forall|a: int, b: int|
        0 <= a < after.len() && 0 <= b < after.len() && a != b implies #[trigger] after[a].name
        != #[trigger] after[b].name by {
        if a < cols.len() {
            assert(after[a] == cols[a]);
            assert(!name_is(name)(cols[a]));
        }
        if b < cols.len() {
            assert(after[b] == cols[b]);
            assert(!name_is(name)(cols[b]));
        }
    }
}

/// Renaming collection `i` to a name no other collection has keeps names
/// unique, and the collection is then found under its new name.
pub proof fn law_rename_keeps_names_unique(cols: Seq<CollectionView>, i: int, new_name: Seq<char>)
    requires
        names_unique(cols),
        0 <= i < cols.len(),
        collection_index(cols, new_name) is None || cols[i].name == new_name,
    ensures
        ({
            let after = cols.update(i, CollectionView { name: new_name, ..cols[i] });
            names_unique(after) && collection_index(after, new_name) == Some(i)
        }),
{
    lemma_first_index(cols, name_is(new_name));
    let after = cols.update(i, CollectionView { name: new_name, ..cols[i] });
    assert forall|a: int, b: int|
        0 <= a < after.len() && 0 <= b < after.len() && a != b implies #[trigger] after[a].name
        != #[trigger] after[b].name by {
        if a != i {
            assert(after[a] == cols[a]);
        }
        if b != i {
            assert(after[b] == cols[b]);
        }
        if a == i {
            assert(!name_is(new_name)(cols[b]) || cols[i].name == new_name);
        }
        if b == i {
            assert(!name_is(new_name)(cols[a]) || cols[i].name == new_name);
        }
    }
    assert forall|k: int| 0 <= k < i implies !name_is(new_name)(#[trigger] after[k]) by {
        assert(after[k] == cols[k]);
    }
    lemma_first_index_unique(after, name_is(new_name), i);
}

/// After renaming the only collection called `old` to another name, no
/// collection is called `old`.
pub proof fn law_rename_forgets_old_name(cols: Seq<CollectionView>, i: int, old: Seq<char>, new_name: Seq<char>)
    requires
        names_unique(cols),
        0 <= i < cols.len(),
        cols[i].name == old,
        new_name != old,
    ensures
        collection_index(cols.update(i, CollectionView { name: new_name, ..cols[i] }), old) is None,
{
    let after = cols.update(i, CollectionView { name: new_name, ..cols[i] });
    assert forall|k: int| 0 <= k < after.len() implies !name_is(old)(#[trigger] after[k]) by {
        if k != i {
            assert(after[k] == cols[k]);
        }
    }
    lemma_first_index_none(after, name_is(old));
}

/// After deleting a name, no collection has it.
pub proof fn law_deleted_collection_is_gone(cols: Seq<CollectionView>, name: Seq<char>)
    ensures
        collection_index(cols.filter(name_is_not(name)), name) is None,
{
    broadcast use vstd::seq_lib::group_seq_properties;

    let kept = cols.filter(name_is_not(name));
    assert forall|k: int| 0 <= k < kept.len() implies !name_is(name)(#[trigger] kept[k]) by {
        cols.lemma_filter_pred(name_is_not(name), k);
    }
    lemma_first_index_none(kept, name_is(name));
}

/// Adding a key that is already there changes nothing: adding twice is
/// adding once.
pub proof fn law_add_key_twice_is_once(keys: Seq<Seq<char>>, key: Seq<char>)
    ensures
        spec_add_key(spec_add_key(keys, key), key) == spec_add_key(keys, key),
        spec_add_key(keys, key).contains(key),
{
    if !keys.contains(key) {
        assert(keys.push(key)[keys.len() as int] == key);
    }
}

/// Adding keys never duplicates one.
pub proof fn law_add_key_keeps_keys_distinct(keys: Seq<Seq<char>>, key: Seq<char>)
    requires
        keys.no_duplicates(),
    ensures
        spec_add_key(keys, key).no_duplicates(),
{
    if !keys.contains(key) {
        let after = keys.push(key);
        assert forall|a: int, b: int|
            0 <= a < after.len() && 0 <= b < after.len() && a != b implies after[a] != after[b] by {
            if a < keys.len() && b < keys.len() {
                assert(after[a] == keys[a] && after[b] == keys[b]);
            } else if a < keys.len() {
                assert(after[a] == keys[a]);
            } else {
                assert(after[b] == keys[b]);
            }
        }
    }
}

/// After removing a key from a collection, the collection does not hold it,
/// and holds every other key it held.
pub proof fn law_removed_key_is_gone(keys: Seq<Seq<char>>, key: Seq<char>)
    ensures
        !keys.filter(key_other_than(key)).contains(key),
        forall|k: Seq<char>| k != key && keys.contains(k) ==> keys.filter(key_other_than(key)).contains(k),
{
    broadcast use vstd::seq_lib::group_seq_properties;

    let kept = keys.filter(key_other_than(key));
    if kept.contains(key) {
        let k = choose|k: int| 0 <= k < kept.len() && kept[k] == key;
        keys.lemma_filter_pred(key_other_than(key), k);
    }
    assert forall|k: Seq<char>| k != key && keys.contains(k) implies kept.contains(k) by {
        let i = choose|i: int| 0 <= i < keys.len() && keys[i] == k;
        keys.lemma_filter_contains(key_other_than(key), i);
    }
}

} // verus!
