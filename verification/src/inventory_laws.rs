//! Laws of the filename convention and of grouping a listing into books.

use vstd::prelude::*;

use crate::inventory::{
    BookView, ObjectView, book_for, books_in_folder, books_of, dictionaries_of, dictionary_book,
    is_content, is_sidecar_of, metadata_in, sidecar_in, spec_extension, spec_format_of, spec_is_identifier,
    spec_parse_book_filename, spec_split_identity, spec_strip_extension,
};
use crate::manage::{format_extension, spec_content_filename, spec_content_stem, spec_sidecar_name};
use crate::text::{ascii_lower, ascii_lowercase, last_index_of, lemma_last_index_of, rsplit_once};

verus! {

/// Splitting at the last `c` and joining the parts with `c` gives back the
/// text.
pub proof fn law_rsplit_once_rejoins(s: Seq<char>, c: char)
    ensures
        match rsplit_once(s, c) {
            Some(parts) => parts.0 + seq![c] + parts.1 == s,
            None => !s.contains(c),
        },
{
    lemma_last_index_of(s, c);
    let i = last_index_of(s, c);
    if i >= 0 {
        assert(s.take(i) + seq![c] + s.skip(i + 1) =~= s);
    } else {
        assert forall|k: int| 0 <= k < s.len() implies s[k] != c by {}
    }
}

/// A stem splits into a title and an identifier exactly when it ends in
/// `_` and an identifier; joining them with `_` gives the stem back.
/// Otherwise the whole stem is the title.
pub proof fn law_split_identity_rejoins(stem: Seq<char>)
    ensures
        match spec_split_identity(stem).1 {
            Some(id) => spec_split_identity(stem).0 + seq!['_'] + id == stem && spec_is_identifier(id),
            None => spec_split_identity(stem).0 == stem,
        },
{
    law_rsplit_once_rejoins(stem, '_');
}

/// The filename without its extension, `.`, and the extension give back the
/// filename.
pub proof fn law_strip_extension_rejoins(name: Seq<char>)
    ensures
        match spec_extension(name) {
            Some(ext) => spec_strip_extension(name) + seq!['.'] + ext == name,
            None => spec_strip_extension(name) == name,
        },
{
    law_rsplit_once_rejoins(name, '.');
}

/// Lowercasing twice is lowercasing once.
pub proof fn law_ascii_lowercase_idempotent(s: Seq<char>)
    ensures
        ascii_lowercase(ascii_lowercase(s)) == ascii_lowercase(s),
{
    assert forall|k: int| 0 <= k < s.len() implies ascii_lower(ascii_lower(#[trigger] s[k])) == ascii_lower(
        s[k],
    ) by {}
    assert(ascii_lowercase(ascii_lowercase(s)) =~= ascii_lowercase(s));
}

/// Format recognition ignores ASCII case.
pub proof fn law_format_ignores_case(ext: Seq<char>)
    ensures
        spec_format_of(ascii_lowercase(ext)) == spec_format_of(ext),
{
    law_ascii_lowercase_idempotent(ext);
}

/// For a content file, the content stem rebuilt from its book is the
/// filename without its extension, and the rebuilt sidecar name is that stem
/// and `.sdr`, the name its sidecar folder is grouped by.
pub proof fn law_content_stem_round_trip(o: ObjectView, all: Seq<ObjectView>)
    requires
        is_content(o),
    ensures
        spec_content_stem(book_for(o, all)) == spec_strip_extension(o.filename),
        is_sidecar_of(
            ObjectView { filename: spec_sidecar_name(book_for(o, all)), is_folder: true, ..o },
            spec_strip_extension(o.filename),
        ),
{
    law_split_identity_rejoins(spec_strip_extension(o.filename));
}

/// For a content file whose extension is written in lowercase, the content
/// filename rebuilt from its book is exactly the listed filename: removing a
/// book targets the very file it was listed from.
pub proof fn law_content_filename_round_trip(o: ObjectView, all: Seq<ObjectView>)
    requires
        is_content(o),
        ascii_lowercase(spec_extension(o.filename).unwrap()) == spec_extension(o.filename).unwrap(),
    ensures
        spec_content_filename(book_for(o, all)) == o.filename,
{
    law_content_stem_round_trip(o, all);
    law_strip_extension_rejoins(o.filename);
}

/// Grouping yields exactly one book per content file, in listing order.
pub proof fn law_one_book_per_content_file(prefix: Seq<ObjectView>, all: Seq<ObjectView>)
    ensures
        books_of(prefix, all).len() == prefix.filter(|o: ObjectView| is_content(o)).len(),
        books_of(prefix, all) == prefix.filter(|o: ObjectView| is_content(o)).map_values(
            |o: ObjectView| book_for(o, all),
        ),
    decreases prefix.len(),
{
    broadcast use vstd::seq_lib::group_seq_properties;

    let p = |o: ObjectView| is_content(o);
    if prefix.len() == 0 {
        assert(prefix.filter(p) =~= Seq::<ObjectView>::empty());
    } else {
        let rest = prefix.drop_last();
        law_one_book_per_content_file(rest, all);
        assert(rest.push(prefix.last()) =~= prefix);
        rest.lemma_filter_push(prefix.last(), p);
        assert(books_of(prefix, all) =~= prefix.filter(p).map_values(|o: ObjectView| book_for(o, all)));
    }
}

/// A book's sidecar, when it has one, is a folder of the listing named after
/// the book's stem.
pub proof fn law_sidecar_is_listed(objects: Seq<ObjectView>, stem: Seq<char>)
    ensures
        match sidecar_in(objects, stem) {
            Some(h) => exists|i: int|
                0 <= i < objects.len() && is_sidecar_of(#[trigger] objects[i], stem) && objects[i].handle
                    == h,
            None => forall|i: int| 0 <= i < objects.len() ==> !is_sidecar_of(#[trigger] objects[i], stem),
        },
    decreases objects.len(),
{
    if objects.len() > 0 {
        let rest = objects.drop_last();
        law_sidecar_is_listed(rest, stem);
        match sidecar_in(rest, stem) {
            Some(h) => {
                let i = choose|i: int|
                    0 <= i < rest.len() && is_sidecar_of(#[trigger] rest[i], stem) && rest[i].handle == h;
                assert(objects[i] == rest[i]);
            },
            None => {
                assert forall|i: int| 0 <= i < rest.len() implies !is_sidecar_of(#[trigger] objects[i], stem) by {
                    assert(objects[i] == rest[i]);
                }
            },
        }
    }
}

/// The books of a folder listing: one per content file of the listing, in
/// listing order; the `j`-th carries the `j`-th content file's handle and
/// size, the title and identifier split from its stem, its format, the
/// first `.sdr` folder named after its stem, and its metadata objects.
pub proof fn law_folder_books_per_content_file(objects: Seq<ObjectView>)
    ensures
        books_in_folder(objects).len() == objects.filter(|o: ObjectView| is_content(o)).len(),
        forall|j: int|
            0 <= j < books_in_folder(objects).len() ==> {
                let c = objects.filter(|o: ObjectView| is_content(o))[j];
                let stem = spec_strip_extension(c.filename);
                let b = #[trigger] books_in_folder(objects)[j];
                &&& b == book_for(c, objects)
                &&& b.content_handle == c.handle
                &&& b.size_bytes == c.size_bytes
                &&& (b.title, b.asin) == spec_split_identity(stem)
                &&& b.format == spec_format_of(spec_extension(c.filename).unwrap()).unwrap()
                &&& b.sidecar_handle == sidecar_in(objects, stem)
                &&& b.metadata_handles == metadata_in(objects, stem, b.asin)
            },
{
    law_one_book_per_content_file(objects, objects);
}

/// With `t` free of `c`, the last `c` of `s + [c] + t` is the one between
/// them.
proof fn lemma_last_index_of_join(s: Seq<char>, c: char, t: Seq<char>)
    requires
        !t.contains(c),
    ensures
        last_index_of(s + seq![c] + t, c) == s.len(),
        rsplit_once(s + seq![c] + t, c) == Some((s, t)),
    decreases t.len(),
{
    let whole = s + seq![c] + t;
    if t.len() == 0 {
        assert(whole =~= s.push(c));
        assert(whole.last() == c);
    } else {
        assert(whole.last() == t.last());
        assert(whole.drop_last() =~= s + seq![c] + t.drop_last());
        assert(!t.drop_last().contains(c)) by {
            if t.drop_last().contains(c) {
                let k = choose|k: int| 0 <= k < t.drop_last().len() && t.drop_last()[k] == c;
                assert(t[k] == c);
            }
        }
        lemma_last_index_of_join(s, c, t.drop_last());
    }
    assert(whole.take(s.len() as int) =~= s);
    assert(whole.skip(s.len() as int + 1) =~= t);
}

/// Parsing the content filename rebuilt from a book gives back the book's
/// title, identifier and format, provided the identifier looks like one and
/// a book without one has a title that does not itself end in `_` and an
/// identifier.
pub proof fn law_parse_content_filename(b: BookView)
    requires
        b.asin matches Some(a) ==> spec_is_identifier(a),
        b.asin is None ==> spec_split_identity(b.title).1 is None,
    ensures
        spec_parse_book_filename(spec_content_filename(b)) == Some((b.title, b.asin, b.format)),
{
    let ext = format_extension(b.format);
    let stem = spec_content_stem(b);
    assert(!ext.contains('.')) by {
        if ext.contains('.') {
            let k = choose|k: int| 0 <= k < ext.len() && ext[k] == '.';
        }
    }
    lemma_last_index_of_join(stem, '.', ext);
    assert(spec_content_filename(b) == stem + seq!['.'] + ext);
    assert(ascii_lowercase(ext) =~= ext);
    match b.asin {
        Some(a) => {
            assert(!a.contains('_')) by {
                if a.contains('_') {
                    let k = choose|k: int| 0 <= k < a.len() && a[k] == '_';
                    assert(crate::inventory::is_ascii_upper(a[k]) || crate::inventory::is_ascii_digit(a[k]));
                }
            }
            lemma_last_index_of_join(b.title, '_', a);
        },
        None => {},
    }
}

/// A token is a device identifier exactly when it has at least ten
/// characters, each an ASCII uppercase letter `A`..=`Z` or an ASCII digit
/// `0`..=`9`.
pub proof fn law_identifier_chars(t: Seq<char>)
    ensures
        spec_is_identifier(t) <==> (t.len() >= 10 && forall|i: int|
            0 <= i < t.len() ==> ('A' <= #[trigger] t[i] && t[i] <= 'Z') || ('0' <= t[i] && t[i]
                <= '9')),
{
}

/// A title, `_`, and an identifier split back into that title and that
/// identifier, whatever the title holds.
pub proof fn law_split_title_and_identifier(title: Seq<char>, id: Seq<char>)
    requires
        id.len() >= 10,
        forall|i: int|
            0 <= i < id.len() ==> ('A' <= #[trigger] id[i] && id[i] <= 'Z') || ('0' <= id[i] && id[i]
                <= '9'),
    ensures
        spec_split_identity(title + seq!['_'] + id) == (title, Some(id)),
{
    law_identifier_chars(id);
    assert(!id.contains('_')) by {
        if id.contains('_') {
            let k = choose|k: int| 0 <= k < id.len() && id[k] == '_';
            assert(('A' <= id[k] && id[k] <= 'Z') || ('0' <= id[k] && id[k] <= '9'));
        }
    }
    lemma_last_index_of_join(title, '_', id);
}

/// The dictionaries of a listing: one per file of a recognised format, in
/// listing order; the `k`-th carries the `k`-th such file's handle and size,
/// its name without the extension as title, no identifier, its format, and
/// no sidecar or metadata.
pub proof fn law_dictionary_per_file(objects: Seq<ObjectView>)
    ensures
        dictionaries_of(objects).len() == objects.filter(|o: ObjectView| is_content(o)).len(),
        forall|k: int|
            0 <= k < dictionaries_of(objects).len() ==> {
                let f = objects.filter(|o: ObjectView| is_content(o))[k];
                let d = #[trigger] dictionaries_of(objects)[k];
                &&& !f.is_folder
                &&& d.content_handle == f.handle
                &&& d.size_bytes == f.size_bytes
                &&& d.title == spec_strip_extension(f.filename)
                &&& d.asin is None
                &&& d.format == spec_format_of(spec_extension(f.filename).unwrap()).unwrap()
                &&& d.sidecar_handle is None
                &&& d.metadata_handles.len() == 0
            },
{
    lemma_dictionaries_filter(objects);
    let p = |o: ObjectView| is_content(o);
    objects.filter_lemma(p);
}

proof fn lemma_dictionaries_filter(objects: Seq<ObjectView>)
    ensures
        dictionaries_of(objects) == objects.filter(|o: ObjectView| is_content(o)).map_values(
            |o: ObjectView| dictionary_book(o),
        ),
    decreases objects.len(),
{
    broadcast use vstd::seq_lib::group_seq_properties;

    let p = |o: ObjectView| is_content(o);
    if objects.len() == 0 {
        assert(objects.filter(p) =~= Seq::<ObjectView>::empty());
    } else {
        let rest = objects.drop_last();
        lemma_dictionaries_filter(rest);
        assert(rest.push(objects.last()) =~= objects);
        rest.lemma_filter_push(objects.last(), p);
        assert(dictionaries_of(objects) =~= objects.filter(p).map_values(
            |o: ObjectView| dictionary_book(o),
        ));
    }
}

} // verus!
