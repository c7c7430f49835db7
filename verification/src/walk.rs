//! The walk that builds a device inventory, one folder listing at a time.
//!
//! Listing a folder is device I/O and belongs to the caller; which folder to
//! list next, and what the listings add up to, is decided here. Books are
//! read from the `documents/` root itself (where sideloaded books land),
//! from `documents/Downloads/Items01/`, and dictionaries from
//! `documents/dictionaries/`. The walk only ever lists; it never modifies
//! the device.

use vstd::prelude::*;

use crate::inventory::{
    Book, BookView, KindleInventory, MtpObjectSummary, ObjectView, books_in_folder, books_view,
    dictionaries_of, dictionary_books, find_folder, folder_in, objects_view, books_from_folder,
};

verus! {

broadcast use vstd::string::group_string_axioms;

/// Which listing the walk waits for.
#[derive(Debug, Clone, Copy, PartialEq, Eq, Structural)]
pub enum WalkStage {
    /// The children of `documents/Downloads/`.
    Downloads,
    /// The children of `documents/Downloads/Items01/`.
    Items01,
    /// The children of `documents/dictionaries/`.
    Dictionaries,
    /// Nothing: the inventory is complete.
    Done,
}

/// What the caller must do next.
#[derive(Debug)]
pub enum WalkAction {
    /// List the children of the folder with this handle and report them with
    /// `InventoryWalk::step` (`None` when the folder could not be listed).
    List(u64),
    /// The walk is over; this is the inventory.
    Finish(KindleInventory),
}

/// An inventory walk in progress.
#[derive(Debug)]
pub struct InventoryWalk {
    pub stage: WalkStage,
    pub storage_description: String,
    /// The listing of `documents/`.
    pub documents: Vec<MtpObjectSummary>,
    /// The books found so far.
    pub books: Vec<Book>,
}

/// The handle of the first folder called `name` in a listing.
pub open spec fn folder_handle(objects: Seq<ObjectView>, name: Seq<char>) -> Option<u64> {
    match folder_in(objects, name) {
        Some(i) => Some(objects[i].handle),
        None => None,
    }
}

/// The step after the content folder: on to the dictionaries when there is
/// such a folder, else done.
pub open spec fn dictionaries_next(documents: Seq<ObjectView>) -> (WalkStage, Option<u64>) {
    match folder_handle(documents, "dictionaries"@) {
        Some(h) => (WalkStage::Dictionaries, Some(h)),
        None => (WalkStage::Done, None),
    }
}

/// The first step: the Downloads folder when there is one, else the
/// dictionaries.
pub open spec fn first_step(documents: Seq<ObjectView>) -> (WalkStage, Option<u64>) {
    match folder_handle(documents, "Downloads"@) {
        Some(h) => (WalkStage::Downloads, Some(h)),
        None => dictionaries_next(documents),
    }
}

/// The step after a listing at `stage`, and the books it adds.
pub open spec fn next_step(
    stage: WalkStage,
    documents: Seq<ObjectView>,
    listing: Option<Seq<ObjectView>>,
) -> (WalkStage, Option<u64>, Seq<BookView>) {
    match stage {
        WalkStage::Downloads => match listing {
            Some(items) => match folder_handle(items, "Items01"@) {
                Some(h) => (WalkStage::Items01, Some(h), Seq::empty()),
                None => (dictionaries_next(documents).0, dictionaries_next(documents).1, Seq::empty()),
            },
            None => (dictionaries_next(documents).0, dictionaries_next(documents).1, Seq::empty()),
        },
        WalkStage::Items01 => {
            let found = match listing {
                Some(content) => books_in_folder(content),
                None => Seq::empty(),
            };
            (dictionaries_next(documents).0, dictionaries_next(documents).1, found)
        },
        WalkStage::Dictionaries => (
            WalkStage::Done,
            None,
            match listing {
                Some(content) => dictionaries_of(content),
                None => Seq::empty(),
            },
        ),
        WalkStage::Done => (WalkStage::Done, None, Seq::empty()),
    }
}

/// The books the walk gathers from `stage` on, when the folder to list next
/// is `next` and each folder `h` lists as `listing_of(h)`; at most `fuel`
/// more listings are made.
pub open spec fn walk_from(
    stage: WalkStage,
    next: Option<u64>,
    documents: Seq<ObjectView>,
    listing_of: spec_fn(u64) -> Option<Seq<ObjectView>>,
    fuel: nat,
) -> Seq<BookView>
    decreases fuel,
{
    if fuel == 0 {
        Seq::empty()
    } else {
        match next {
            None => Seq::empty(),
            Some(h) => {
                let planned = next_step(stage, documents, listing_of(h));
                planned.2 + walk_from(planned.0, planned.1, documents, listing_of, (fuel - 1) as nat)
            },
        }
    }
}

/// The books of a whole walk over `documents/`: the root's own books, then
/// each step's books, following `start` and then `step` for as long as an
/// action asks for a listing (the plan never asks for more than three).
pub open spec fn walk_books(
    documents: Seq<ObjectView>,
    listing_of: spec_fn(u64) -> Option<Seq<ObjectView>>,
) -> Seq<BookView> {
    books_in_folder(documents) + walk_from(
        first_step(documents).0,
        first_step(documents).1,
        documents,
        listing_of,
        3,
    )
}

/// The books of the content folder `documents/Downloads/Items01/`, when both
/// folders exist and list.
pub open spec fn items01_books(
    documents: Seq<ObjectView>,
    listing_of: spec_fn(u64) -> Option<Seq<ObjectView>>,
) -> Seq<BookView> {
    match folder_handle(documents, "Downloads"@) {
        Some(downloads) => match listing_of(downloads) {
            Some(items) => match folder_handle(items, "Items01"@) {
                Some(content) => match listing_of(content) {
                    Some(objects) => books_in_folder(objects),
                    None => Seq::empty(),
                },
                None => Seq::empty(),
            },
            None => Seq::empty(),
        },
        None => Seq::empty(),
    }
}

/// The dictionaries of `documents/dictionaries/`, when it exists and lists.
pub open spec fn dictionary_folder_books(
    documents: Seq<ObjectView>,
    listing_of: spec_fn(u64) -> Option<Seq<ObjectView>>,
) -> Seq<BookView> {
    match folder_handle(documents, "dictionaries"@) {
        Some(h) => match listing_of(h) {
            Some(objects) => dictionaries_of(objects),
            None => Seq::empty(),
        },
        None => Seq::empty(),
    }
}

/// A whole walk yields the books of the `documents/` root, then the books of
/// `Downloads/Items01/`, then the dictionaries of `dictionaries/`; a folder
/// that is missing or cannot be listed adds nothing.
pub proof fn law_whole_walk(
    documents: Seq<ObjectView>,
    listing_of: spec_fn(u64) -> Option<Seq<ObjectView>>,
)
    ensures
        walk_books(documents, listing_of) == books_in_folder(documents) + items01_books(
            documents,
            listing_of,
        ) + dictionary_folder_books(documents, listing_of),
{
    let d = documents;
    let tail = walk_from(first_step(d).0, first_step(d).1, d, listing_of, 3);
    let dicts = dictionary_folder_books(d, listing_of);
    let dn = dictionaries_next(d);
    assert(walk_from(dn.0, dn.1, d, listing_of, 1) =~= dicts) by {
        reveal_with_fuel(walk_from, 2);
    }
    assert(walk_from(dn.0, dn.1, d, listing_of, 2) =~= dicts) by {
        reveal_with_fuel(walk_from, 3);
    }
    match folder_handle(d, "Downloads"@) {
        Some(h1) => {
            assert(tail =~= items01_books(d, listing_of) + dicts) by {
                reveal_with_fuel(walk_from, 4);
                match listing_of(h1) {
                    Some(items) => match folder_handle(items, "Items01"@) {
                        Some(h2) => {
                            let found = match listing_of(h2) {
                                Some(c) => books_in_folder(c),
                                None => Seq::<BookView>::empty(),
                            };
                            assert(found + walk_from(dn.0, dn.1, d, listing_of, 1) =~= found + dicts);
                        },
                        None => {
                            assert(Seq::<BookView>::empty() + walk_from(dn.0, dn.1, d, listing_of, 2) =~= dicts);
                        },
                    },
                    None => {
                        assert(Seq::<BookView>::empty() + walk_from(dn.0, dn.1, d, listing_of, 2) =~= dicts);
                    },
                }
            }
        },
        None => {
            assert(tail =~= dicts) by {
                reveal_with_fuel(walk_from, 4);
            }
        },
    }
    assert(walk_books(d, listing_of) =~= books_in_folder(d) + items01_books(d, listing_of) + dicts);
}

/// Whether an action matches a planned step: list the planned folder, or
/// finish with the description and books when nothing is left to list.
pub open spec fn action_matches(
    action: WalkAction,
    planned: Option<u64>,
    description: Seq<char>,
    books: Seq<BookView>,
) -> bool {
    match planned {
        Some(h) => action == WalkAction::List(h),
        None => match action {
            WalkAction::Finish(inventory) => inventory.storage_description@ == description
                && books_view(inventory.books@) == books,
            WalkAction::List(_) => false,
        },
    }
}

fn handle_of(objects: &[MtpObjectSummary], name: &str) -> (res: Option<u64>)
    ensures
        res == folder_handle(objects_view(objects@), name@),
{
    match find_folder(objects, name) {
        Some(o) => Some(o.handle),
        None => None,
    }
}

fn plan_dictionaries(documents: &[MtpObjectSummary]) -> (res: (WalkStage, Option<u64>))
    ensures
        res == dictionaries_next(objects_view(documents@)),
{
    match handle_of(documents, "dictionaries") {
        Some(h) => (WalkStage::Dictionaries, Some(h)),
        None => (WalkStage::Done, None),
    }
}

fn append_books(books: &mut Vec<Book>, more: Vec<Book>)
    ensures
        books_view(final(books)@) == books_view(old(books)@) + books_view(more@),
{
    let mut more = more;
    let ghost orig = books_view(old(books)@);
    let ghost extra = books_view(more@);
    books.append(&mut more);
    assert(books_view(books@) =~= orig + extra);
}

impl InventoryWalk {
    /// Begin a walk from the listing of the `documents/` folder.
    pub fn start(storage_description: String, documents: Vec<MtpObjectSummary>) -> (res: (
        InventoryWalk,
        WalkAction,
    ))
        ensures
            res.0.stage == first_step(objects_view(documents@)).0,
            res.0.storage_description == storage_description,
            res.0.documents == documents,
            first_step(objects_view(documents@)).1 is Some ==> books_view(res.0.books@)
                == books_in_folder(objects_view(documents@)),
            action_matches(
                res.1,
                first_step(objects_view(documents@)).1,
                storage_description@,
                books_in_folder(objects_view(documents@)),
            ),
    {
        let (stage, next) = match handle_of(documents.as_slice(), "Downloads") {
            Some(h) => (WalkStage::Downloads, Some(h)),
            None => plan_dictionaries(documents.as_slice()),
        };
        let root_books = books_from_folder(documents.as_slice());
        let walk = InventoryWalk { stage, storage_description, documents, books: root_books };
        walk.act(next)
    }

    fn act(self, next: Option<u64>) -> (res: (InventoryWalk, WalkAction))
        ensures
            res.0.stage == self.stage,
            res.0.storage_description == self.storage_description,
            res.0.documents == self.documents,
            next is Some ==> books_view(res.0.books@) == books_view(self.books@),
            next is None ==> res.0.books@.len() == 0,
            action_matches(res.1, next, self.storage_description@, books_view(self.books@)),
    {
        match next {
            Some(h) => (self, WalkAction::List(h)),
            None => {
                let inventory = KindleInventory {
                    storage_description: self.storage_description.clone(),
                    books: self.books,
                };
                let walk = InventoryWalk {
                    stage: self.stage,
                    storage_description: self.storage_description,
                    documents: self.documents,
                    books: Vec::new(),
                };
                (walk, WalkAction::Finish(inventory))
            },
        }
    }

    /// Report the listing of the folder the last action asked for.
    pub fn step(self, listing: Option<Vec<MtpObjectSummary>>) -> (res: (InventoryWalk, WalkAction))
        requires
            self.stage != WalkStage::Done,
        ensures
            ({
                let planned = next_step(
                    self.stage,
                    objects_view(self.documents@),
                    match listing {
                        Some(l) => Some(objects_view(l@)),
                        None => None,
                    },
                );
                &&& res.0.stage == planned.0
                &&& res.0.storage_description == self.storage_description
                &&& res.0.documents == self.documents
                &&& action_matches(
                    res.1,
                    planned.1,
                    self.storage_description@,
                    books_view(self.books@) + planned.2,
                )
            }),
    {
        let mut walk = self;
        let ghost before = books_view(walk.books@);
        let (stage, next) = match walk.stage {
            WalkStage::Downloads => match &listing {
                Some(items) => match handle_of(items.as_slice(), "Items01") {
                    Some(h) => (WalkStage::Items01, Some(h)),
                    None => plan_dictionaries(walk.documents.as_slice()),
                },
                None => plan_dictionaries(walk.documents.as_slice()),
            },
            WalkStage::Items01 => {
                match &listing {
                    Some(content) => {
                        let found = books_from_folder(content.as_slice());
                        append_books(&mut walk.books, found);
                    },
                    None => {
                        assert(books_view(walk.books@) =~= before + Seq::<BookView>::empty());
                    },
                }
                plan_dictionaries(walk.documents.as_slice())
            },
            WalkStage::Dictionaries => {
                match &listing {
                    Some(content) => {
                        let found = dictionary_books(content.as_slice());
                        append_books(&mut walk.books, found);
                    },
                    None => {
                        assert(books_view(walk.books@) =~= before + Seq::<BookView>::empty());
                    },
                }
                (WalkStage::Done, None)
            },
            WalkStage::Done => (WalkStage::Done, None),
        };
        proof {
            if walk.stage == WalkStage::Downloads {
                assert(books_view(walk.books@) =~= before + Seq::<BookView>::empty());
            }
        }
        walk.stage = stage;
        walk.act(next)
    }
}

} // verus!
