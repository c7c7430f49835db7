//! Mock library data for the shell before a device is wired in (invented
//! titles, deterministic identifiers and statuses).

use vstd::prelude::*;

use crate::gui::model::{BookEntry, EntryView, entries_view};
use crate::inventory::{Book, BookFormat, BookView};
use crate::library::BookStatus;
use crate::text::{pad_chars, pad_left, radix_chars, radix_digits, string_of};

verus! {

broadcast use vstd::string::group_string_axioms;

/// Invented placeholder titles for the mock library (not real user books).
#[verifier::opaque]
pub open spec fn mock_titles() -> Seq<Seq<char>> {
    seq![
        "The Amber Compass"@,
        "Salt and Starlight"@,
        "The Cartographer's Daughter"@,
        "Beneath the Iron Sky"@,
        "The Last Lighthouse"@,
        "A Winter in Venice"@,
        "The Glass Orchard"@,
        "Embers of the North"@,
        "The Midnight Taxidermist"@,
        "Rivers of Amber"@,
        "The Clockmaker's Apprentice"@,
        "Paper Lanterns"@,
        "The Silent Meridian"@,
        "A Song for the Tide"@,
        "The Gilded Serpent"@,
        "Maps of Forgotten Places"@,
        "The Heretic's Almanac"@,
        "Cinder and Bone"@,
        "The Observatory at Night"@,
        "Woven"@,
        "The Bellwether"@,
        "A Field Guide to Ghosts"@,
        "The Copper Dagger"@,
        "Notes from the Undertow"@,
        "The Pale Frontier"@,
        "Saltwater Saints"@,
        "The Inventory of Shadows"@,
        "Kingdoms of Ash"@,
        "The Navigator's Vow"@,
        "A House of Many Doors"@,
        "The Winter Orchard"@,
        "Gravity's Garden"@,
        "The Antique Dealer"@,
        "Lanterns in the Fog"@,
        "The River Between Worlds"@,
        "A Calendar of Small Joys"@,
        "The Stone Scribe"@,
        "Harbor Lights"@,
        "The Exile's Atlas"@,
        "Moonwater"@,
        "The Printer's Devil"@,
        "Between Two Rivers"@,
        "Silver and Salt"@,
        "The Quiet Revolution"@,
        "A Map of the Heart"@,
        "The Night Ferry"@,
        "Orchards of the Sun"@,
        "The Bookseller's Daughter"@,
        "Ink and Ember"@,
        "The Far Lighthouse"@,
        "A Pocket History of Clouds"@,
        "The Weaver's War"@,
        "Glasshouse"@,
        "The Return of the Swallows"@,
        "Marrow"@,
        "The Lighthouse Keeper's Wife"@,
        "Storm Glass"@,
        "The Cartographer's Guild"@,
        "Ash and Amber"@,
        "The Lamplighter's Ledger"@,
    ]
}

fn mock_title_list() -> (res: Vec<&'static str>)
    ensures
        res@.map_values(|t: &str| t@) == mock_titles(),
{
    let titles: Vec<&'static str> = vec![
        "The Amber Compass",
        "Salt and Starlight",
        "The Cartographer's Daughter",
        "Beneath the Iron Sky",
        "The Last Lighthouse",
        "A Winter in Venice",
        "The Glass Orchard",
        "Embers of the North",
        "The Midnight Taxidermist",
        "Rivers of Amber",
        "The Clockmaker's Apprentice",
        "Paper Lanterns",
        "The Silent Meridian",
        "A Song for the Tide",
        "The Gilded Serpent",
        "Maps of Forgotten Places",
        "The Heretic's Almanac",
        "Cinder and Bone",
        "The Observatory at Night",
        "Woven",
        "The Bellwether",
        "A Field Guide to Ghosts",
        "The Copper Dagger",
        "Notes from the Undertow",
        "The Pale Frontier",
        "Saltwater Saints",
        "The Inventory of Shadows",
        "Kingdoms of Ash",
        "The Navigator's Vow",
        "A House of Many Doors",
        "The Winter Orchard",
        "Gravity's Garden",
        "The Antique Dealer",
        "Lanterns in the Fog",
        "The River Between Worlds",
        "A Calendar of Small Joys",
        "The Stone Scribe",
        "Harbor Lights",
        "The Exile's Atlas",
        "Moonwater",
        "The Printer's Devil",
        "Between Two Rivers",
        "Silver and Salt",
        "The Quiet Revolution",
        "A Map of the Heart",
        "The Night Ferry",
        "Orchards of the Sun",
        "The Bookseller's Daughter",
        "Ink and Ember",
        "The Far Lighthouse",
        "A Pocket History of Clouds",
        "The Weaver's War",
        "Glasshouse",
        "The Return of the Swallows",
        "Marrow",
        "The Lighthouse Keeper's Wife",
        "Storm Glass",
        "The Cartographer's Guild",
        "Ash and Amber",
        "The Lamplighter's Ledger",
    ];
    proof {
        reveal(mock_titles);
    }
    assert(titles@.map_values(|t: &str| t@) =~= mock_titles());
    titles
}

pub proof fn lemma_mock_titles_len()
    ensures
        mock_titles().len() == 60,
{
    reveal(mock_titles);
}

/// The multiplier that spreads mock identifiers over the id space.
pub open spec fn id_multiplier() -> u64 {
    0x9E37_79B9_7F4A_7C15
}

/// The mock identifier of entry `index`: `index` times the multiplier,
/// wrapped to 64 bits, as 32 uppercase hex digits.
pub open spec fn spec_book_asin(index: int) -> Seq<char> {
    pad_left(
        radix_digits(((index * id_multiplier()) % 0x1_0000_0000_0000_0000) as nat, 16, true),
        32,
        '0',
    )
}

/// Deterministic 32-char uppercase hex id, shaped like the device ids.
pub fn book_asin(index: usize) -> (res: String)
    ensures
        res@ == spec_book_asin(index as int),
{
    let value = (index as u64).wrapping_mul(0x9E37_79B9_7F4A_7C15u64);
    let digits = pad_chars(radix_chars(value, 16, true), 32, '0');
    string_of(digits.as_slice())
}

/// The mock status of entry `index`: every third local-only, otherwise
/// every fifth on-device, the rest on both.
pub open spec fn mock_status(index: int) -> BookStatus {
    if index % 3 == 0 {
        BookStatus::LocalOnly
    } else if index % 5 == 0 {
        BookStatus::OnDevice
    } else {
        BookStatus::Both
    }
}

/// The mock size of entry `index`.
pub open spec fn mock_size(index: int) -> int {
    1_500_000 + index * 97_000
}

/// The mock entry at `index`.
pub open spec fn mock_entry(index: int) -> EntryView {
    EntryView {
        title: mock_titles()[index],
        format: BookFormat::Kfx,
        size_bytes: mock_size(index) as u64,
        status: mock_status(index),
        device: Some(
            BookView {
                title: mock_titles()[index],
                asin: Some(spec_book_asin(index)),
                format: BookFormat::Kfx,
                size_bytes: mock_size(index) as u64,
                content_handle: 0,
                sidecar_handle: None,
                metadata_handles: Seq::empty(),
            },
        ),
        local: None,
    }
}

/// Build the 60-entry mock catalogue: one entry per mock title.
pub fn mock_catalogue() -> (res: Vec<BookEntry>)
    ensures
        res@.len() == 60,
        res@.len() == mock_titles().len(),
        forall|i: int| 0 <= i < res@.len() ==> #[trigger] entries_view(res@)[i] == mock_entry(i),
{
    let titles = mock_title_list();
    proof {
        lemma_mock_titles_len();
    }
    let ghost tv = titles@.map_values(|t: &str| t@);
    let mut entries: Vec<BookEntry> = Vec::new();
    let mut index: usize = 0;
    while index < titles.len()
        invariant
            tv == titles@.map_values(|t: &str| t@),
            tv == mock_titles(),
            tv.len() == 60,
            index <= titles@.len(),
            entries@.len() == index,
            forall|i: int| 0 <= i < index ==> #[trigger] entries_view(entries@)[i] == mock_entry(i),
        decreases titles@.len() - index,
    {
        let status = if index % 3 == 0 {
            BookStatus::LocalOnly
        } else if index % 5 == 0 {
            BookStatus::OnDevice
        } else {
            BookStatus::Both
        };
        assert(index < 60);
        let size_bytes: u64 = 1_500_000 + (index as u64) * 97_000;
        let title = titles[index];
        assert(tv[index as int] == title@);
        let entry = BookEntry {
            title: title.to_owned(),
            format: BookFormat::Kfx,
            size_bytes,
            status,
            device: Some(
                Book {
                    title: title.to_owned(),
                    asin: Some(book_asin(index)),
                    format: BookFormat::Kfx,
                    size_bytes,
                    content_handle: 0,
                    sidecar_handle: None,
                    metadata_handles: Vec::new(),
                },
            ),
            local: None,
        };
        assert(entry@ == mock_entry(index as int));
        let ghost before = entries@;
        entries.push(entry);
        assert(entries_view(entries@) =~= entries_view(before).push(entry@));
        index = index + 1;
    }
    entries
}

} // verus!
