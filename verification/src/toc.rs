//! The table-of-contents plan: one header row per album and one song row
//! per track, with the two-column percentage layout that balances title
//! and artist widths. Rendering the rows into a document is left to the
//! surrounding binary.

use vstd::prelude::*;

use crate::catalog::Track;

verus! {

/// One row of the table of contents.
#[derive(Debug, PartialEq, Clone)]
pub enum TocRow {
    /// an album header: name and artist
    AlbumHeader { album: String, artist: String },
    /// one song: its one-based catalog position, title, artist, and
    /// whether it opens its album
    SongRow { pos: u32, title: String, artist: String, first: bool },
}

/// The two column percentages balancing text widths: proportional to the
/// first text's share, each held to its minimum. With no text at all the
/// first column collapses before the minimums apply.
pub open spec fn optimal_layout(
    text1len: usize,
    text2len: usize,
    text1min: usize,
    text2min: usize,
) -> (int, int) {
    let left0: int = if text1len + text2len == 0 {
        0
    } else {
        text1len * 100 / (text1len + text2len) as int
    };
    let right0: int = 100 - left0;
    let (left1, right1): (int, int) = if right0 < text2min {
        (100 - text2min, text2min as int)
    } else {
        (left0, right0)
    };
    if left1 < text1min {
        (text1min as int, 100 - text1min)
    } else {
        (left1, right1)
    }
}

/// The column percentages for a two-column row.
pub fn calculate_optimal_layout(
    text1len: usize,
    text2len: usize,
    text1min: usize,
    text2min: usize,
) -> (r: (usize, usize))
    requires
        text1min <= 100,
        text2min <= 100,
        text1len + text2len <= 0x1000_0000,
    ensures
        r.0 as int == optimal_layout(text1len, text2len, text1min, text2min).0,
        r.1 as int == optimal_layout(text1len, text2len, text1min, text2min).1,
        text1min + text2min <= 100 ==> r.0 + r.1 == 100,
{
    let total = text1len + text2len;
    let mut left: usize = if total == 0 {
        0
    } else {
        proof {
            let t1: int = text1len as int;
            let tt: int = total as int;
            assert(t1 * 100 <= tt * 100) by (nonlinear_arith)
                requires
                    0 <= t1 <= tt,
            ;
            assert(tt * 100 / tt == 100) by {
                vstd::arithmetic::div_mod::lemma_fundamental_div_mod_converse(tt * 100, tt, 100, 0);
            }
            vstd::arithmetic::div_mod::lemma_div_is_ordered(t1 * 100, tt * 100, tt);
        }
        ((text1len as u64) * 100 / (total as u64)) as usize
    };
    let mut right: usize = 100 - left;
    if right < text2min {
        right = text2min;
        left = 100 - text2min;
    }
    if left < text1min {
        left = text1min;
        right = 100 - text1min;
    }
    (left, right)
}

/// Whether row `i` of the plan opens a new album.
pub open spec fn opens_album(cat: Seq<crate::catalog::TrackView>, i: int) -> bool {
    i == 0 || cat[i].album != cat[i - 1].album
}

/// The table-of-contents plan for a catalog: before each album's first
/// track its header, then each track as a song row carrying its one-based
/// position, the album's first song marked.
pub fn toc_rows(catalog: &Vec<Track>) -> (rows: Vec<TocRow>)
    requires
        catalog@.len() < 0x8000_0000,
    ensures
        ({
            let cat = crate::catalog::views(catalog@);
            &&& rows@.len() <= 2 * cat.len()
            &&& forall|i: int, j: int|
                #![trigger row_index(cat, i), rows@[j]]
                0 <= i < cat.len() && j == row_index(cat, i) ==> (rows@[j] matches TocRow::SongRow {
                    pos,
                    title,
                    artist,
                    first,
                } && pos == i + 1 && title@ == cat[i].title && artist@ == cat[i].artist && first
                    == opens_album(cat, i))
            &&& forall|i: int, j: int|
                #![trigger row_index(cat, i), rows@[j]]
                0 <= i < cat.len() && opens_album(cat, i) && j == row_index(cat, i) - 1 ==> (
                rows@[j] matches TocRow::AlbumHeader { album, artist } && album@ == cat[i].album
                    && artist@ == cat[i].artist)
        }),
{
    let ghost cat = crate::catalog::views(catalog@);
    let mut rows: Vec<TocRow> = Vec::new();
    let mut i: usize = 0;
    while i < catalog.len()
        invariant
            0 <= i <= catalog@.len(),
            catalog@.len() < 0x8000_0000,
            cat == crate::catalog::views(catalog@),
            rows@.len() == i + count_headers(cat, i as int),
            forall|i2: int, j: int|
                #![trigger row_index(cat, i2), rows@[j]]
                0 <= i2 < i && j == row_index(cat, i2) ==> (rows@[j] matches TocRow::SongRow {
                    pos,
                    title,
                    artist,
                    first,
                } && pos == i2 + 1 && title@ == cat[i2].title && artist@ == cat[i2].artist && first
                    == opens_album(cat, i2)),
            forall|i2: int, j: int|
                #![trigger row_index(cat, i2), rows@[j]]
                0 <= i2 < i && opens_album(cat, i2) && j == row_index(cat, i2) - 1 ==> (
                rows@[j] matches TocRow::AlbumHeader { album, artist } && album@ == cat[i2].album
                    && artist@ == cat[i2].artist),
        decreases catalog@.len() - i,
    {
        proof {
            lemma_count_headers_step(cat, i as int);
            lemma_count_headers_le(cat, i as int);
        }
        let ghost old_rows = rows@;
        let ghost old_len = rows@.len() as int;
        let first = if i == 0 {
            true
        } else {
            !catalog[i].album.eq(&catalog[i - 1].album)
        };
        proof {
            assert(first == opens_album(cat, i as int));
        }
        if first {
            rows.push(
                TocRow::AlbumHeader {
                    album: catalog[i].album.clone(),
                    artist: catalog[i].artist.clone(),
                },
            );
        }
        rows.push(
            TocRow::SongRow {
                pos: (i + 1) as u32,
                title: catalog[i].title.clone(),
                artist: catalog[i].artist.clone(),
                first,
            },
        );
        proof {
            assert(forall|j: int| 0 <= j < old_len ==> #[trigger] rows@[j] == old_rows[j]);
            assert(row_index(cat, i as int) == old_len + (if opens_album(cat, i as int) {
                1int
            } else {
                0int
            }) + 0);
            if opens_album(cat, i as int) {
                assert(rows@[row_index(cat, i as int) - 1] matches TocRow::AlbumHeader {
                    album,
                    artist,
                } && album@ == cat[i as int].album && artist@ == cat[i as int].artist);
            }
            assert(rows@[row_index(cat, i as int)] matches TocRow::SongRow {
                pos,
                title,
                artist,
                first: f2,
            } && pos == i + 1 && title@ == cat[i as int].title && artist@ == cat[i as int].artist
                && f2 == opens_album(cat, i as int));
            assert forall|i2: int| 0 <= i2 < i implies row_index(cat, i2) < old_len
                && row_index(cat, i2) >= 0 by {
                lemma_count_headers_mono(cat, i2 + 1, i as int);
                lemma_count_headers_le(cat, i2 + 1);
            }
            assert forall|i2: int, j: int|
                #![trigger row_index(cat, i2), rows@[j]]
                0 <= i2 < i + 1 && opens_album(cat, i2) && j == row_index(cat, i2) - 1 implies (
            rows@[j] matches TocRow::AlbumHeader { album, artist } && album@ == cat[i2].album
                && artist@ == cat[i2].artist) by {
                if i2 < i {
                    lemma_count_headers_mono(cat, i2 + 1, i as int);
                    lemma_count_headers_le(cat, i2 + 1);
                    lemma_count_headers_step(cat, i2);
                    lemma_count_headers_le(cat, i2);
                    assert(count_headers(cat, i2 + 1) >= 1);
                    assert(0 <= j < old_len);
                    assert(rows@[j] == old_rows[j]);
                }
            }
        }
        i = i + 1;
    }
    proof {
        lemma_count_headers_le(cat, catalog@.len() as int);
    }
    rows
}

/// How many album headers stand before track `i`'s rows.
pub open spec fn count_headers(cat: Seq<crate::catalog::TrackView>, i: int) -> int
    decreases i,
{
    if i <= 0 {
        0
    } else {
        count_headers(cat, i - 1) + if opens_album(cat, i - 1) {
            1int
        } else {
            0int
        }
    }
}

/// The index of track `i`'s song row in the plan.
pub open spec fn row_index(cat: Seq<crate::catalog::TrackView>, i: int) -> int {
    i + count_headers(cat, i + 1)
}

proof fn lemma_count_headers_step(cat: Seq<crate::catalog::TrackView>, i: int)
    requires
        i >= 0,
    ensures
        count_headers(cat, i + 1) == count_headers(cat, i) + if opens_album(cat, i) {
            1int
        } else {
            0int
        },
{
}

proof fn lemma_count_headers_mono(cat: Seq<crate::catalog::TrackView>, a: int, b: int)
    requires
        a <= b,
    ensures
        count_headers(cat, a) <= count_headers(cat, b),
    decreases b - a,
{
    if a < b {
        lemma_count_headers_mono(cat, a, b - 1);
    }
}

proof fn lemma_count_headers_le(cat: Seq<crate::catalog::TrackView>, i: int)
    ensures
        0 <= count_headers(cat, i) <= if i >= 0 {
            i
        } else {
            0
        },
    decreases i,
{
    if i > 0 {
        lemma_count_headers_le(cat, i - 1);
    }
}

} // verus!
