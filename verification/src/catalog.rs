//! The track catalog: tags of one playable file, grouping of tracks into
//! albums, and the catalog ordering (albums by primary artist, descending
//! year and name; tracks within an album by disc and track number).

use vstd::prelude::*;

use crate::strings::{lemma_seq_lt_asymmetric, seq_ci_eq, seq_lt, str_ci_eq, str_lt};

verus! {

/// Tag data of one playable audio file. Immutable once cataloged.
/// `album_artist` is set only on an album's first track after grouping;
/// `cover` holds the bytes of an embedded front-cover image, when present.
#[derive(Debug, PartialEq, Clone)]
pub struct Track {
    pub path: String,
    pub title: String,
    pub artist: String,
    pub album: String,
    pub track: u32,
    pub disc: u32,
    pub year: i32,
    pub album_artist: String,
    pub cover: Option<Vec<u8>>,
}

/// Mathematical image of a `Track`: every text field as a character
/// sequence.
pub struct TrackView {
    pub path: Seq<char>,
    pub title: Seq<char>,
    pub artist: Seq<char>,
    pub album: Seq<char>,
    pub track: u32,
    pub disc: u32,
    pub year: i32,
    pub album_artist: Seq<char>,
    pub cover: Option<Seq<u8>>,
}

/// A `TrackView` without the `album_artist` mark, which cataloging
/// rewrites; catalog building permutes tracks up to this projection.
pub struct TrackCore {
    pub path: Seq<char>,
    pub title: Seq<char>,
    pub artist: Seq<char>,
    pub album: Seq<char>,
    pub track: u32,
    pub disc: u32,
    pub year: i32,
    pub cover: Option<Seq<u8>>,
}

impl View for Track {
    type V = TrackView;

    open spec fn view(&self) -> TrackView {
        TrackView {
            path: self.path@,
            title: self.title@,
            artist: self.artist@,
            album: self.album@,
            track: self.track,
            disc: self.disc,
            year: self.year,
            album_artist: self.album_artist@,
            cover: match self.cover {
                Option::Some(v) => Option::Some(v@),
                Option::None => Option::None,
            },
        }
    }
}

/// The cataloging-invariant part of a track.
pub open spec fn track_core(t: TrackView) -> TrackCore {
    TrackCore {
        path: t.path,
        title: t.title,
        artist: t.artist,
        album: t.album,
        track: t.track,
        disc: t.disc,
        year: t.year,
        cover: t.cover,
    }
}

impl Track {
    /// A field-by-field copy equal to `self`.
    pub fn duplicate(&self) -> (t: Track)
        ensures
            t@ == self@,
    {
        let cover: Option<Vec<u8>> = match &self.cover {
            Option::Some(v) => {
                let mut c: Vec<u8> = Vec::new();
                let mut i: usize = 0;
                while i < v.len()
                    invariant
                        0 <= i <= v.len(),
                        c@ =~= v@.subrange(0, i as int),
                    decreases v.len() - i,
                {
                    c.push(v[i]);
                    assert(c@ =~= v@.subrange(0, i + 1));
                    i = i + 1;
                }
                assert(c@ =~= v@);
                Option::Some(c)
            },
            Option::None => Option::None,
        };
        Track {
            path: self.path.clone(),
            title: self.title.clone(),
            artist: self.artist.clone(),
            album: self.album.clone(),
            track: self.track,
            disc: self.disc,
            year: self.year,
            album_artist: self.album_artist.clone(),
            cover,
        }
    }
}

/// Number of entries of `s` equal to `a`.
pub open spec fn count_eq(s: Seq<Seq<char>>, a: Seq<char>) -> nat
    decreases s.len(),
{
    if s.len() == 0 {
        0
    } else {
        count_eq(s.drop_last(), a) + if s.last() == a {
            1nat
        } else {
            0nat
        }
    }
}

/// Does `a` occur in `s`?
pub open spec fn occurs(s: Seq<Seq<char>>, a: Seq<char>) -> bool {
    exists|i: int| 0 <= i < s.len() && s[i] == a
}

/// Index of the first occurrence of `a` in `s` (length of `s` if absent).
pub open spec fn first_occ(s: Seq<Seq<char>>, a: Seq<char>) -> int
    decreases s.len(),
{
    if s.len() == 0 {
        0
    } else if s[0] == a {
        0
    } else {
        1 + first_occ(s.drop_first(), a)
    }
}

proof fn lemma_count_push(s: Seq<Seq<char>>, x: Seq<char>, a: Seq<char>)
    ensures
        count_eq(s.push(x), a) == count_eq(s, a) + if x == a {
            1nat
        } else {
            0nat
        },
{
    assert(s.push(x).drop_last() =~= s);
    assert(s.push(x).last() == x);
}

proof fn lemma_first_occ_bounds(s: Seq<Seq<char>>, a: Seq<char>)
    ensures
        0 <= first_occ(s, a) <= s.len(),
        occurs(s, a) ==> first_occ(s, a) < s.len() && s[first_occ(s, a)] == a,
        !occurs(s, a) ==> first_occ(s, a) == s.len(),
        forall|j: int| 0 <= j < first_occ(s, a) ==> s[j] != a,
    decreases s.len(),
{
    if s.len() == 0 {
    } else if s[0] == a {
    } else {
        lemma_first_occ_bounds(s.drop_first(), a);
        assert(occurs(s, a) ==> occurs(s.drop_first(), a)) by {
            if occurs(s, a) {
                let i = choose|i: int| 0 <= i < s.len() && s[i] == a;
                assert(i != 0);
                assert(s.drop_first()[i - 1] == a);
            }
        }
        assert(forall|j: int| 0 < j < first_occ(s, a) ==> s[j] == s.drop_first()[j - 1]);
    }
}

proof fn lemma_first_occ_push(s: Seq<Seq<char>>, x: Seq<char>, a: Seq<char>)
    ensures
        occurs(s, a) ==> first_occ(s.push(x), a) == first_occ(s, a),
        !occurs(s, a) && x == a ==> first_occ(s.push(x), a) == s.len(),
        !occurs(s, a) && x != a ==> first_occ(s.push(x), a) == s.len() + 1,
    decreases s.len(),
{
    lemma_first_occ_bounds(s, a);
    if s.len() == 0 {
        assert(s.push(x)[0] == x);
        if x != a {
            assert(s.push(x).drop_first() =~= Seq::<Seq<char>>::empty());
            assert(first_occ(Seq::<Seq<char>>::empty(), a) == 0);
        }
    } else {
        if s[0] == a {
            assert(s.push(x)[0] == a);
        } else {
            assert(s.push(x)[0] == s[0]);
            lemma_first_occ_push(s.drop_first(), x, a);
            assert(s.push(x).drop_first() =~= s.drop_first().push(x));
            assert(occurs(s, a) ==> occurs(s.drop_first(), a)) by {
                if occurs(s, a) {
                    let i = choose|i: int| 0 <= i < s.len() && s[i] == a;
                    assert(i != 0);
                    assert(s.drop_first()[i - 1] == a);
                }
            }
            assert(occurs(s.drop_first(), a) ==> occurs(s, a)) by {
                if occurs(s.drop_first(), a) {
                    let i = choose|i: int| 0 <= i < s.drop_first().len() && s.drop_first()[i] == a;
                    assert(s[i + 1] == a);
                }
            }
        }
    }
}

/// The artist sequence of a track sequence.
pub open spec fn artists_of(s: Seq<TrackView>) -> Seq<Seq<char>> {
    s.map_values(|t: TrackView| t.artist)
}

/// `a` is the artist with the most tracks in `arts`, the earliest first
/// occurrence breaking ties.
pub open spec fn is_primary_artist(arts: Seq<Seq<char>>, a: Seq<char>) -> bool {
    &&& occurs(arts, a)
    &&& forall|j: int| 0 <= j < arts.len() ==> count_eq(arts, #[trigger] arts[j]) <= count_eq(arts, a)
    &&& forall|j: int| 0 <= j < first_occ(arts, a) ==> count_eq(arts, #[trigger] arts[j]) < count_eq(arts, a)
}

/// Tracks grouped under one album name, with a per-artist track count
/// kept alongside to elect the album's primary artist.
pub struct Album {
    artists: Vec<(String, usize)>,
    tracks: Vec<Track>,
}

impl View for Album {
    type V = Seq<TrackView>;

    closed spec fn view(&self) -> Seq<TrackView> {
        self.tracks@.map_values(|t: Track| t@)
    }
}

impl Album {
    /// Every artist name of `tracks` is counted once, under distinct
    /// names listed in first-occurrence order. Established by `new` and
    /// kept by `push`.
    pub closed spec fn wf(&self) -> bool {
        let arts = artists_of(self@);
        &&& forall|k: int|
            0 <= k < self.artists@.len() ==> count_eq(arts, #[trigger] self.artists@[k].0@)
                == self.artists@[k].1
        &&& forall|k: int| 0 <= k < self.artists@.len() ==> occurs(arts, #[trigger] self.artists@[k].0@)
        &&& forall|i: int| 0 <= i < arts.len() ==> occurs_in_list(self.artists@, #[trigger] arts[i])
        &&& forall|k1: int, k2: int|
            0 <= k1 < k2 < self.artists@.len() ==> first_occ(arts, #[trigger] self.artists@[k1].0@)
                < first_occ(arts, #[trigger] self.artists@[k2].0@)
    }

    pub fn new() -> (a: Album)
        ensures
            a@ =~= Seq::<TrackView>::empty(),
            a.wf(),
    {
        let a = Album { artists: Vec::new(), tracks: Vec::new() };
        proof {
            assert(a.tracks@.map_values(|t: Track| t@) =~= Seq::<TrackView>::empty());
        }
        a
    }

    /// Add one track to the album, counting its artist.
    pub fn push(&mut self, t: Track)
        requires
            old(self).wf(),
        ensures
            final(self)@ =~= old(self)@.push(t@),
            final(self).wf(),
    {
        let ghost old_arts = artists_of(self@);
        let ghost new_arts = artists_of(self@.push(t@));
        proof {
            assert(new_arts =~= old_arts.push(t@.artist));
            assert forall|a: Seq<char>|
                #[trigger] count_eq(new_arts, a) == count_eq(old_arts, a) + if t@.artist == a {
                    1nat
                } else {
                    0nat
                } by {
                lemma_count_push(old_arts, t@.artist, a);
            }
            assert forall|a: Seq<char>| occurs(old_arts, a) implies #[trigger] first_occ(new_arts, a)
                == first_occ(old_arts, a) by {
                lemma_first_occ_push(old_arts, t@.artist, a);
            }
            assert forall|a: Seq<char>| occurs(old_arts, a) implies #[trigger] occurs(
                new_arts,
                a,
            ) by {
                lemma_occurs_push(old_arts, t@.artist, a);
            }
            lemma_occurs_push(old_arts, t@.artist, t@.artist);
        }
        // find the artist's counter, or open one
        let found = find_name(&self.artists, &t.artist);
        let ghost pre = *self;
        if let Option::Some(idx) = found {
            let c = self.artists[idx].1;
            let name = self.artists[idx].0.clone();
            self.tracks.push(t);
            let n = self.tracks.len();
            assert(c < n) by {
                lemma_count_le_len(old_arts, pre.artists@[idx as int].0@);
            }
            *vstd::std_specs::vec::vec_index_mut(&mut self.artists, idx) = (name, c + 1);
            proof {
                assert(self@ == pre@.push(t@));
                assert(artists_of(self@) == new_arts);
                assert(forall|j: int|
                    0 <= j < self.artists@.len() ==> (#[trigger] self.artists@[j]).0@
                        == pre.artists@[j].0@);
                assert(occurs(old_arts, pre.artists@[idx as int].0@));
                // names are pairwise distinct: equal names would share a
                // first occurrence
                assert forall|j: int|
                    0 <= j < pre.artists@.len() && j != idx implies (#[trigger] pre.artists@[j]).0@
                    != t@.artist by {
                    if pre.artists@[j].0@ == t@.artist {
                        if j < idx {
                            assert(first_occ(old_arts, pre.artists@[j].0@) < first_occ(
                                old_arts,
                                pre.artists@[idx as int].0@,
                            ));
                        } else {
                            assert(first_occ(old_arts, pre.artists@[idx as int].0@) < first_occ(
                                old_arts,
                                pre.artists@[j].0@,
                            ));
                        }
                    }
                }
                // counters stay exact
                assert forall|k: int| 0 <= k < self.artists@.len() implies count_eq(
                    new_arts,
                    (#[trigger] self.artists@[k]).0@,
                ) == self.artists@[k].1 by {
                    if k == idx {
                        assert(self.artists@[k].0@ == t@.artist);
                        assert(count_eq(old_arts, t@.artist) == c);
                    } else {
                        assert(self.artists@[k].0@ != t@.artist);
                    }
                }
                // every listed name still occurs, with unchanged first
                // occurrence, so the listing order stands
                assert forall|k: int| 0 <= k < self.artists@.len() implies occurs(
                    new_arts,
                    (#[trigger] self.artists@[k]).0@,
                ) by {
                    assert(occurs(old_arts, pre.artists@[k].0@));
                }
                assert forall|k1: int, k2: int|
                    0 <= k1 < k2 < self.artists@.len() implies first_occ(
                    new_arts,
                    (#[trigger] self.artists@[k1]).0@,
                ) < first_occ(new_arts, (#[trigger] self.artists@[k2]).0@) by {
                    assert(occurs(old_arts, pre.artists@[k1].0@));
                    assert(occurs(old_arts, pre.artists@[k2].0@));
                }
                // every artist in the album is listed
                assert forall|i: int| 0 <= i < new_arts.len() implies occurs_in_list(
                    self.artists@,
                    #[trigger] new_arts[i],
                ) by {
                    if i < old_arts.len() {
                        assert(occurs_in_list(pre.artists@, old_arts[i]));
                        let j = choose|j: int|
                            0 <= j < pre.artists@.len() && pre.artists@[j].0@ == old_arts[i];
                        assert(self.artists@[j].0@ == old_arts[i]);
                    } else {
                        assert(new_arts[i] == t@.artist);
                        assert(self.artists@[idx as int].0@ == t@.artist);
                    }
                }
            }
        } else {
            // new artist: counted once, first occurrence at the end
            let name = t.artist.clone();
            self.tracks.push(t);
            self.artists.push((name, 1));
            proof {
                assert(self@ == pre@.push(t@));
                assert(artists_of(self@) == new_arts);
                let la = self.artists@.len() - 1;
                assert(forall|j: int|
                    0 <= j < la ==> (#[trigger] self.artists@[j]).0@ == pre.artists@[j].0@);
                assert(self.artists@[la].0@ == t@.artist);
                assert(!occurs(old_arts, t@.artist)) by {
                    if occurs(old_arts, t@.artist) {
                        let i = choose|i: int| 0 <= i < old_arts.len() && old_arts[i] == t@.artist;
                        assert(occurs_in_list(pre.artists@, old_arts[i]));
                        let j = choose|j: int|
                            0 <= j < pre.artists@.len() && pre.artists@[j].0@ == old_arts[i];
                    }
                }
                lemma_first_occ_push(old_arts, t@.artist, t@.artist);
                lemma_zero_count(old_arts, t@.artist);
                // existing names differ from the new one
                assert forall|k: int| 0 <= k < la implies (#[trigger] self.artists@[k]).0@
                    != t@.artist by {
                    assert(occurs(old_arts, pre.artists@[k].0@));
                }
                assert forall|k: int| 0 <= k < self.artists@.len() implies count_eq(
                    new_arts,
                    (#[trigger] self.artists@[k]).0@,
                ) == self.artists@[k].1 by {
                    if k < la {
                        assert(count_eq(old_arts, pre.artists@[k].0@) == pre.artists@[k].1);
                    }
                }
                assert forall|k: int| 0 <= k < self.artists@.len() implies occurs(
                    new_arts,
                    (#[trigger] self.artists@[k]).0@,
                ) by {
                    if k < la {
                        assert(occurs(old_arts, pre.artists@[k].0@));
                    }
                }
                assert forall|k1: int, k2: int|
                    0 <= k1 < k2 < self.artists@.len() implies first_occ(
                    new_arts,
                    (#[trigger] self.artists@[k1]).0@,
                ) < first_occ(new_arts, (#[trigger] self.artists@[k2]).0@) by {
                    assert(occurs(old_arts, pre.artists@[k1].0@));
                    if k2 < la {
                        assert(occurs(old_arts, pre.artists@[k2].0@));
                    } else {
                        lemma_first_occ_bounds(old_arts, pre.artists@[k1].0@);
                        assert(first_occ(new_arts, self.artists@[k2].0@) == old_arts.len());
                    }
                }
                assert forall|i: int| 0 <= i < new_arts.len() implies occurs_in_list(
                    self.artists@,
                    #[trigger] new_arts[i],
                ) by {
                    if i < old_arts.len() {
                        assert(occurs_in_list(pre.artists@, old_arts[i]));
                        let j = choose|j: int|
                            0 <= j < pre.artists@.len() && pre.artists@[j].0@ == old_arts[i];
                        assert(self.artists@[j].0@ == new_arts[i]);
                    } else {
                        assert(self.artists@[la].0@ == new_arts[i]);
                    }
                }
            }
        }
    }

    /// The album's tracks, in the order they were added.
    pub fn tracks(&self) -> (r: &Vec<Track>)
        ensures
            r@.map_values(|t: Track| t@) == self@,
    {
        &self.tracks
    }

    /// The album's primary artist: the artist of the most tracks, the one
    /// met first among equals; empty for an empty album.
    pub fn artist(&self) -> (r: String)
        requires
            self.wf(),
        ensures
            self@.len() == 0 ==> r@ =~= Seq::<char>::empty(),
            self@.len() > 0 ==> is_primary_artist(artists_of(self@), r@),
    {
        let ghost arts = artists_of(self@);
        if self.tracks.len() == 0 {
            return String::new();
        }
        assert(self.artists@.len() > 0) by {
            assert(occurs_in_list(self.artists@, arts[0]));
        }
        let mut best: usize = 0;
        let mut k: usize = 1;
        while k < self.artists.len()
            invariant
                0 <= best < k <= self.artists@.len(),
                forall|j: int|
                    0 <= j < k ==> (#[trigger] self.artists@[j].1) <= self.artists@[best as int].1,
                forall|j: int|
                    0 <= j < best ==> (#[trigger] self.artists@[j].1) < self.artists@[best as int].1,
            decreases self.artists@.len() - k,
        {
            if self.artists[k].1 > self.artists[best].1 {
                best = k;
            }
            k = k + 1;
        }
        let r = self.artists[best].0.clone();
        proof {
            let cbest = count_eq(arts, r@);
            assert forall|j: int| 0 <= j < arts.len() implies count_eq(arts, #[trigger] arts[j])
                <= cbest by {
                assert(occurs_in_list(self.artists@, arts[j]));
                let m = choose|m: int| 0 <= m < self.artists@.len() && self.artists@[m].0@ == arts[j];
            }
            lemma_first_occ_bounds(arts, r@);
            assert forall|j: int| 0 <= j < first_occ(arts, r@) implies count_eq(
                arts,
                #[trigger] arts[j],
            ) < cbest by {
                assert(occurs_in_list(self.artists@, arts[j]));
                let m = choose|m: int| 0 <= m < self.artists@.len() && self.artists@[m].0@ == arts[j];
                // an artist occurring before r's first occurrence stands
                // earlier in the counter list
                if m >= best {
                    lemma_first_occ_bounds(arts, self.artists@[m].0@);
                    if m > best {
                        assert(first_occ(arts, self.artists@[best as int].0@) < first_occ(
                            arts,
                            self.artists@[m].0@,
                        ));
                        assert(arts[j] == self.artists@[m].0@);
                        assert(first_occ(arts, arts[j]) <= j) by {
                            lemma_first_occ_min(arts, arts[j], j);
                        }
                        assert(false);
                    } else {
                        assert(arts[j] == r@);
                        assert(first_occ(arts, arts[j]) <= j) by {
                            lemma_first_occ_min(arts, arts[j], j);
                        }
                        assert(false);
                    }
                }
            }
            lemma_first_occ_bounds(arts, self.artists@[best as int].0@);
        }
        r
    }
}

/// Does `a` occur among the names of the counter list?
pub open spec fn occurs_in_list(l: Seq<(String, usize)>, a: Seq<char>) -> bool {
    exists|k: int| 0 <= k < l.len() && l[k].0@ == a
}

/// Position of `name` in the counter list, if listed.
fn find_name(l: &Vec<(String, usize)>, name: &String) -> (r: Option<usize>)
    ensures
        match r {
            Option::Some(k) => k < l@.len() && l@[k as int].0@ == name@,
            Option::None => forall|j: int| 0 <= j < l@.len() ==> (#[trigger] l@[j]).0@ != name@,
        },
{
    let mut k: usize = 0;
    while k < l.len()
        invariant
            0 <= k <= l@.len(),
            forall|j: int| 0 <= j < k ==> (#[trigger] l@[j]).0@ != name@,
        decreases l@.len() - k,
    {
        if l[k].0.eq(name) {
            return Option::Some(k);
        }
        k = k + 1;
    }
    Option::None
}

proof fn lemma_count_le_len(s: Seq<Seq<char>>, a: Seq<char>)
    ensures
        count_eq(s, a) <= s.len(),
    decreases s.len(),
{
    if s.len() > 0 {
        lemma_count_le_len(s.drop_last(), a);
    }
}

proof fn lemma_occurs_push(s: Seq<Seq<char>>, x: Seq<char>, a: Seq<char>)
    ensures
        occurs(s, a) ==> occurs(s.push(x), a),
        occurs(s.push(x), x),
{
    assert(s.push(x)[s.len() as int] == x);
    if occurs(s, a) {
        let i = choose|i: int| 0 <= i < s.len() && s[i] == a;
        assert(s.push(x)[i] == a);
    }
}

proof fn lemma_zero_count(s: Seq<Seq<char>>, a: Seq<char>)
    requires
        !occurs(s, a),
    ensures
        count_eq(s, a) == 0,
    decreases s.len(),
{
    if s.len() > 0 {
        assert(!occurs(s.drop_last(), a)) by {
            if occurs(s.drop_last(), a) {
                let i = choose|i: int| 0 <= i < s.drop_last().len() && s.drop_last()[i] == a;
                assert(s[i] == a);
            }
        }
        lemma_zero_count(s.drop_last(), a);
        assert(s.last() != a);
    }
}

proof fn lemma_first_occ_min(s: Seq<Seq<char>>, a: Seq<char>, i: int)
    requires
        0 <= i < s.len(),
        s[i] == a,
    ensures
        first_occ(s, a) <= i,
{
    lemma_first_occ_bounds(s, a);
}

} // verus!
// === album ordering ===========================================================

verus! {

/// Ordering key of one album: its primary artist, year and name.
pub struct AlbumInfo {
    pub artist: String,
    pub year: i32,
    pub name: String,
}

/// Mathematical image of an `AlbumInfo`.
pub struct AlbumKey {
    pub artist: Seq<char>,
    pub year: i32,
    pub name: Seq<char>,
}

impl View for AlbumInfo {
    type V = AlbumKey;

    closed spec fn view(&self) -> AlbumKey {
        AlbumKey { artist: self.artist@, year: self.year, name: self.name@ }
    }
}

/// Album order: by artist (ASCII case-insensitively equal artists count as
/// one), then by descending year, then by name.
pub open spec fn album_less(a: AlbumKey, b: AlbumKey) -> bool {
    if seq_ci_eq(a.artist, b.artist) {
        a.year > b.year || (a.year == b.year && seq_lt(a.name, b.name))
    } else {
        seq_lt(a.artist, b.artist)
    }
}

/// `album_less` never holds in both directions.
pub proof fn lemma_album_less_asymmetric(a: AlbumKey, b: AlbumKey)
    ensures
        album_less(a, b) ==> !album_less(b, a),
{
    lemma_seq_lt_asymmetric(a.artist, b.artist);
    lemma_seq_lt_asymmetric(a.name, b.name);
}

/// Decide `album_less` on two albums.
fn album_less_exec(a: &AlbumInfo, b: &AlbumInfo) -> (r: bool)
    ensures
        r == album_less(a@, b@),
{
    if str_ci_eq(a.artist.as_str(), b.artist.as_str()) {
        if a.year > b.year {
            true
        } else if a.year == b.year {
            str_lt(a.name.as_str(), b.name.as_str())
        } else {
            false
        }
    } else {
        str_lt(a.artist.as_str(), b.artist.as_str())
    }
}

/// Arrange albums so that no album sorts below its predecessor: a stable
/// insertion sort of the album positions by `album_less`.
fn order_albums(infos: &Vec<AlbumInfo>) -> (ord: Vec<usize>)
    ensures
        ord@.len() == infos@.len(),
        ord@.no_duplicates(),
        forall|q: int| 0 <= q < ord@.len() ==> (#[trigger] ord@[q]) < infos@.len(),
        forall|b: int| 0 <= b < infos@.len() ==> #[trigger] ord@.contains(b as usize),
        forall|q: int|
            0 <= q && q + 1 < ord@.len() ==> !album_less(
                infos@[#[trigger] ord@[q + 1] as int]@,
                infos@[ord@[q] as int]@,
            ),
{
    let mut ord: Vec<usize> = Vec::new();
    let mut b: usize = 0;
    while b < infos.len()
        invariant
            0 <= b <= infos@.len(),
            ord@.len() == b,
            ord@.no_duplicates(),
            forall|q: int| 0 <= q < ord@.len() ==> (#[trigger] ord@[q]) < b,
            forall|b2: int| 0 <= b2 < b ==> #[trigger] ord@.contains(b2 as usize),
            forall|q: int|
                0 <= q && q + 1 < ord@.len() ==> !album_less(
                    infos@[#[trigger] ord@[q + 1] as int]@,
                    infos@[ord@[q] as int]@,
                ),
        decreases infos@.len() - b,
    {
        // walk back over the strictly greater entries
        let mut p: usize = ord.len();
        loop
            invariant_except_break
                0 <= p <= ord@.len(),
                b < infos@.len(),
                forall|q: int| 0 <= q < ord@.len() ==> (#[trigger] ord@[q]) < b,
                forall|q: int|
                    p <= q < ord@.len() ==> album_less(infos@[b as int]@, infos@[#[trigger] ord@[q] as int]@),
            ensures
                0 <= p <= ord@.len(),
                forall|q: int|
                    p <= q < ord@.len() ==> album_less(infos@[b as int]@, infos@[#[trigger] ord@[q] as int]@),
                p > 0 ==> !album_less(infos@[b as int]@, infos@[ord@[p - 1] as int]@),
            decreases p,
        {
            if p == 0 {
                break;
            }
            if !album_less_exec(&infos[b], &infos[ord[p - 1]]) {
                break;
            }
            p = p - 1;
        }
        let ghost old_ord = ord@;
        ord.insert(p, b);
        proof {
            crate::order::lemma_insert_facts(old_ord, p as int, b);
            assert(ord@.no_duplicates()) by {
                assert forall|i: int, j: int|
                    0 <= i < ord@.len() && 0 <= j < ord@.len() && i != j implies ord@[i]
                    != ord@[j] by {
                    if i != p && j != p {
                        let i0 = if i < p {
                            i
                        } else {
                            i - 1
                        };
                        let j0 = if j < p {
                            j
                        } else {
                            j - 1
                        };
                        assert(ord@[i] == old_ord[i0] && ord@[j] == old_ord[j0]);
                    } else {
                        let k = if i == p {
                            j
                        } else {
                            i
                        };
                        let k0 = if k < p {
                            k
                        } else {
                            k - 1
                        };
                        assert(ord@[k] == old_ord[k0]);
                        assert(old_ord[k0] < b);
                    }
                }
            }
            assert forall|b2: int| 0 <= b2 < b + 1 implies #[trigger] ord@.contains(b2 as usize) by {
                if b2 == b {
                    assert(ord@[p as int] == b as usize);
                } else {
                    assert(old_ord.contains(b2 as usize));
                    let q = choose|q: int| 0 <= q < old_ord.len() && old_ord[q] == b2 as usize;
                    if q < p {
                        assert(ord@[q] == b2 as usize);
                    } else {
                        assert(ord@[q + 1] == b2 as usize);
                    }
                }
            }
            assert(p > 0 ==> !album_less(infos@[b as int]@, infos@[old_ord[p - 1] as int]@));
            assert(forall|q: int|
                p <= q < old_ord.len() ==> album_less(
                    infos@[b as int]@,
                    infos@[#[trigger] old_ord[q] as int]@,
                ));
            assert(forall|q: int|
                0 <= q && q + 1 < old_ord.len() ==> !album_less(
                    infos@[old_ord[q + 1] as int]@,
                    infos@[#[trigger] old_ord[q] as int]@,
                ));
            assert forall|q: int|
                0 <= q && q + 1 < ord@.len() implies !album_less(
                infos@[#[trigger] ord@[q + 1] as int]@,
                infos@[ord@[q] as int]@,
            ) by {
                if q + 1 < p {
                    assert(ord@[q] == old_ord[q] && ord@[q + 1] == old_ord[q + 1]);
                    assert(!album_less(infos@[old_ord[q + 1] as int]@, infos@[old_ord[q] as int]@));
                } else if q + 1 == p {
                    // the walk stopped here
                    assert(ord@[q] == old_ord[q]);
                    assert(ord@[p as int] == b as usize);
                    assert(!album_less(infos@[b as int]@, infos@[old_ord[p - 1] as int]@));
                } else if q == p {
                    // the entry shifted right was strictly greater
                    assert(ord@[q] == b as usize);
                    assert(ord@[q + 1] == old_ord[q]);
                    assert(album_less(infos@[b as int]@, infos@[old_ord[q] as int]@));
                    lemma_album_less_asymmetric(infos@[b as int]@, infos@[old_ord[q] as int]@);
                    assert(!album_less(infos@[old_ord[q] as int]@, infos@[b as int]@));
                } else {
                    assert(ord@[q] == old_ord[q - 1] && ord@[q + 1] == old_ord[q]);
                    assert(!album_less(infos@[old_ord[q] as int]@, infos@[old_ord[q - 1] as int]@));
                }
            }
        }
        b = b + 1;
    }
    ord
}

/// One track index per distinct album name, in order of first appearance.
fn distinct_albums(tracks: &Vec<Track>) -> (firsts: Vec<usize>)
    ensures
        forall|k: int| 0 <= k < firsts@.len() ==> (#[trigger] firsts@[k]) < tracks@.len(),
        forall|k1: int, k2: int|
            0 <= k1 < k2 < firsts@.len() ==> tracks@[firsts@[k1] as int]@.album
                != tracks@[firsts@[k2] as int]@.album,
        forall|i: int|
            0 <= i < tracks@.len() ==> exists|k: int|
                0 <= k < firsts@.len() && (#[trigger] tracks@[i])@.album
                    == tracks@[firsts@[k] as int]@.album,
{
    let mut firsts: Vec<usize> = Vec::new();
    let mut i: usize = 0;
    while i < tracks.len()
        invariant
            0 <= i <= tracks@.len(),
            forall|k: int| 0 <= k < firsts@.len() ==> (#[trigger] firsts@[k]) < i,
            forall|k1: int, k2: int|
                0 <= k1 < k2 < firsts@.len() ==> tracks@[firsts@[k1] as int]@.album
                    != tracks@[firsts@[k2] as int]@.album,
            forall|j: int|
                0 <= j < i ==> exists|k: int|
                    0 <= k < firsts@.len() && (#[trigger] tracks@[j])@.album
                        == tracks@[firsts@[k] as int]@.album,
        decreases tracks@.len() - i,
    {
        let found = find_album(tracks, &firsts, &tracks[i].album);
        if found.is_none() {
            let ghost old_firsts = firsts@;
            firsts.push(i);
            proof {
                assert(firsts@[firsts@.len() - 1] == i);
                assert forall|j: int|
                    0 <= j < i + 1 implies exists|k: int|
                    0 <= k < firsts@.len() && (#[trigger] tracks@[j])@.album
                        == tracks@[firsts@[k] as int]@.album by {
                    if j < i {
                        let k = choose|k: int|
                            0 <= k < old_firsts.len() && tracks@[j]@.album
                                == tracks@[old_firsts[k] as int]@.album;
                        assert(firsts@[k] == old_firsts[k]);
                    } else {
                        assert(tracks@[j]@.album == tracks@[firsts@[firsts@.len() - 1] as int]@.album);
                    }
                }
            }
        }
        i = i + 1;
    }
    firsts
}

/// Position in `firsts` of the entry whose album name equals `name`.
fn find_album(tracks: &Vec<Track>, firsts: &Vec<usize>, name: &String) -> (r: Option<usize>)
    requires
        forall|k: int| 0 <= k < firsts@.len() ==> (#[trigger] firsts@[k]) < tracks@.len(),
    ensures
        match r {
            Option::Some(k) => k < firsts@.len() && tracks@[firsts@[k as int] as int]@.album
                == name@,
            Option::None => forall|k: int|
                0 <= k < firsts@.len() ==> tracks@[firsts@[k] as int]@.album != name@,
        },
{
    let mut k: usize = 0;
    while k < firsts.len()
        invariant
            0 <= k <= firsts@.len(),
            forall|k2: int| 0 <= k2 < firsts@.len() ==> (#[trigger] firsts@[k2]) < tracks@.len(),
            forall|k2: int| 0 <= k2 < k ==> tracks@[firsts@[k2] as int]@.album != name@,
        decreases firsts@.len() - k,
    {
        if tracks[firsts[k]].album.eq(name) {
            return Option::Some(k);
        }
        k = k + 1;
    }
    Option::None
}

/// For each track, the position in `firsts` of its album.
fn album_ranks(tracks: &Vec<Track>, firsts: &Vec<usize>) -> (ranks: Vec<usize>)
    requires
        forall|k: int| 0 <= k < firsts@.len() ==> (#[trigger] firsts@[k]) < tracks@.len(),
        forall|i: int|
            0 <= i < tracks@.len() ==> exists|k: int|
                0 <= k < firsts@.len() && (#[trigger] tracks@[i])@.album
                    == tracks@[firsts@[k] as int]@.album,
    ensures
        ranks@.len() == tracks@.len(),
        forall|i: int|
            0 <= i < tracks@.len() ==> (#[trigger] ranks@[i]) < firsts@.len()
                && tracks@[i]@.album == tracks@[firsts@[ranks@[i] as int] as int]@.album,
{
    let mut ranks: Vec<usize> = Vec::new();
    let mut i: usize = 0;
    while i < tracks.len()
        invariant
            0 <= i <= tracks@.len(),
            ranks@.len() == i,
            forall|k: int| 0 <= k < firsts@.len() ==> (#[trigger] firsts@[k]) < tracks@.len(),
            forall|j: int|
                0 <= j < tracks@.len() ==> exists|k: int|
                    0 <= k < firsts@.len() && (#[trigger] tracks@[j])@.album
                        == tracks@[firsts@[k] as int]@.album,
            forall|j: int|
                0 <= j < i ==> (#[trigger] ranks@[j]) < firsts@.len() && tracks@[j]@.album
                    == tracks@[firsts@[ranks@[j] as int] as int]@.album,
        decreases tracks@.len() - i,
    {
        let found = find_album(tracks, firsts, &tracks[i].album);
        match found {
            Option::Some(k) => {
                ranks.push(k);
            },
            Option::None => {
                proof {
                    assert(exists|k: int|
                        0 <= k < firsts@.len() && tracks@[i as int]@.album
                            == tracks@[firsts@[k] as int]@.album);
                    assert(false);
                }
                ranks.push(0);
            },
        }
        i = i + 1;
    }
    ranks
}

/// The indices of every track of the album that `first` belongs to, in
/// input order.
fn members_of(tracks: &Vec<Track>, first: usize) -> (mems: Vec<usize>)
    requires
        first < tracks@.len(),
    ensures
        mems@.no_duplicates(),
        forall|q: int| 0 <= q < mems@.len() ==> (#[trigger] mems@[q]) < tracks@.len(),
        forall|q1: int, q2: int| 0 <= q1 < q2 < mems@.len() ==> mems@[q1] < mems@[q2],
        forall|i: int|
            0 <= i < tracks@.len() ==> (mems@.contains(i as usize) <==> (#[trigger] tracks@[i])@.album
                == tracks@[first as int]@.album),
        mems@.len() > 0,
{
    let mut mems: Vec<usize> = Vec::new();
    let mut i: usize = 0;
    while i < tracks.len()
        invariant
            0 <= i <= tracks@.len(),
            first < tracks@.len(),
            forall|q: int| 0 <= q < mems@.len() ==> (#[trigger] mems@[q]) < i,
            forall|q1: int, q2: int| 0 <= q1 < q2 < mems@.len() ==> mems@[q1] < mems@[q2],
            forall|i2: int|
                0 <= i2 < i ==> (mems@.contains(i2 as usize) <==> (#[trigger] tracks@[i2])@.album
                    == tracks@[first as int]@.album),
        decreases tracks@.len() - i,
    {
        let ghost old_mems = mems@;
        if tracks[i].album.eq(&tracks[first].album) {
            mems.push(i);
        }
        proof {
            assert forall|i2: int|
                0 <= i2 < i + 1 implies (mems@.contains(i2 as usize) <==> (#[trigger] tracks@[i2])@.album
                == tracks@[first as int]@.album) by {
                if i2 < i {
                    if old_mems.contains(i2 as usize) {
                        let q = choose|q: int| 0 <= q < old_mems.len() && old_mems[q] == i2 as usize;
                        assert(mems@[q] == i2 as usize);
                    }
                    if mems@.contains(i2 as usize) {
                        let q = choose|q: int| 0 <= q < mems@.len() && mems@[q] == i2 as usize;
                        assert(q < old_mems.len());
                        assert(old_mems[q] == i2 as usize);
                    }
                } else {
                    if tracks@[i2]@.album == tracks@[first as int]@.album {
                        assert(mems@[mems@.len() - 1] == i as usize);
                    } else {
                        if mems@.contains(i2 as usize) {
                            let q = choose|q: int| 0 <= q < mems@.len() && mems@[q] == i2 as usize;
                            assert(q < old_mems.len());
                            assert(old_mems[q] == i2 as usize);
                        }
                    }
                }
            }
        }
        i = i + 1;
    }
    proof {
        assert(mems@.contains(first));
        assert(mems@.no_duplicates());
    }
    mems
}

} // verus!
// === the catalog order ========================================================

verus! {

/// Within-album order: by disc, then track number.
pub open spec fn track_key_le(a: TrackView, b: TrackView) -> bool {
    a.disc < b.disc || (a.disc == b.disc && a.track <= b.track)
}

/// Tracks of one album stand together.
pub open spec fn catalog_grouped(s: Seq<TrackView>) -> bool {
    forall|i: int, j: int, k: int|
        #![trigger s[i].album, s[j].album, s[k].album]
        0 <= i <= j <= k < s.len() && s[i].album == s[k].album ==> s[j].album == s[i].album
}

/// Within an album, tracks ascend by (disc, track).
pub open spec fn catalog_tracks_ordered(s: Seq<TrackView>) -> bool {
    forall|i: int, j: int|
        #![trigger s[i].album, s[j].album]
        0 <= i < j < s.len() && s[i].album == s[j].album ==> track_key_le(s[i], s[j])
}

/// The catalog order of `tracks`, as a permutation of their indices:
/// tracks of one album stand together, and within an album tracks ascend
/// by disc and track number, ties keeping their input order (the sort is
/// stable). Albums follow `album_less` over their primary artist, year
/// and name; see `order_albums`.
pub fn catalog_order(tracks: &Vec<Track>) -> (perm: Vec<usize>)
    ensures
        perm@.len() == tracks@.len(),
        perm@.no_duplicates(),
        forall|k: int| 0 <= k < perm@.len() ==> (#[trigger] perm@[k]) < tracks@.len(),
        forall|x: int| 0 <= x < tracks@.len() ==> #[trigger] perm@.contains(x as usize),
        catalog_grouped(Seq::new(perm@.len(), |k: int| tracks@[perm@[k] as int]@)),
        catalog_tracks_ordered(Seq::new(perm@.len(), |k: int| tracks@[perm@[k] as int]@)),
        // stability: equal keys within an album keep their input order
        forall|i: int, j: int|
            #![trigger perm@[i], perm@[j]]
            0 <= i < j < perm@.len() && tracks@[perm@[i] as int]@.album
                == tracks@[perm@[j] as int]@.album && tracks@[perm@[i] as int]@.disc
                == tracks@[perm@[j] as int]@.disc && tracks@[perm@[i] as int]@.track
                == tracks@[perm@[j] as int]@.track ==> perm@[i] < perm@[j],
{
    let n = tracks.len();
    let firsts = distinct_albums(tracks);
    // keys without album rank, for the within-album sort behind the
    // primary-artist election
    let mut keys0: Vec<crate::order::SortKey> = Vec::new();
    let mut i: usize = 0;
    while i < n
        invariant
            0 <= i <= n,
            n == tracks@.len(),
            keys0@.len() == i,
        decreases n - i,
    {
        keys0.push(crate::order::SortKey { rank: 0, disc: tracks[i].disc, track: tracks[i].track });
        i = i + 1;
    }
    // one ordering key per album
    let mut infos: Vec<AlbumInfo> = Vec::new();
    let mut k: usize = 0;
    while k < firsts.len()
        invariant
            0 <= k <= firsts@.len(),
            n == tracks@.len(),
            keys0@.len() == n,
            infos@.len() == k,
            forall|k2: int| 0 <= k2 < firsts@.len() ==> (#[trigger] firsts@[k2]) < tracks@.len(),
        decreases firsts@.len() - k,
    {
        let mems = members_of(tracks, firsts[k]);
        let sm = crate::order::sort_indices(mems, &keys0);
        assert(sm@.len() > 0);
        let mut alb = Album::new();
        let mut q: usize = 0;
        while q < sm.len()
            invariant
                0 <= q <= sm@.len(),
                n == tracks@.len(),
                alb.wf(),
                forall|q2: int| 0 <= q2 < sm@.len() ==> (#[trigger] sm@[q2]) < n,
            decreases sm@.len() - q,
        {
            alb.push(tracks[sm[q]].duplicate());
            q = q + 1;
        }
        let artist = alb.artist();
        let year = tracks[sm[0]].year;
        let name = tracks[firsts[k]].album.clone();
        infos.push(AlbumInfo { artist, year, name });
        k = k + 1;
    }
    let aorder = order_albums(&infos);
    let na = aorder.len();
    // invert the album order into per-album positions
    let mut apos: Vec<usize> = Vec::new();
    while apos.len() < na
        invariant
            apos@.len() <= na,
            forall|k2: int| 0 <= k2 < apos@.len() ==> (#[trigger] apos@[k2]) == 0,
        decreases na - apos@.len(),
    {
        apos.push(0);
    }
    let mut q: usize = 0;
    while q < na
        invariant
            0 <= q <= na,
            na == aorder@.len(),
            na == infos@.len(),
            apos@.len() == na,
            aorder@.no_duplicates(),
            forall|q2: int| 0 <= q2 < na ==> (#[trigger] aorder@[q2]) < na,
            forall|q2: int| 0 <= q2 < q ==> (#[trigger] apos@[aorder@[q2] as int]) == q2,
            forall|k2: int| 0 <= k2 < apos@.len() ==> (#[trigger] apos@[k2]) < na || apos@[k2] == 0,
        decreases na - q,
    {
        let ghost old_apos = apos@;
        let slot = aorder[q];
        *vstd::std_specs::vec::vec_index_mut(&mut apos, slot) = q;
        proof {
            assert forall|q2: int| 0 <= q2 < q + 1 implies (#[trigger] apos@[aorder@[q2] as int])
                == q2 by {
                if q2 < q {
                    assert(aorder@[q2] != aorder@[q as int]);
                    assert(apos@[aorder@[q2] as int] == old_apos[aorder@[q2] as int]);
                }
            }
        }
        q = q + 1;
    }
    proof {
        // every album has a position, and it leads back to the album
        assert forall|k2: int| 0 <= k2 < na implies (#[trigger] apos@[k2]) < na
            && aorder@[apos@[k2] as int] == k2 by {
            assert(aorder@.contains(k2 as usize));
            let q2 = choose|q2: int| 0 <= q2 < na && aorder@[q2] == k2 as usize;
            assert(apos@[aorder@[q2] as int] == q2);
        }
    }
    let ranks = album_ranks(tracks, &firsts);
    assert(na == firsts.len());
    // final keys: album position, disc, track
    let mut keys: Vec<crate::order::SortKey> = Vec::new();
    let mut i2: usize = 0;
    while i2 < n
        invariant
            0 <= i2 <= n,
            n == tracks@.len(),
            ranks@.len() == n,
            apos@.len() == na,
            keys@.len() == i2,
            forall|j: int|
                0 <= j < tracks@.len() ==> (#[trigger] ranks@[j]) < na && tracks@[j]@.album
                    == tracks@[firsts@[ranks@[j] as int] as int]@.album,
            forall|j: int|
                0 <= j < i2 ==> (#[trigger] keys@[j]) == (crate::order::SortKey {
                    rank: apos@[ranks@[j] as int],
                    disc: tracks@[j]@.disc,
                    track: tracks@[j]@.track,
                }),
        decreases n - i2,
    {
        keys.push(
            crate::order::SortKey {
                rank: apos[ranks[i2]],
                disc: tracks[i2].disc,
                track: tracks[i2].track,
            },
        );
        i2 = i2 + 1;
    }
    // the identity, then the sort
    let mut items: Vec<usize> = Vec::new();
    let mut i3: usize = 0;
    while i3 < n
        invariant
            0 <= i3 <= n,
            items@.len() == i3,
            forall|j: int| 0 <= j < i3 ==> (#[trigger] items@[j]) == j,
        decreases n - i3,
    {
        items.push(i3);
        i3 = i3 + 1;
    }
    proof {
        assert(items@.no_duplicates());
        assert forall|x: int| 0 <= x < n implies #[trigger] items@.contains(x as usize) by {
            assert(items@[x] == x as usize);
        }
    }
    let perm = crate::order::sort_indices(items, &keys);
    proof {
        assert(perm@.len() == n);
        assert forall|x: int| 0 <= x < n implies #[trigger] perm@.contains(x as usize) by {
            assert(items@.contains(x as usize));
        }
        // two tracks share an album exactly when they share a rank
        assert forall|x: int, y: int|
            #![trigger keys@[x], keys@[y]]
            0 <= x < n && 0 <= y < n implies ((tracks@[x]@.album == tracks@[y]@.album)
            <==> keys@[x].rank == keys@[y].rank) by {
            if tracks@[x]@.album == tracks@[y]@.album {
                assert(tracks@[firsts@[ranks@[x] as int] as int]@.album
                    == tracks@[firsts@[ranks@[y] as int] as int]@.album);
                if ranks@[x] != ranks@[y] {
                    assert(false);
                }
            }
            if keys@[x].rank == keys@[y].rank {
                assert(apos@[ranks@[x] as int] == apos@[ranks@[y] as int]);
                assert(aorder@[apos@[ranks@[x] as int] as int] == ranks@[x]);
                assert(aorder@[apos@[ranks@[y] as int] as int] == ranks@[y]);
                assert(ranks@[x] == ranks@[y]);
            }
        }
        let pv = Seq::new(perm@.len(), |k: int| tracks@[perm@[k] as int]@);
        assert forall|i: int, j: int, k: int|
            #![trigger pv[i].album, pv[j].album, pv[k].album]
            0 <= i <= j <= k < pv.len() && pv[i].album == pv[k].album implies pv[j].album
            == pv[i].album by {
            let a = perm@[i] as int;
            let b = perm@[j] as int;
            let c = perm@[k] as int;
            if i < j {
                assert(crate::order::idx_lt(keys@, a, b));
            }
            if j < k {
                assert(crate::order::idx_lt(keys@, b, c));
            }
            assert(keys@[a].rank == keys@[c].rank);
            assert(keys@[b].rank == keys@[a].rank);
        }
        assert forall|i: int, j: int|
            #![trigger pv[i].album, pv[j].album]
            0 <= i < j < pv.len() && pv[i].album == pv[j].album implies track_key_le(
            pv[i],
            pv[j],
        ) by {
            let a = perm@[i] as int;
            let b = perm@[j] as int;
            assert(crate::order::idx_lt(keys@, a, b));
            assert(keys@[a].rank == keys@[b].rank);
            assert(keys@[a].disc == pv[i].disc && keys@[a].track == pv[i].track);
            assert(keys@[b].disc == pv[j].disc && keys@[b].track == pv[j].track);
        }
        assert forall|i: int, j: int|
            #![trigger perm@[i], perm@[j]]
            0 <= i < j < perm@.len() && tracks@[perm@[i] as int]@.album
                == tracks@[perm@[j] as int]@.album && tracks@[perm@[i] as int]@.disc
                == tracks@[perm@[j] as int]@.disc && tracks@[perm@[i] as int]@.track
                == tracks@[perm@[j] as int]@.track implies perm@[i] < perm@[j] by {
            let a = perm@[i] as int;
            let b = perm@[j] as int;
            assert(crate::order::idx_lt(keys@, a, b));
            assert(keys@[a].rank == keys@[b].rank);
        }
    }
    perm
}

} // verus!
// === catalog building =========================================================

verus! {

/// Arranging a sequence along a duplicate-free, covering index list
/// leaves its multiset of elements unchanged.
proof fn lemma_perm_multiset<T>(s: Seq<T>, p: Seq<usize>, arranged: Seq<T>)
    requires
        s.len() <= usize::MAX,
        p.len() == s.len(),
        p.no_duplicates(),
        forall|k: int| 0 <= k < p.len() ==> (#[trigger] p[k]) < s.len(),
        forall|x: int| 0 <= x < s.len() ==> #[trigger] p.contains(x as usize),
        arranged.len() == p.len(),
        forall|k: int| 0 <= k < p.len() ==> arranged[k] == s[#[trigger] p[k] as int],
    ensures
        arranged.to_multiset() =~= s.to_multiset(),
    decreases s.len(),
{
    broadcast use vstd::seq_lib::group_to_multiset_ensures;

    if s.len() == 0 {
        assert(arranged =~= Seq::<T>::empty());
    } else {
        let n = s.len() as int;
        assert(p.contains((n - 1) as usize));
        let pos = choose|pos: int| 0 <= pos < p.len() && p[pos] == (n - 1) as usize;
        let p2 = p.remove(pos);
        let a2 = arranged.remove(pos);
        let s2 = s.drop_last();
        crate::order::lemma_remove_facts(p, pos);
        crate::order::lemma_remove_facts(arranged, pos);
        assert(p2.no_duplicates()) by {
            assert forall|i: int, j: int|
                0 <= i < p2.len() && 0 <= j < p2.len() && i != j implies p2[i] != p2[j] by {
                let i0 = if i < pos {
                    i
                } else {
                    i + 1
                };
                let j0 = if j < pos {
                    j
                } else {
                    j + 1
                };
                assert(p2[i] == p[i0] && p2[j] == p[j0]);
            }
        }
        assert forall|k: int| 0 <= k < p2.len() implies (#[trigger] p2[k]) < s2.len() by {
            let k0 = if k < pos {
                k
            } else {
                k + 1
            };
            assert(p2[k] == p[k0]);
            if p[k0] == (n - 1) as usize {
                assert(k0 != pos);
                assert(p[k0] != p[pos]);
                assert(false);
            }
        }
        assert forall|x: int| 0 <= x < s2.len() implies #[trigger] p2.contains(x as usize) by {
            assert(p.contains(x as usize));
            let k = choose|k: int| 0 <= k < p.len() && p[k] == x as usize;
            assert(k != pos);
            if k < pos {
                assert(p2[k] == x as usize);
            } else {
                assert(p2[k - 1] == x as usize);
            }
        }
        assert forall|k: int| 0 <= k < p2.len() implies a2[k] == s2[#[trigger] p2[k] as int] by {
            let k0 = if k < pos {
                k
            } else {
                k + 1
            };
            assert(a2[k] == arranged[k0] && p2[k] == p[k0]);
        }
        lemma_perm_multiset(s2, p2, a2);
        // peel the last element off both sides
        assert(s =~= s2.push(s.last()));
        assert(s.to_multiset() =~= s2.to_multiset().insert(s.last()));
        assert(arranged[pos] == s.last());
        assert(arranged.to_multiset() =~= a2.to_multiset().insert(arranged[pos])) by {
            assert(a2.to_multiset() =~= arranged.to_multiset().remove(arranged[pos]));
            assert(arranged.to_multiset().contains(arranged[pos]));
        }
    }
}

/// The views of a track sequence.
pub open spec fn views(s: Seq<Track>) -> Seq<TrackView> {
    s.map_values(|t: Track| t@)
}

/// One album's run: positions `k` (inclusive) to `e` (exclusive) hold one
/// album, and the run cannot be extended to the right.
pub open spec fn album_run(s: Seq<TrackView>, k: int, e: int) -> bool {
    &&& 0 <= k < e <= s.len()
    &&& (e == s.len() || s[e].album != s[k].album)
    &&& forall|j: int| k <= j < e ==> (#[trigger] s[j]).album == s[k].album
}

/// The album-artist mark is empty except on an album's first track, which
/// carries the album's primary artist.
pub open spec fn album_marks_ok(s: Seq<TrackView>) -> bool {
    &&& forall|k: int|
        0 < k < s.len() && (#[trigger] s[k]).album == s[k - 1].album ==> s[k].album_artist
            == Seq::<char>::empty()
    &&& forall|k: int|
        0 <= k < s.len() && (k == 0 || (#[trigger] s[k]).album != s[k - 1].album) ==> exists|e: int|
            #[trigger] album_run(s, k, e) && is_primary_artist(
                artists_of(s.subrange(k, e)),
                s[k].album_artist,
            )
}

/// One processed album run: its span and its primary artist.
struct RunMark {
    start: usize,
    end: usize,
    artist: String,
}

/// Scan the album run starting at `i` and elect the album's primary
/// artist over it.
fn scan_run(cat: &Vec<Track>, i: usize) -> (r: (usize, String))
    requires
        i < cat@.len(),
    ensures
        i < r.0 <= cat@.len(),
        album_run(views(cat@), i as int, r.0 as int),
        is_primary_artist(artists_of(views(cat@).subrange(i as int, r.0 as int)), r.1@),
{
    let n = cat.len();
    // find the end of this album's run
    let mut e: usize = i + 1;
    loop
        invariant_except_break
            i < e <= n,
            n == cat@.len(),
            forall|j: int| i <= j < e ==> (#[trigger] cat@[j])@.album == cat@[i as int]@.album,
        ensures
            i < e <= n,
            n == cat@.len(),
            forall|j: int| i <= j < e ==> (#[trigger] cat@[j])@.album == cat@[i as int]@.album,
            e == n || cat@[e as int]@.album != cat@[i as int]@.album,
        decreases n - e,
    {
        if e == n {
            break;
        }
        if !cat[e].album.eq(&cat[i].album) {
            break;
        }
        e = e + 1;
    }
    // elect the primary artist of the run
    let mut alb = Album::new();
    let mut q: usize = i;
    while q < e
        invariant
            i <= q <= e,
            e <= n,
            n == cat@.len(),
            alb.wf(),
            alb@ =~= views(cat@).subrange(i as int, q as int),
        decreases e - q,
    {
        alb.push(cat[q].duplicate());
        proof {
            assert(alb@ =~= views(cat@).subrange(i as int, q + 1));
        }
        q = q + 1;
    }
    let a = alb.artist();
    proof {
        let cv = views(cat@);
        assert(album_run(cv, i as int, e as int)) by {
            assert(forall|j: int| i <= j < e ==> (#[trigger] cv[j]).album == cv[i as int].album);
        }
        assert(alb@.len() > 0);
        assert(is_primary_artist(artists_of(alb@), a@));
    }
    (e, a)
}

/// Is `k` the start of one of the runs?
spec fn is_start_in(rs: Seq<RunMark>, k: int) -> bool {
    exists|m: int| 0 <= m < rs.len() && rs[m].start == k
}

/// Chained runs keep their spans in order.
proof fn lemma_chain_monotone(rs: Seq<RunMark>)
    requires
        forall|m: int| 0 <= m < rs.len() ==> (#[trigger] rs[m]).start < rs[m].end,
        forall|m: int| 0 <= m && m + 1 < rs.len() ==> (#[trigger] rs[m]).end == rs[m + 1].start,
    ensures
        forall|m1: int, m2: int|
            0 <= m1 < m2 < rs.len() ==> (#[trigger] rs[m1]).end <= (#[trigger] rs[m2]).start,
    decreases rs.len(),
{
    if rs.len() > 1 {
        assert(forall|m: int| 0 <= m < rs.len() - 1 ==> rs.drop_last()[m] == rs[m]);
        assert forall|m: int| 0 <= m && m + 1 < rs.drop_last().len() implies (#[trigger] rs.drop_last()[m]).end
            == rs.drop_last()[m + 1].start by {
            assert(rs.drop_last()[m] == rs[m] && rs.drop_last()[m + 1] == rs[m + 1]);
        }
        lemma_chain_monotone(rs.drop_last());
        assert forall|m1: int, m2: int|
            0 <= m1 < m2 < rs.len() implies (#[trigger] rs[m1]).end <= (#[trigger] rs[m2]).start by {
            if m2 == rs.len() - 1 {
                if m1 + 1 < m2 {
                    assert(rs[m1].end <= rs[m2 - 1].start);
                    assert(rs[m2 - 1].end == rs[m2].start);
                }
            }
        }
    }
}

/// Within one album, tracks stand in strictly ascending (disc, track)
/// order wherever their pairs differ; only tracks sharing both numbers
/// stand as equals, in their input order.
pub proof fn lemma_album_tracks_strict(s: Seq<TrackView>, i: int, j: int)
    requires
        catalog_tracks_ordered(s),
        0 <= i < j < s.len(),
        s[i].album == s[j].album,
        !(s[i].disc == s[j].disc && s[i].track == s[j].track),
    ensures
        s[i].disc < s[j].disc || (s[i].disc == s[j].disc && s[i].track < s[j].track),
{
}

/// Build the catalog: arrange `tracks` in catalog order and mark each
/// album's first track with the album's primary artist, leaving the mark
/// empty everywhere else.
pub fn build_catalog(tracks: Vec<Track>) -> (cat: Vec<Track>)
    ensures
        cat@.len() == tracks@.len(),
        // the same tracks, up to the album-artist mark
        cat@.map_values(|t: Track| track_core(t@)).to_multiset() =~= tracks@.map_values(
            |t: Track| track_core(t@),
        ).to_multiset(),
        catalog_grouped(views(cat@)),
        catalog_tracks_ordered(views(cat@)),
        album_marks_ok(views(cat@)),
{
    let n = tracks.len();
    let perm = catalog_order(&tracks);
    let ghost pv = Seq::new(perm@.len(), |k: int| tracks@[perm@[k] as int]@);
    // arrange, with the mark cleared
    let mut cat: Vec<Track> = Vec::new();
    let mut k: usize = 0;
    while k < n
        invariant
            0 <= k <= n,
            n == tracks@.len(),
            perm@.len() == n,
            forall|k2: int| 0 <= k2 < n ==> (#[trigger] perm@[k2]) < n,
            cat@.len() == k,
            forall|k2: int|
                0 <= k2 < k ==> track_core((#[trigger] cat@[k2])@) == track_core(
                    tracks@[perm@[k2] as int]@,
                ),
            forall|k2: int|
                0 <= k2 < k ==> ((#[trigger] cat@[k2])@.album_artist == Seq::<char>::empty()),
        decreases n - k,
    {
        let mut t = tracks[perm[k]].duplicate();
        t.album_artist = String::new();
        cat.push(t);
        k = k + 1;
    }
    let ghost cv0 = views(cat@);
    // scan the album runs and their primary artists
    let mut runs: Vec<RunMark> = Vec::new();
    let mut i: usize = 0;
    while i < n
        invariant
            0 <= i <= n,
            n == cat@.len(),
            cv0 == views(cat@),
            runs@.len() == 0 <==> i == 0,
            runs@.len() > 0 ==> runs@[0].start == 0 && runs@[runs@.len() - 1].end == i,
            forall|m: int| 0 <= m < runs@.len() ==> (#[trigger] runs@[m]).start < runs@[m].end <= i,
            forall|m: int| 0 <= m && m + 1 < runs@.len() ==> (#[trigger] runs@[m]).end == runs@[m + 1].start,
            forall|m: int|
                0 <= m < runs@.len() ==> album_run(
                    cv0,
                    (#[trigger] runs@[m]).start as int,
                    runs@[m].end as int,
                ) && is_primary_artist(
                    artists_of(cv0.subrange(runs@[m].start as int, runs@[m].end as int)),
                    runs@[m].artist@,
                ),
        decreases n - i,
    {
        let r = scan_run(&cat, i);
        let e = r.0;
        let ghost old_runs = runs@;
        runs.push(RunMark { start: i, end: e, artist: r.1 });
        proof {
            let rn = runs@.len();
            assert(runs@[rn - 1].start == i && runs@[rn - 1].end == e);
            assert(forall|m: int| 0 <= m < rn - 1 ==> runs@[m] == old_runs[m]);
            assert forall|m: int| 0 <= m && m + 1 < rn implies (#[trigger] runs@[m]).end
                == runs@[m + 1].start by {
                if m + 1 < rn - 1 {
                    assert(runs@[m] == old_runs[m] && runs@[m + 1] == old_runs[m + 1]);
                } else {
                    assert(runs@[m] == old_runs[old_runs.len() - 1]);
                    assert(old_runs[old_runs.len() - 1].end == i);
                }
            }
        }
        i = e;
    }
    proof {
        lemma_chain_monotone(runs@);
    }
    // apply the marks
    let ghost all_runs = runs@;
    let mut m: usize = 0;
    while m < runs.len()
        invariant
            0 <= m <= runs@.len(),
            runs@ == all_runs,
            n == cat@.len(),
            cv0.len() == n,
            forall|m2: int| 0 <= m2 < all_runs.len() ==> (#[trigger] all_runs[m2]).start < all_runs[m2].end <= n,
            forall|m1: int, m2: int|
                0 <= m1 < m2 < all_runs.len() ==> (#[trigger] all_runs[m1]).end <= (
                #[trigger] all_runs[m2]).start,
            forall|k2: int| 0 <= k2 < n ==> track_core((#[trigger] cat@[k2])@) == track_core(cv0[k2]),
            forall|m2: int|
                0 <= m2 < m ==> (#[trigger] cat@[all_runs[m2].start as int])@.album_artist
                    == all_runs[m2].artist@,
            forall|k2: int|
                0 <= k2 < n && !is_start_in(all_runs.subrange(0, m as int), k2) ==> (
                #[trigger] cat@[k2])@.album_artist == Seq::<char>::empty(),
        decreases runs@.len() - m,
    {
        let st = runs[m].start;
        let art = runs[m].artist.clone();
        let ghost pre = cat@;
        *&mut vstd::std_specs::vec::vec_index_mut(&mut cat, st).album_artist = art;
        proof {
            assert(forall|k2: int| 0 <= k2 < n && k2 != st ==> (#[trigger] cat@[k2]) == pre[k2]);
            assert(cat@[st as int]@.album_artist == all_runs[m as int].artist@);
            assert(track_core(cat@[st as int]@) == track_core(pre[st as int]@));
            // distinct runs have distinct starts
            assert forall|m2: int| 0 <= m2 < m implies (#[trigger] cat@[all_runs[m2].start as int])@.album_artist
                == all_runs[m2].artist@ by {
                assert(all_runs[m2].end <= all_runs[m as int].start);
                assert(all_runs[m2].start != st);
            }
            assert forall|k2: int|
                0 <= k2 < n && !is_start_in(all_runs.subrange(0, m + 1), k2) implies (
                #[trigger] cat@[k2])@.album_artist == Seq::<char>::empty() by {
                assert(k2 != st) by {
                    if k2 == st {
                        assert(all_runs.subrange(0, m + 1)[m as int].start == k2);
                    }
                }
                assert(!is_start_in(all_runs.subrange(0, m as int), k2)) by {
                    if is_start_in(all_runs.subrange(0, m as int), k2) {
                        let m2 = choose|m2: int|
                            0 <= m2 < m && all_runs.subrange(0, m as int)[m2].start == k2;
                        assert(all_runs.subrange(0, m + 1)[m2].start == k2);
                    }
                }
            }
        }
        m = m + 1;
    }
    proof {
        let cv = views(cat@);
        assert forall|k2: int| 0 <= k2 < n implies ((#[trigger] cv[k2]).album == cv0[k2].album
            && cv[k2].artist == cv0[k2].artist && cv[k2].disc == cv0[k2].disc && cv[k2].track
            == cv0[k2].track) by {
            assert(track_core(cat@[k2]@) == track_core(cv0[k2]));
        }
        assert forall|k2: int| 0 <= k2 < n implies ((#[trigger] cv0[k2]).album == pv[k2].album
            && cv0[k2].disc == pv[k2].disc && cv0[k2].track == pv[k2].track) by {
            assert(track_core(cv0[k2]) == track_core(tracks@[perm@[k2] as int]@));
        }
        assert(catalog_grouped(cv)) by {
            assert forall|i2: int, j: int, k3: int|
                #![trigger cv[i2].album, cv[j].album, cv[k3].album]
                0 <= i2 <= j <= k3 < cv.len() && cv[i2].album == cv[k3].album implies cv[j].album
                == cv[i2].album by {
                assert(catalog_grouped(pv));
                assert(pv[j].album == pv[i2].album);
            }
        }
        assert(catalog_tracks_ordered(cv)) by {
            assert forall|i2: int, j: int|
                #![trigger cv[i2].album, cv[j].album]
                0 <= i2 < j < cv.len() && cv[i2].album == cv[j].album implies track_key_le(
                cv[i2],
                cv[j],
            ) by {
                assert(catalog_tracks_ordered(pv));
                assert(track_key_le(pv[i2], pv[j]));
            }
        }
        // the marks are in order
        assert(all_runs.subrange(0, all_runs.len() as int) =~= all_runs);
        assert(cv.len() > 0 ==> all_runs.len() > 0);
        lemma_marks_from_runs(all_runs, cv0, cv);
        // the multiset of cores is a permutation of the input's
        let cores = tracks@.map_values(|t: Track| track_core(t@));
        let acores = cat@.map_values(|t: Track| track_core(t@));
        assert forall|k2: int| 0 <= k2 < n implies acores[k2] == cores[#[trigger] perm@[k2] as int] by {
            assert(track_core(cat@[k2]@) == track_core(cv0[k2]));
            assert(track_core(cv0[k2]) == track_core(tracks@[perm@[k2] as int]@));
        }
        lemma_perm_multiset(cores, perm@, acores);
    }
    cat
}

/// Chained runs starting at zero and ending at `n` cover every position.
proof fn lemma_runs_cover(rs: Seq<RunMark>, k: int, n: int)
    requires
        0 <= k < n,
        rs.len() > 0,
        rs[0].start == 0,
        rs[rs.len() - 1].end == n,
        forall|m: int| 0 <= m < rs.len() ==> (#[trigger] rs[m]).start < rs[m].end <= n,
        forall|m: int| 0 <= m && m + 1 < rs.len() ==> (#[trigger] rs[m]).end == rs[m + 1].start,
    ensures
        exists|m: int| 0 <= m < rs.len() && (#[trigger] rs[m]).start <= k < rs[m].end,
    decreases rs.len(),
{
    lemma_chain_monotone(rs);
    if k >= rs[rs.len() - 1].start {
        assert(rs[rs.len() - 1].start <= k < rs[rs.len() - 1].end);
    } else {
        assert(rs.len() > 1) by {
            if rs.len() == 1 {
                assert(rs[0].start == 0);
            }
        }
        let rs2 = rs.drop_last();
        assert(forall|m: int| 0 <= m < rs2.len() ==> rs2[m] == rs[m]);
        assert forall|m: int| 0 <= m && m + 1 < rs2.len() implies (#[trigger] rs2[m]).end
            == rs2[m + 1].start by {
            assert(rs2[m] == rs[m] && rs2[m + 1] == rs[m + 1]);
        }
        assert(rs2[rs2.len() - 1].end == rs[rs.len() - 2].end);
        assert(k < rs[rs.len() - 2].end) by {
            assert(rs[rs.len() - 2].end == rs[rs.len() - 1].start);
        }
        assert forall|m: int| 0 <= m < rs2.len() implies (#[trigger] rs2[m]).start < rs2[m].end
            <= rs[rs.len() - 2].end by {
            assert(rs2[m] == rs[m]);
            if m < rs.len() - 2 {
                assert(rs[m].end <= rs[rs.len() - 2].start);
            }
        }
        lemma_runs_cover(rs2, k, rs[rs.len() - 2].end as int);
        let m = choose|m: int| 0 <= m < rs2.len() && (#[trigger] rs2[m]).start <= k < rs2[m].end;
        assert(rs[m].start <= k < rs[m].end);
    }
}

/// The marks written along the runs satisfy `album_marks_ok`.
#[verifier::rlimit(50)]
proof fn lemma_marks_from_runs(rs: Seq<RunMark>, cv0: Seq<TrackView>, cv: Seq<TrackView>)
    requires
        cv.len() == cv0.len(),
        cv.len() > 0 ==> rs.len() > 0,
        rs.len() > 0 ==> rs[0].start == 0 && rs[rs.len() - 1].end == cv.len(),
        forall|m: int| 0 <= m < rs.len() ==> (#[trigger] rs[m]).start < rs[m].end <= cv.len(),
        forall|m: int| 0 <= m && m + 1 < rs.len() ==> (#[trigger] rs[m]).end == rs[m + 1].start,
        forall|m1: int, m2: int|
            0 <= m1 < m2 < rs.len() ==> (#[trigger] rs[m1]).end <= (#[trigger] rs[m2]).start,
        forall|m: int|
            0 <= m < rs.len() ==> album_run(cv0, (#[trigger] rs[m]).start as int, rs[m].end as int)
                && is_primary_artist(
                artists_of(cv0.subrange(rs[m].start as int, rs[m].end as int)),
                rs[m].artist@,
            ),
        forall|k: int|
            0 <= k < cv.len() ==> (#[trigger] cv[k]).album == cv0[k].album && cv[k].artist
                == cv0[k].artist,
        forall|m: int|
            0 <= m < rs.len() ==> cv[(#[trigger] rs[m]).start as int].album_artist == rs[m].artist@,
        forall|k: int|
            0 <= k < cv.len() && !is_start_in(rs, k) ==> (#[trigger] cv[k]).album_artist
                == Seq::<char>::empty(),
    ensures
        album_marks_ok(cv),
{
    let n = cv.len() as int;
    assert forall|k2: int|
        0 < k2 < n && (#[trigger] cv[k2]).album == cv[k2 - 1].album implies cv[k2].album_artist
        == Seq::<char>::empty() by {
        lemma_runs_cover(rs, k2, n);
        let m2 = choose|m2: int| 0 <= m2 < rs.len() && (#[trigger] rs[m2]).start <= k2 < rs[m2].end;
        assert(!is_start_in(rs, k2)) by {
            if is_start_in(rs, k2) {
                let m3 = choose|m3: int| 0 <= m3 < rs.len() && rs[m3].start == k2;
                assert(album_run(cv0, rs[m3].start as int, rs[m3].end as int));
                assert(m3 != m2) by {
                    if m3 == m2 {
                        // then k2 starts its run, but its album continues
                        // from the previous run, which ends just before
                        if m2 > 0 {
                            assert(rs[m2 - 1].end == rs[m2].start);
                            assert(album_run(cv0, rs[m2 - 1].start as int, rs[m2 - 1].end as int));
                            assert(cv0[k2 - 1].album == cv0[rs[m2 - 1].start as int].album);
                            assert(cv0[rs[m2 - 1].end as int].album != cv0[rs[m2 - 1].start as int].album);
                            assert(false);
                        } else {
                            assert(rs[0].start == 0);
                            assert(false);
                        }
                    }
                }
                if m3 < m2 {
                    assert(rs[m3].end <= rs[m2].start);
                    assert(false);
                } else {
                    assert(rs[m2].end <= rs[m3].start);
                    assert(false);
                }
            }
        }
    }
    assert forall|k2: int|
        0 <= k2 < n && (k2 == 0 || (#[trigger] cv[k2]).album != cv[k2 - 1].album)
            implies exists|e: int|
        #[trigger] album_run(cv, k2, e) && is_primary_artist(
            artists_of(cv.subrange(k2, e)),
            cv[k2].album_artist,
        ) by {
        lemma_runs_cover(rs, k2, n);
        let m2 = choose|m2: int| 0 <= m2 < rs.len() && (#[trigger] rs[m2]).start <= k2 < rs[m2].end;
        let st = rs[m2].start as int;
        let en = rs[m2].end as int;
        assert(album_run(cv0, st, en));
        assert(k2 == st) by {
            if k2 > st {
                assert(cv0[k2].album == cv0[st].album);
                assert(cv0[k2 - 1].album == cv0[st].album);
                assert(cv[k2].album == cv[k2 - 1].album);
                assert(false);
            }
        }
        assert(cv[st].album_artist == rs[m2].artist@);
        assert(album_run(cv, st, en)) by {
            assert(forall|j: int| st <= j < en ==> (#[trigger] cv[j]).album == cv[st].album);
            if en < n {
                assert(cv[en].album == cv0[en].album);
            }
        }
        assert(artists_of(cv.subrange(st, en)) =~= artists_of(cv0.subrange(st, en))) by {
            assert(forall|j: int|
                0 <= j < en - st ==> (#[trigger] cv.subrange(st, en)[j]).artist == cv0.subrange(
                    st,
                    en,
                )[j].artist);
        }
        assert(is_primary_artist(artists_of(cv.subrange(k2, en)), cv[k2].album_artist));
    }
}

} // verus!
