use buck::catalog::{build_catalog, catalog_order, Album, Track};

fn t(title: &str, artist: &str, album: &str, track: u32, disc: u32, year: i32) -> Track {
    Track {
        path: format!("/music/{}.mp3", title),
        title: title.to_string(),
        artist: artist.to_string(),
        album: album.to_string(),
        track,
        disc,
        year,
        album_artist: String::new(),
        cover: None,
    }
}

#[test]
fn groups_albums_and_orders_tracks() {
    let tracks = vec![
        t("Song A2", "ArtX", "Alb1", 2, 1, 2000),
        t("Song B1", "ArtY", "Alb2", 1, 1, 1999),
        t("Song A1", "ArtX", "Alb1", 1, 1, 2000),
        t("Song B2", "ArtZ", "Alb2", 2, 1, 1999),
        t("Song B3", "ArtY", "Alb2", 3, 1, 1999),
    ];
    let cat = build_catalog(tracks);
    let titles: Vec<&str> = cat.iter().map(|x| x.title.as_str()).collect();
    assert_eq!(titles, vec!["Song A1", "Song A2", "Song B1", "Song B2", "Song B3"]);
    // every album's tracks stand together
    let albums: Vec<&str> = cat.iter().map(|x| x.album.as_str()).collect();
    assert_eq!(albums, vec!["Alb1", "Alb1", "Alb2", "Alb2", "Alb2"]);
    // the first track of each album carries its primary artist
    assert_eq!(cat[0].album_artist, "ArtX");
    assert_eq!(cat[1].album_artist, "");
    assert_eq!(cat[2].album_artist, "ArtY");
    assert_eq!(cat[3].album_artist, "");
    assert_eq!(cat[4].album_artist, "");
}

#[test]
fn albums_order_by_descending_year_for_one_artist() {
    let tracks = vec![
        t("Old", "Same", "Early", 1, 1, 2001),
        t("New", "Same", "Late", 1, 1, 2005),
    ];
    let cat = build_catalog(tracks);
    assert_eq!(cat[0].title, "New");
    assert_eq!(cat[1].title, "Old");
}

#[test]
fn case_insensitive_artists_count_as_one() {
    // equal artists up to ASCII case sort by year, not by name
    let tracks = vec![
        t("Old", "same", "Aaaa", 1, 1, 2001),
        t("New", "SAME", "Zzzz", 1, 1, 2005),
    ];
    let cat = build_catalog(tracks);
    assert_eq!(cat[0].title, "New");
    assert_eq!(cat[1].title, "Old");
}

#[test]
fn sorting_is_stable_for_equal_keys() {
    let tracks = vec![
        t("first", "A", "Alb", 5, 1, 2000),
        t("second", "A", "Alb", 5, 1, 2000),
        t("third", "A", "Alb", 5, 1, 2000),
    ];
    let cat = build_catalog(tracks);
    let titles: Vec<&str> = cat.iter().map(|x| x.title.as_str()).collect();
    assert_eq!(titles, vec!["first", "second", "third"]);
}

#[test]
fn discs_order_before_track_numbers() {
    let tracks = vec![
        t("d2t1", "A", "Alb", 1, 2, 2000),
        t("d1t9", "A", "Alb", 9, 1, 2000),
        t("d1t2", "A", "Alb", 2, 1, 2000),
    ];
    let cat = build_catalog(tracks);
    let titles: Vec<&str> = cat.iter().map(|x| x.title.as_str()).collect();
    assert_eq!(titles, vec!["d1t2", "d1t9", "d2t1"]);
}

#[test]
fn catalog_order_is_a_permutation() {
    let tracks = vec![
        t("c", "X", "P", 3, 1, 1990),
        t("a", "X", "P", 1, 1, 1990),
        t("b", "X", "P", 2, 1, 1990),
    ];
    let perm = catalog_order(&tracks);
    let mut seen = vec![false; tracks.len()];
    for &p in perm.iter() {
        assert!(p < tracks.len());
        assert!(!seen[p]);
        seen[p] = true;
    }
    assert!(seen.iter().all(|&s| s));
    assert_eq!(perm, vec![1, 2, 0]);
}

#[test]
fn primary_artist_is_the_most_frequent_earliest() {
    let mut album = Album::new();
    album.push(t("1", "Duo", "Alb", 1, 1, 2000));
    album.push(t("2", "Solo", "Alb", 2, 1, 2000));
    album.push(t("3", "Duo", "Alb", 3, 1, 2000));
    assert_eq!(album.artist(), "Duo");

    // a tie keeps the artist met first
    let mut tie = Album::new();
    tie.push(t("1", "First", "Alb", 1, 1, 2000));
    tie.push(t("2", "Second", "Alb", 2, 1, 2000));
    assert_eq!(tie.artist(), "First");

    let empty = Album::new();
    assert_eq!(empty.artist(), "");
}

#[test]
fn duplicate_copies_every_field() {
    let mut tr = t("Ti", "Ar", "Al", 7, 2, 1987);
    tr.cover = Some(vec![1, 2, 3]);
    let d = tr.duplicate();
    assert_eq!(d, tr);
}
