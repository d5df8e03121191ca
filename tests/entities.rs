use interlude::shared_item::entity::{albums_equivalent, artists_equivalent, songs_equivalent};
use interlude::shared_item::norm::{normalize_artist_name, normalize_song_title, strip_common_punct};
use interlude::shared_item::{AlbumData, ArtistData, Data, SongData};

#[test]
fn blinding_lights_variants_share_a_key() {
    let a = normalize_song_title("Blinding Lights (feat. ROSALÍA)");
    let b = normalize_song_title("Blinding Lights ft. Rosalia");
    assert_eq!(a, b);
    assert_eq!(a, "blinding lights");
}

#[test]
fn artist_order_does_not_matter() {
    assert_eq!(normalize_artist_name("B & A"), normalize_artist_name("A & B"));
    assert_eq!(normalize_artist_name("B & A"), "a and b");
}

#[test]
fn normalised_titles_stay_put_on_plain_input() {
    let once = normalize_song_title("Hôtel California – Live 1999");
    assert_eq!(normalize_song_title(&once), once);
}

#[test]
fn punctuation_is_stripped() {
    assert_eq!(strip_common_punct("a.b,c!d?"), "abcd");
    assert_eq!(strip_common_punct("é-ü"), "éü");
}

#[test]
fn albums_with_upcs_compare_by_upc_only() {
    let a = AlbumData::with_limited_info("Eternal Blue", "123");
    let b = AlbumData::with_limited_info("Completely Different", "123");
    let c = AlbumData::with_limited_info("Eternal Blue", "456");
    assert!(albums_equivalent(&a, &b));
    assert!(!albums_equivalent(&a, &c));
    assert!(a == b);
    assert!(a != c);
}

#[test]
fn albums_without_upc_compare_by_title_songs_and_artist() {
    let song = |n: &str, isrc: &str| SongData::new(n, isrc, 200, Vec::new(), Vec::new());
    let artist = || ArtistData::without_albums("Spiritbox");
    let a = AlbumData::new(
        "Eternal Blue (Deluxe Edition)",
        "",
        vec![song("Sun Killer", "X1"), song("Hurt You", "X2")],
        vec![artist()],
    );
    let b = AlbumData::new(
        "Eternal Blue",
        "",
        vec![song("Sun Killer", "X1"), song("Hurt You", "X2")],
        vec![artist()],
    );
    let c = AlbumData::new("Eternal Blue", "", vec![song("Sun Killer", "X1")], vec![artist()]);
    assert!(albums_equivalent(&a, &b));
    assert!(!albums_equivalent(&a, &c));
}

#[test]
fn songs_need_matching_isrc() {
    let a = SongData::new("Heavy Is the Crown", "USABC", 200, Vec::new(), Vec::new());
    let b = SongData::new("Heavy Is The Crown", "USABC", 202, Vec::new(), Vec::new());
    let c = SongData::new("Heavy Is the Crown", "USABC", 203, Vec::new(), Vec::new());
    let d = SongData::new("Heavy Is the Crown", "", 200, Vec::new(), Vec::new());
    assert!(songs_equivalent(&a, &b));
    assert!(!songs_equivalent(&a, &c));
    assert!(!songs_equivalent(&d, &d));
}

#[test]
fn songs_with_far_durations_match_on_metadata() {
    let album = || AlbumData::with_limited_info("Album", "U1");
    let artist = || ArtistData::without_albums("Band");
    let a = SongData::new("Song", "ISRC1", 100, vec![album()], vec![artist()]);
    let b = SongData::new("Song (Remastered 2014)", "ISRC1", 300, vec![album()], vec![artist()]);
    let c = SongData::new("Song", "ISRC1", 300, Vec::new(), vec![artist()]);
    assert!(songs_equivalent(&a, &b));
    assert!(!songs_equivalent(&a, &c));
}

#[test]
fn artists_compare_by_name_or_shared_albums() {
    let a = ArtistData::without_albums("Beyoncé & JAY-Z");
    let b = ArtistData::without_albums("jay z and beyonce");
    assert!(artists_equivalent(&a, &b));
    let mut c = ArtistData::without_albums("X");
    c.add_album(&AlbumData::with_limited_info("One", "1"));
    c.add_multiple_albums(&vec![
        AlbumData::with_limited_info("Two", "2"),
        AlbumData::with_limited_info("Three", "3"),
    ]);
    let d = ArtistData::new("Y", vec![AlbumData::with_limited_info("Two", "2")]);
    let e = ArtistData::new("X", vec![AlbumData::with_limited_info("Four", "4")]);
    assert!(artists_equivalent(&c, &d));
    assert!(artists_equivalent(&d, &c));
    assert!(!artists_equivalent(&c, &e));
}

#[test]
fn data_names_its_kind() {
    let s = Data::Song(SongData::new("S", "", 1, Vec::new(), Vec::new()));
    let a = Data::Album(AlbumData::with_limited_info("A", ""));
    let r = Data::Artist(ArtistData::without_albums("R"));
    assert_eq!(s.get_type(), "Song");
    assert_eq!(a.get_type(), "Album");
    assert_eq!(r.get_type(), "Artist");
    assert_eq!(a.get_display_name(), "A");
}

fn album_of(songs: Vec<SongData>) -> AlbumData {
    AlbumData::new("X", "", songs, vec![ArtistData::without_albums("Band")])
}

#[test]
fn album_equivalence_is_symmetric() {
    let s = || SongData::new("S", "I1", 200, Vec::new(), Vec::new());
    let t = || SongData::new("T", "I2", 200, Vec::new(), Vec::new());
    let a = album_of(vec![s(), s()]);
    let b = album_of(vec![s(), t()]);
    assert!(!albums_equivalent(&a, &b));
    assert!(!albums_equivalent(&b, &a));
    let c = album_of(vec![s(), t()]);
    assert!(albums_equivalent(&b, &c));
    assert!(albums_equivalent(&c, &b));
    let song_a = SongData::new("Song", "Q1", 100, vec![a], vec![ArtistData::without_albums("Band")]);
    let song_b = SongData::new("Song", "Q1", 300, vec![b], vec![ArtistData::without_albums("Band")]);
    assert_eq!(songs_equivalent(&song_a, &song_b), songs_equivalent(&song_b, &song_a));
    assert!(!songs_equivalent(&song_a, &song_b));
}

#[test]
fn artist_equivalence_is_symmetric() {
    let one = || AlbumData::with_limited_info("One", "1");
    let two = || AlbumData::with_limited_info("Two", "2");
    let x = ArtistData::new("X", vec![one(), two()]);
    let y = ArtistData::new("Y", vec![one(), AlbumData::with_limited_info("Three", "3")]);
    assert_eq!(artists_equivalent(&x, &y), artists_equivalent(&y, &x));
    assert!(artists_equivalent(&x, &y));
    let z = ArtistData::new("Z", vec![AlbumData::with_limited_info("Four", "4"), two()]);
    assert!(artists_equivalent(&x, &z));
    assert!(artists_equivalent(&z, &x));
}
