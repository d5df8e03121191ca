//! Songs, albums and artists, and their fuzzy equivalence.
use vstd::prelude::*;
use crate::shared_item::norm::{
    album_title_key, artist_name_key, normalize_album_title, normalize_artist_name,
    normalize_song_title, song_title_key,
};

verus! {

/// A song as one provider describes it.
#[derive(Debug)]
pub struct SongData {
    pub display_name: String,
    norm_name: String,
    pub isrc: String,
    duration: u64,
    pub albums: Vec<AlbumData>,
    artists: Vec<ArtistData>,
}

/// An album as one provider describes it.
#[derive(Debug)]
pub struct AlbumData {
    pub display_name: String,
    norm_name: String,
    songs: Vec<SongData>,
    artists: Vec<ArtistData>,
    pub upc: String,
}

/// An artist as one provider describes it.
#[derive(Debug)]
pub struct ArtistData {
    pub display_name: String,
    norm_name: String,
    albums: Vec<AlbumData>,
}

// ---------------------------------------------------------------------------
// Songs

/// Some song of `ys` is equivalent to `x`.
pub closed spec fn song_in(x: SongData, ys: Seq<SongData>) -> bool
    decreases x, ys.len() + 1,
{
    if ys.len() == 0 {
        false
    } else {
        song_in(x, ys.drop_last()) || songs_equiv(x, ys.last())
    }
}

/// How many songs of `xs` have an equivalent in `ys`.
pub closed spec fn songs_found(xs: Seq<SongData>, ys: Seq<SongData>) -> nat
    decreases xs, 0int,
{
    if xs.len() == 0 {
        0
    } else {
        songs_found(xs.drop_last(), ys) + if song_in(xs.last(), ys) {
            1nat
        } else {
            0nat
        }
    }
}

/// Some song of `xs` is equivalent to `y`.
pub closed spec fn song_among(xs: Seq<SongData>, y: SongData) -> bool
    decreases xs, 1int,
{
    if xs.len() == 0 {
        false
    } else {
        song_among(xs.drop_last(), y) || songs_equiv(xs.last(), y)
    }
}

/// How many songs of `ys` have an equivalent in `xs`.
pub closed spec fn songs_found_among(xs: Seq<SongData>, ys: Seq<SongData>) -> nat
    decreases xs, ys.len() + 2,
{
    if ys.len() == 0 {
        0
    } else {
        songs_found_among(xs, ys.drop_last()) + if song_among(xs, ys.last()) {
            1nat
        } else {
            0nat
        }
    }
}

/// Two songs are the same recording: their ISRCs are non-empty and equal,
/// and either their durations differ by at most two seconds, or their
/// normalised titles are equal and they share an album and an artist.
pub closed spec fn songs_equiv(a: SongData, b: SongData) -> bool
    decreases a, 0int,
{
    let isrc_match = a.isrc@.len() > 0 && a.isrc@ == b.isrc@;
    let dur_match = (a.duration as u128) <= (b.duration as u128) + 2 && (b.duration as u128)
        <= (a.duration as u128) + 2;
    let name_match = a.norm_name@ == b.norm_name@;
    isrc_match && (dur_match || (name_match && albums_meet(a.albums@, b.albums@) && artists_meet(
        a.artists@,
        b.artists@,
    )))
}

// ---------------------------------------------------------------------------
// Albums

/// Some album of `ys` is equivalent to `x`.
pub closed spec fn album_in(x: AlbumData, ys: Seq<AlbumData>) -> bool
    decreases x, ys.len() + 1,
{
    if ys.len() == 0 {
        false
    } else {
        album_in(x, ys.drop_last()) || albums_equiv(x, ys.last())
    }
}

/// Some album of `xs` is equivalent to some album of `ys`.
pub closed spec fn albums_meet(xs: Seq<AlbumData>, ys: Seq<AlbumData>) -> bool
    decreases xs, 0int,
{
    if xs.len() == 0 {
        false
    } else {
        albums_meet(xs.drop_last(), ys) || album_in(xs.last(), ys)
    }
}

/// Some album of `xs` is equivalent to `y`.
pub closed spec fn album_among(xs: Seq<AlbumData>, y: AlbumData) -> bool
    decreases xs, 1int,
{
    if xs.len() == 0 {
        false
    } else {
        album_among(xs.drop_last(), y) || albums_equiv(xs.last(), y)
    }
}

/// How many albums of `xs` have an equivalent in `ys`.
pub closed spec fn albums_found(xs: Seq<AlbumData>, ys: Seq<AlbumData>) -> nat
    decreases xs, 0int,
{
    if xs.len() == 0 {
        0
    } else {
        albums_found(xs.drop_last(), ys) + if album_in(xs.last(), ys) {
            1nat
        } else {
            0nat
        }
    }
}

/// How many albums of `ys` have an equivalent in `xs`.
pub closed spec fn albums_found_among(xs: Seq<AlbumData>, ys: Seq<AlbumData>) -> nat
    decreases xs, ys.len() + 2,
{
    if ys.len() == 0 {
        0
    } else {
        albums_found_among(xs, ys.drop_last()) + if album_among(xs, ys.last()) {
            1nat
        } else {
            0nat
        }
    }
}

/// `ceil(0.9 * n)`.
pub open spec fn ninety_percent(n: nat) -> nat {
    (9 * n + 9) / 10
}

/// `ceil(0.5 * n)`.
pub open spec fn half(n: nat) -> nat {
    (n + 1) / 2
}

/// Two albums are the same release. When either has a UPC, exactly when the
/// UPCs are equal. Otherwise their normalised titles are equal, for each
/// album at least ninety percent (rounded up) of the larger song count of
/// its songs have an equivalent in the other, and they share an artist.
pub closed spec fn albums_equiv(a: AlbumData, b: AlbumData) -> bool
    decreases a, 0int,
{
    if a.upc@.len() > 0 || b.upc@.len() > 0 {
        a.upc@ == b.upc@
    } else {
        let need = ninety_percent(vstd::math::max(a.songs@.len() as int, b.songs@.len() as int) as nat);
        &&& a.norm_name@ == b.norm_name@
        &&& songs_found(a.songs@, b.songs@) >= need
        &&& songs_found_among(a.songs@, b.songs@) >= need
        &&& artists_meet(a.artists@, b.artists@)
    }
}

// ---------------------------------------------------------------------------
// Artists

/// Some artist of `ys` is equivalent to `x`.
pub closed spec fn artist_in(x: ArtistData, ys: Seq<ArtistData>) -> bool
    decreases x, ys.len() + 1,
{
    if ys.len() == 0 {
        false
    } else {
        artist_in(x, ys.drop_last()) || artists_equiv(x, ys.last())
    }
}

/// Some artist of `xs` is equivalent to some artist of `ys`.
pub closed spec fn artists_meet(xs: Seq<ArtistData>, ys: Seq<ArtistData>) -> bool
    decreases xs, 0int,
{
    if xs.len() == 0 {
        false
    } else {
        artists_meet(xs.drop_last(), ys) || artist_in(xs.last(), ys)
    }
}

/// Two artists are the same. When either has no albums, exactly when their
/// normalised names are equal. Otherwise at least half (rounded up) of the
/// smaller album list has an equivalent in the other list; lists of equal
/// length may be counted either way.
pub closed spec fn artists_equiv(a: ArtistData, b: ArtistData) -> bool
    decreases a, 0int,
{
    let n = a.albums@.len();
    let m = b.albums@.len();
    if n == 0 || m == 0 {
        a.norm_name@ == b.norm_name@
    } else {
        (n <= m && albums_found(a.albums@, b.albums@) >= half(n)) || (m <= n && albums_found_among(
            a.albums@,
            b.albums@,
        ) >= half(m))
    }
}

} // verus!

verus! {

fn song_in_exec(x: &SongData, ys: &Vec<SongData>) -> (r: bool)
    ensures
        r == song_in(*x, ys@),
    decreases *x, ys@.len() + 1,
{
    let mut found = false;
    let mut j: usize = 0;
    while j < ys.len()
        invariant
            j <= ys@.len(),
            found == song_in(*x, ys@.take(j as int)),
        decreases ys@.len() - j,
    {
        proof {
            let t = ys@.take(j as int + 1);
            assert(t.drop_last() =~= ys@.take(j as int));
        }
        if !found {
            found = songs_equivalent(x, &ys[j]);
        }
        j = j + 1;
    }
    assert(ys@.take(ys@.len() as int) =~= ys@);
    found
}

fn songs_found_exec(xs: &Vec<SongData>, ys: &Vec<SongData>) -> (r: usize)
    ensures
        r == songs_found(xs@, ys@),
    decreases xs@, 0int,
{
    let mut count: usize = 0;
    let mut i: usize = 0;
    while i < xs.len()
        invariant
            i <= xs@.len(),
            count == songs_found(xs@.take(i as int), ys@),
            count <= i,
        decreases xs@.len() - i,
    {
        proof {
            let t = xs@.take(i as int + 1);
            assert(t.drop_last() =~= xs@.take(i as int));
        }
        if song_in_exec(&xs[i], ys) {
            count = count + 1;
        }
        i = i + 1;
    }
    assert(xs@.take(xs@.len() as int) =~= xs@);
    count
}

fn song_among_exec(xs: &Vec<SongData>, y: &SongData) -> (r: bool)
    ensures
        r == song_among(xs@, *y),
    decreases xs@, 1int,
{
    let mut found = false;
    let mut i: usize = 0;
    while i < xs.len()
        invariant
            i <= xs@.len(),
            found == song_among(xs@.take(i as int), *y),
        decreases xs@.len() - i,
    {
        proof {
            let t = xs@.take(i as int + 1);
            assert(t.drop_last() =~= xs@.take(i as int));
        }
        if !found {
            found = songs_equivalent(&xs[i], y);
        }
        i = i + 1;
    }
    assert(xs@.take(xs@.len() as int) =~= xs@);
    found
}

fn songs_found_among_exec(xs: &Vec<SongData>, ys: &Vec<SongData>) -> (r: usize)
    ensures
        r == songs_found_among(xs@, ys@),
    decreases xs@, ys@.len() + 2,
{
    let mut count: usize = 0;
    let mut j: usize = 0;
    while j < ys.len()
        invariant
            j <= ys@.len(),
            count == songs_found_among(xs@, ys@.take(j as int)),
            count <= j,
        decreases ys@.len() - j,
    {
        proof {
            let t = ys@.take(j as int + 1);
            assert(t.drop_last() =~= ys@.take(j as int));
        }
        if song_among_exec(xs, &ys[j]) {
            count = count + 1;
        }
        j = j + 1;
    }
    assert(ys@.take(ys@.len() as int) =~= ys@);
    count
}

/// Whether two songs are the same recording.
pub fn songs_equivalent(a: &SongData, b: &SongData) -> (r: bool)
    ensures
        r == songs_equiv(*a, *b),
    decreases *a, 0int,
{
    let isrc_match = !a.isrc.as_str().is_empty() && a.isrc.eq(&b.isrc);
    if !isrc_match {
        return false;
    }
    let dur_match = (a.duration as u128) <= (b.duration as u128) + 2 && (b.duration as u128)
        <= (a.duration as u128) + 2;
    if dur_match {
        return true;
    }
    let name_match = a.norm_name.eq(&b.norm_name);
    name_match && albums_meet_exec(&a.albums, &b.albums) && artists_meet_exec(
        &a.artists,
        &b.artists,
    )
}

fn album_in_exec(x: &AlbumData, ys: &Vec<AlbumData>) -> (r: bool)
    ensures
        r == album_in(*x, ys@),
    decreases *x, ys@.len() + 1,
{
    let mut found = false;
    let mut j: usize = 0;
    while j < ys.len()
        invariant
            j <= ys@.len(),
            found == album_in(*x, ys@.take(j as int)),
        decreases ys@.len() - j,
    {
        proof {
            let t = ys@.take(j as int + 1);
            assert(t.drop_last() =~= ys@.take(j as int));
        }
        if !found {
            found = albums_equivalent(x, &ys[j]);
        }
        j = j + 1;
    }
    assert(ys@.take(ys@.len() as int) =~= ys@);
    found
}

fn albums_meet_exec(xs: &Vec<AlbumData>, ys: &Vec<AlbumData>) -> (r: bool)
    ensures
        r == albums_meet(xs@, ys@),
    decreases xs@, 0int,
{
    let mut found = false;
    let mut i: usize = 0;
    while i < xs.len()
        invariant
            i <= xs@.len(),
            found == albums_meet(xs@.take(i as int), ys@),
        decreases xs@.len() - i,
    {
        proof {
            let t = xs@.take(i as int + 1);
            assert(t.drop_last() =~= xs@.take(i as int));
        }
        if !found {
            found = album_in_exec(&xs[i], ys);
        }
        i = i + 1;
    }
    assert(xs@.take(xs@.len() as int) =~= xs@);
    found
}

fn album_among_exec(xs: &Vec<AlbumData>, y: &AlbumData) -> (r: bool)
    ensures
        r == album_among(xs@, *y),
    decreases xs@, 1int,
{
    let mut found = false;
    let mut i: usize = 0;
    while i < xs.len()
        invariant
            i <= xs@.len(),
            found == album_among(xs@.take(i as int), *y),
        decreases xs@.len() - i,
    {
        proof {
            let t = xs@.take(i as int + 1);
            assert(t.drop_last() =~= xs@.take(i as int));
        }
        if !found {
            found = albums_equivalent(&xs[i], y);
        }
        i = i + 1;
    }
    assert(xs@.take(xs@.len() as int) =~= xs@);
    found
}

fn albums_found_exec(xs: &Vec<AlbumData>, ys: &Vec<AlbumData>) -> (r: usize)
    ensures
        r == albums_found(xs@, ys@),
    decreases xs@, 0int,
{
    let mut count: usize = 0;
    let mut i: usize = 0;
    while i < xs.len()
        invariant
            i <= xs@.len(),
            count == albums_found(xs@.take(i as int), ys@),
            count <= i,
        decreases xs@.len() - i,
    {
        proof {
            let t = xs@.take(i as int + 1);
            assert(t.drop_last() =~= xs@.take(i as int));
        }
        if album_in_exec(&xs[i], ys) {
            count = count + 1;
        }
        i = i + 1;
    }
    assert(xs@.take(xs@.len() as int) =~= xs@);
    count
}

fn albums_found_among_exec(xs: &Vec<AlbumData>, ys: &Vec<AlbumData>) -> (r: usize)
    ensures
        r == albums_found_among(xs@, ys@),
    decreases xs@, ys@.len() + 2,
{
    let mut count: usize = 0;
    let mut j: usize = 0;
    while j < ys.len()
        invariant
            j <= ys@.len(),
            count == albums_found_among(xs@, ys@.take(j as int)),
            count <= j,
        decreases ys@.len() - j,
    {
        proof {
            let t = ys@.take(j as int + 1);
            assert(t.drop_last() =~= ys@.take(j as int));
        }
        if album_among_exec(xs, &ys[j]) {
            count = count + 1;
        }
        j = j + 1;
    }
    assert(ys@.take(ys@.len() as int) =~= ys@);
    count
}

/// Whether two albums are the same release.
pub fn albums_equivalent(a: &AlbumData, b: &AlbumData) -> (r: bool)
    ensures
        r == albums_equiv(*a, *b),
    decreases *a, 0int,
{
    if !a.upc.as_str().is_empty() || !b.upc.as_str().is_empty() {
        return a.upc.eq(&b.upc);
    }
    if !a.norm_name.eq(&b.norm_name) {
        return false;
    }
    let larger: usize = if a.songs.len() >= b.songs.len() {
        a.songs.len()
    } else {
        b.songs.len()
    };
    let need: u128 = (9 * (larger as u128) + 9) / 10;
    let found = songs_found_exec(&a.songs, &b.songs);
    if (found as u128) < need {
        return false;
    }
    let found_back = songs_found_among_exec(&a.songs, &b.songs);
    if (found_back as u128) < need {
        return false;
    }
    artists_meet_exec(&a.artists, &b.artists)
}

fn artist_in_exec(x: &ArtistData, ys: &Vec<ArtistData>) -> (r: bool)
    ensures
        r == artist_in(*x, ys@),
    decreases *x, ys@.len() + 1,
{
    let mut found = false;
    let mut j: usize = 0;
    while j < ys.len()
        invariant
            j <= ys@.len(),
            found == artist_in(*x, ys@.take(j as int)),
        decreases ys@.len() - j,
    {
        proof {
            let t = ys@.take(j as int + 1);
            assert(t.drop_last() =~= ys@.take(j as int));
        }
        if !found {
            found = artists_equivalent(x, &ys[j]);
        }
        j = j + 1;
    }
    assert(ys@.take(ys@.len() as int) =~= ys@);
    found
}

fn artists_meet_exec(xs: &Vec<ArtistData>, ys: &Vec<ArtistData>) -> (r: bool)
    ensures
        r == artists_meet(xs@, ys@),
    decreases xs@, 0int,
{
    let mut found = false;
    let mut i: usize = 0;
    while i < xs.len()
        invariant
            i <= xs@.len(),
            found == artists_meet(xs@.take(i as int), ys@),
        decreases xs@.len() - i,
    {
        proof {
            let t = xs@.take(i as int + 1);
            assert(t.drop_last() =~= xs@.take(i as int));
        }
        if !found {
            found = artist_in_exec(&xs[i], ys);
        }
        i = i + 1;
    }
    assert(xs@.take(xs@.len() as int) =~= xs@);
    found
}

/// Whether two artists are the same.
pub fn artists_equivalent(a: &ArtistData, b: &ArtistData) -> (r: bool)
    ensures
        r == artists_equiv(*a, *b),
    decreases *a, 0int,
{
    let n = a.albums.len();
    let m = b.albums.len();
    if n == 0 || m == 0 {
        return a.norm_name.eq(&b.norm_name);
    }
    if n <= m && albums_found_exec(&a.albums, &b.albums) >= (n - 1) / 2 + 1 {
        return true;
    }
    m <= n && albums_found_among_exec(&a.albums, &b.albums) >= (m - 1) / 2 + 1
}

} // verus!

verus! {

// ---------------------------------------------------------------------------
// Copies

/// `b` holds the same data as `a`, all the way down.
pub closed spec fn same_song(a: SongData, b: SongData) -> bool
    decreases a, 0int,
{
    &&& a.display_name@ == b.display_name@
    &&& a.norm_name@ == b.norm_name@
    &&& a.isrc@ == b.isrc@
    &&& a.duration == b.duration
    &&& same_albums(a.albums@, b.albums@)
    &&& same_artists(a.artists@, b.artists@)
}

pub closed spec fn same_songs(xs: Seq<SongData>, ys: Seq<SongData>) -> bool
    decreases xs, 0int,
{
    if xs.len() == 0 {
        ys.len() == 0
    } else {
        ys.len() > 0 && same_songs(xs.drop_last(), ys.drop_last()) && same_song(xs.last(), ys.last())
    }
}

/// `b` holds the same data as `a`, all the way down.
pub closed spec fn same_album(a: AlbumData, b: AlbumData) -> bool
    decreases a, 0int,
{
    &&& a.display_name@ == b.display_name@
    &&& a.norm_name@ == b.norm_name@
    &&& a.upc@ == b.upc@
    &&& same_songs(a.songs@, b.songs@)
    &&& same_artists(a.artists@, b.artists@)
}

pub closed spec fn same_albums(xs: Seq<AlbumData>, ys: Seq<AlbumData>) -> bool
    decreases xs, 0int,
{
    if xs.len() == 0 {
        ys.len() == 0
    } else {
        ys.len() > 0 && same_albums(xs.drop_last(), ys.drop_last()) && same_album(
            xs.last(),
            ys.last(),
        )
    }
}

/// `b` holds the same data as `a`, all the way down.
pub closed spec fn same_artist(a: ArtistData, b: ArtistData) -> bool
    decreases a, 0int,
{
    &&& a.display_name@ == b.display_name@
    &&& a.norm_name@ == b.norm_name@
    &&& same_albums(a.albums@, b.albums@)
}

pub closed spec fn same_artists(xs: Seq<ArtistData>, ys: Seq<ArtistData>) -> bool
    decreases xs, 0int,
{
    if xs.len() == 0 {
        ys.len() == 0
    } else {
        ys.len() > 0 && same_artists(xs.drop_last(), ys.drop_last()) && same_artist(
            xs.last(),
            ys.last(),
        )
    }
}

fn copy_songs(xs: &Vec<SongData>) -> (r: Vec<SongData>)
    ensures
        same_songs(xs@, r@),
    decreases xs@, 0int,
{
    let mut out: Vec<SongData> = Vec::new();
    let mut i: usize = 0;
    while i < xs.len()
        invariant
            i <= xs@.len(),
            same_songs(xs@.take(i as int), out@),
        decreases xs@.len() - i,
    {
        let c = xs[i].copy();
        let ghost before = out@;
        out.push(c);
        proof {
            let t = xs@.take(i as int + 1);
            assert(t.drop_last() =~= xs@.take(i as int));
            assert(out@.drop_last() =~= before);
        }
        i = i + 1;
    }
    assert(xs@.take(xs@.len() as int) =~= xs@);
    out
}

fn copy_albums(xs: &Vec<AlbumData>) -> (r: Vec<AlbumData>)
    ensures
        same_albums(xs@, r@),
    decreases xs@, 0int,
{
    let mut out: Vec<AlbumData> = Vec::new();
    let mut i: usize = 0;
    while i < xs.len()
        invariant
            i <= xs@.len(),
            same_albums(xs@.take(i as int), out@),
        decreases xs@.len() - i,
    {
        let c = xs[i].copy();
        let ghost before = out@;
        out.push(c);
        proof {
            let t = xs@.take(i as int + 1);
            assert(t.drop_last() =~= xs@.take(i as int));
            assert(out@.drop_last() =~= before);
        }
        i = i + 1;
    }
    assert(xs@.take(xs@.len() as int) =~= xs@);
    out
}

fn copy_artists(xs: &Vec<ArtistData>) -> (r: Vec<ArtistData>)
    ensures
        same_artists(xs@, r@),
    decreases xs@, 0int,
{
    let mut out: Vec<ArtistData> = Vec::new();
    let mut i: usize = 0;
    while i < xs.len()
        invariant
            i <= xs@.len(),
            same_artists(xs@.take(i as int), out@),
        decreases xs@.len() - i,
    {
        let c = xs[i].copy();
        let ghost before = out@;
        out.push(c);
        proof {
            let t = xs@.take(i as int + 1);
            assert(t.drop_last() =~= xs@.take(i as int));
            assert(out@.drop_last() =~= before);
        }
        i = i + 1;
    }
    assert(xs@.take(xs@.len() as int) =~= xs@);
    out
}

impl SongData {
    /// A copy of this song, all the way down.
    pub fn copy(&self) -> (r: SongData)
        ensures
            same_song(*self, r),
        decreases *self, 1int,
    {
        SongData {
            display_name: self.display_name.clone(),
            norm_name: self.norm_name.clone(),
            isrc: self.isrc.clone(),
            duration: self.duration,
            albums: copy_albums(&self.albums),
            artists: copy_artists(&self.artists),
        }
    }
}

impl AlbumData {
    /// A copy of this album, all the way down.
    pub fn copy(&self) -> (r: AlbumData)
        ensures
            same_album(*self, r),
        decreases *self, 1int,
    {
        AlbumData {
            display_name: self.display_name.clone(),
            norm_name: self.norm_name.clone(),
            songs: copy_songs(&self.songs),
            artists: copy_artists(&self.artists),
            upc: self.upc.clone(),
        }
    }
}

impl ArtistData {
    /// A copy of this artist, all the way down.
    pub fn copy(&self) -> (r: ArtistData)
        ensures
            same_artist(*self, r),
        decreases *self, 1int,
    {
        ArtistData {
            display_name: self.display_name.clone(),
            norm_name: self.norm_name.clone(),
            albums: copy_albums(&self.albums),
        }
    }
}

} // verus!

verus! {

// ---------------------------------------------------------------------------
// Construction

impl SongData {
    pub closed spec fn display_name(&self) -> Seq<char> {
        self.display_name@
    }

    pub closed spec fn isrc(&self) -> Seq<char> {
        self.isrc@
    }

    pub closed spec fn albums(&self) -> Seq<AlbumData> {
        self.albums@
    }

    pub closed spec fn norm_name(&self) -> Seq<char> {
        self.norm_name@
    }

    pub closed spec fn duration(&self) -> u64 {
        self.duration
    }

    pub closed spec fn artists(&self) -> Seq<ArtistData> {
        self.artists@
    }

    /// A song with its title normalised for comparison.
    pub fn new(
        name: &str,
        isrc: &str,
        duration: u64,
        albums: Vec<AlbumData>,
        artists: Vec<ArtistData>,
    ) -> (r: SongData)
        ensures
            r.display_name() == name@,
            r.norm_name() == song_title_key(name@),
            r.isrc() == isrc@,
            r.duration() == duration,
            r.albums() == albums@,
            r.artists() == artists@,
    {
        SongData {
            display_name: String::from_str(name),
            norm_name: normalize_song_title(name),
            isrc: String::from_str(isrc),
            duration,
            albums,
            artists,
        }
    }
}

impl AlbumData {
    pub closed spec fn display_name(&self) -> Seq<char> {
        self.display_name@
    }

    pub closed spec fn upc(&self) -> Seq<char> {
        self.upc@
    }

    pub closed spec fn norm_name(&self) -> Seq<char> {
        self.norm_name@
    }

    pub closed spec fn songs(&self) -> Seq<SongData> {
        self.songs@
    }

    pub closed spec fn artists(&self) -> Seq<ArtistData> {
        self.artists@
    }

    /// An album with its title normalised for comparison.
    pub fn new(name: &str, upc: &str, songs: Vec<SongData>, artists: Vec<ArtistData>) -> (r:
        AlbumData)
        ensures
            r.display_name() == name@,
            r.norm_name() == album_title_key(name@),
            r.upc() == upc@,
            r.songs() == songs@,
            r.artists() == artists@,
    {
        AlbumData {
            display_name: String::from_str(name),
            norm_name: normalize_album_title(name),
            songs,
            artists,
            upc: String::from_str(upc),
        }
    }

    /// An album known by its title and UPC only.
    pub fn with_limited_info(name: &str, upc: &str) -> (r: AlbumData)
        ensures
            r.display_name() == name@,
            r.norm_name() == album_title_key(name@),
            r.upc() == upc@,
            r.songs().len() == 0,
            r.artists().len() == 0,
    {
        AlbumData::new(name, upc, Vec::new(), Vec::new())
    }
}

impl ArtistData {
    pub closed spec fn display_name(&self) -> Seq<char> {
        self.display_name@
    }

    pub closed spec fn norm_name(&self) -> Seq<char> {
        self.norm_name@
    }

    pub closed spec fn albums(&self) -> Seq<AlbumData> {
        self.albums@
    }

    /// An artist with the name normalised for comparison.
    pub fn new(name: &str, albums: Vec<AlbumData>) -> (r: ArtistData)
        ensures
            r.display_name() == name@,
            r.norm_name() == artist_name_key(name@),
            r.albums() == albums@,
    {
        ArtistData {
            display_name: String::from_str(name),
            norm_name: normalize_artist_name(name),
            albums,
        }
    }

    /// An artist known by name only.
    pub fn without_albums(name: &str) -> (r: ArtistData)
        ensures
            r.display_name() == name@,
            r.norm_name() == artist_name_key(name@),
            r.albums().len() == 0,
    {
        ArtistData::new(name, Vec::new())
    }

    /// Appends a copy of `album` to the artist's albums.
    pub fn add_album(&mut self, album: &AlbumData)
        ensures
            final(self).display_name() == old(self).display_name(),
            final(self).norm_name() == old(self).norm_name(),
            final(self).albums().len() == old(self).albums().len() + 1,
            final(self).albums().drop_last() == old(self).albums(),
            same_album(*album, final(self).albums().last()),
    {
        let c = album.copy();
        self.albums.push(c);
        assert(self.albums@.drop_last() =~= old(self).albums@);
    }

    /// Appends copies of `albums`, in order, to the artist's albums.
    pub fn add_multiple_albums(&mut self, albums: &Vec<AlbumData>)
        ensures
            final(self).display_name() == old(self).display_name(),
            final(self).norm_name() == old(self).norm_name(),
            final(self).albums().len() == old(self).albums().len() + albums@.len(),
            final(self).albums().take(old(self).albums().len() as int) == old(self).albums(),
            same_albums(albums@, final(self).albums().skip(old(self).albums().len() as int)),
    {
        let ghost start = self.albums@;
        let mut i: usize = 0;
        while i < albums.len()
            invariant
                i <= albums@.len(),
                self.display_name@ == old(self).display_name(),
                self.norm_name@ == old(self).norm_name@,
                start == old(self).albums@,
                self.albums@.len() == start.len() + i,
                self.albums@.take(start.len() as int) == start,
                same_albums(albums@.take(i as int), self.albums@.skip(start.len() as int)),
            decreases albums@.len() - i,
        {
            let c = albums[i].copy();
            let ghost before = self.albums@;
            self.albums.push(c);
            proof {
                let t = albums@.take(i as int + 1);
                assert(t.drop_last() =~= albums@.take(i as int));
                let s = self.albums@.skip(start.len() as int);
                assert(s.drop_last() =~= before.skip(start.len() as int));
                assert(s.last() == c);
                assert(self.albums@.take(start.len() as int) =~= before.take(start.len() as int));
            }
            i = i + 1;
        }
        assert(albums@.take(albums@.len() as int) =~= albums@);
    }
}

// ---------------------------------------------------------------------------
// Equality as equivalence

impl PartialEq for SongData {
    fn eq(&self, other: &SongData) -> (r: bool) {
        songs_equivalent(self, other)
    }
}

impl vstd::std_specs::cmp::PartialEqSpecImpl for SongData {
    open spec fn obeys_eq_spec() -> bool {
        true
    }

    open spec fn eq_spec(&self, other: &SongData) -> bool {
        songs_equiv(*self, *other)
    }
}

impl PartialEq for AlbumData {
    fn eq(&self, other: &AlbumData) -> (r: bool) {
        albums_equivalent(self, other)
    }
}

impl vstd::std_specs::cmp::PartialEqSpecImpl for AlbumData {
    open spec fn obeys_eq_spec() -> bool {
        true
    }

    open spec fn eq_spec(&self, other: &AlbumData) -> bool {
        albums_equiv(*self, *other)
    }
}

impl PartialEq for ArtistData {
    fn eq(&self, other: &ArtistData) -> (r: bool) {
        artists_equivalent(self, other)
    }
}

impl vstd::std_specs::cmp::PartialEqSpecImpl for ArtistData {
    open spec fn obeys_eq_spec() -> bool {
        true
    }

    open spec fn eq_spec(&self, other: &ArtistData) -> bool {
        artists_equiv(*self, *other)
    }
}

// ---------------------------------------------------------------------------
// Laws

/// Albums of which either carries a UPC are equivalent exactly when their
/// UPCs are equal: titles, songs and artists are not consulted.
pub proof fn lemma_upc_decides(a: AlbumData, b: AlbumData)
    requires
        a.upc().len() > 0 || b.upc().len() > 0,
    ensures
        albums_equiv(a, b) == (a.upc() == b.upc()),
{
}

} // verus!

verus! {

impl SongData {
    pub fn get_display_name(&self) -> (r: String)
        ensures
            r@ == self.display_name(),
    {
        self.display_name.clone()
    }

    pub fn get_isrc(&self) -> (r: String)
        ensures
            r@ == self.isrc(),
    {
        self.isrc.clone()
    }

    pub fn get_albums(&self) -> (r: &Vec<AlbumData>)
        ensures
            r@ == self.albums(),
    {
        &self.albums
    }
}

impl AlbumData {
    pub fn get_display_name(&self) -> (r: String)
        ensures
            r@ == self.display_name(),
    {
        self.display_name.clone()
    }

    pub fn get_upc(&self) -> (r: String)
        ensures
            r@ == self.upc(),
    {
        self.upc.clone()
    }
}

impl ArtistData {
    pub fn get_display_name(&self) -> (r: String)
        ensures
            r@ == self.display_name(),
    {
        self.display_name.clone()
    }
}


// ---------------------------------------------------------------------------
// Quantified forms

/// Some song of `ys` is equivalent to `x`.
pub open spec fn song_found_in(x: SongData, ys: Seq<SongData>) -> bool {
    exists|j: int| 0 <= j < ys.len() && #[trigger] songs_equiv(x, ys[j])
}

/// Some song of `xs` is equivalent to `y`.
pub open spec fn song_found_among(xs: Seq<SongData>, y: SongData) -> bool {
    exists|i: int| 0 <= i < xs.len() && #[trigger] songs_equiv(xs[i], y)
}

/// Some album of `ys` is equivalent to `x`.
pub open spec fn album_found_in(x: AlbumData, ys: Seq<AlbumData>) -> bool {
    exists|j: int| 0 <= j < ys.len() && #[trigger] albums_equiv(x, ys[j])
}

/// Some album of `xs` is equivalent to `y`.
pub open spec fn album_found_among(xs: Seq<AlbumData>, y: AlbumData) -> bool {
    exists|i: int| 0 <= i < xs.len() && #[trigger] albums_equiv(xs[i], y)
}

/// Some album of `xs` is equivalent to some album of `ys`.
pub open spec fn albums_share(xs: Seq<AlbumData>, ys: Seq<AlbumData>) -> bool {
    exists|i: int, j: int| 0 <= i < xs.len() && 0 <= j < ys.len() && #[trigger] albums_equiv(xs[i], ys[j])
}

/// Some artist of `xs` is equivalent to some artist of `ys`.
pub open spec fn artists_share(xs: Seq<ArtistData>, ys: Seq<ArtistData>) -> bool {
    exists|i: int, j: int| 0 <= i < xs.len() && 0 <= j < ys.len() && #[trigger] artists_equiv(xs[i], ys[j])
}

pub proof fn lemma_song_in(x: SongData, ys: Seq<SongData>)
    ensures
        song_in(x, ys) == exists|j: int| 0 <= j < ys.len() && #[trigger] songs_equiv(x, ys[j]),
    decreases ys.len(),
{
    if ys.len() > 0 {
        let p = ys.drop_last();
        lemma_song_in(x, p);
        if song_in(x, p) {
            let j = choose|j: int| 0 <= j < p.len() && #[trigger] songs_equiv(x, p[j]);
            assert(ys[j] == p[j]);
        } else if !song_in(x, ys) {
            assert forall|j: int| 0 <= j < ys.len() implies !#[trigger] songs_equiv(x, ys[j]) by {
                if j < p.len() {
                    assert(p[j] == ys[j]);
                }
            }
        } else {
            assert(songs_equiv(x, ys[ys.len() - 1]));
        }
    }
}

pub proof fn lemma_song_among(xs: Seq<SongData>, y: SongData)
    ensures
        song_among(xs, y) == exists|i: int| 0 <= i < xs.len() && #[trigger] songs_equiv(xs[i], y),
    decreases xs.len(),
{
    if xs.len() > 0 {
        let p = xs.drop_last();
        lemma_song_among(p, y);
        if song_among(p, y) {
            let i = choose|i: int| 0 <= i < p.len() && #[trigger] songs_equiv(p[i], y);
            assert(xs[i] == p[i]);
        } else if !song_among(xs, y) {
            assert forall|i: int| 0 <= i < xs.len() implies !#[trigger] songs_equiv(xs[i], y) by {
                if i < p.len() {
                    assert(p[i] == xs[i]);
                }
            }
        } else {
            assert(songs_equiv(xs[xs.len() - 1], y));
        }
    }
}

pub proof fn lemma_album_in(x: AlbumData, ys: Seq<AlbumData>)
    ensures
        album_in(x, ys) == exists|j: int| 0 <= j < ys.len() && #[trigger] albums_equiv(x, ys[j]),
    decreases ys.len(),
{
    if ys.len() > 0 {
        let p = ys.drop_last();
        lemma_album_in(x, p);
        if album_in(x, p) {
            let j = choose|j: int| 0 <= j < p.len() && #[trigger] albums_equiv(x, p[j]);
            assert(ys[j] == p[j]);
        } else if !album_in(x, ys) {
            assert forall|j: int| 0 <= j < ys.len() implies !#[trigger] albums_equiv(x, ys[j]) by {
                if j < p.len() {
                    assert(p[j] == ys[j]);
                }
            }
        } else {
            assert(albums_equiv(x, ys[ys.len() - 1]));
        }
    }
}

pub proof fn lemma_album_among(xs: Seq<AlbumData>, y: AlbumData)
    ensures
        album_among(xs, y) == exists|i: int| 0 <= i < xs.len() && #[trigger] albums_equiv(xs[i], y),
    decreases xs.len(),
{
    if xs.len() > 0 {
        let p = xs.drop_last();
        lemma_album_among(p, y);
        if album_among(p, y) {
            let i = choose|i: int| 0 <= i < p.len() && #[trigger] albums_equiv(p[i], y);
            assert(xs[i] == p[i]);
        } else if !album_among(xs, y) {
            assert forall|i: int| 0 <= i < xs.len() implies !#[trigger] albums_equiv(xs[i], y) by {
                if i < p.len() {
                    assert(p[i] == xs[i]);
                }
            }
        } else {
            assert(albums_equiv(xs[xs.len() - 1], y));
        }
    }
}

pub proof fn lemma_artist_in(x: ArtistData, ys: Seq<ArtistData>)
    ensures
        artist_in(x, ys) == exists|j: int| 0 <= j < ys.len() && #[trigger] artists_equiv(x, ys[j]),
    decreases ys.len(),
{
    if ys.len() > 0 {
        let p = ys.drop_last();
        lemma_artist_in(x, p);
        if artist_in(x, p) {
            let j = choose|j: int| 0 <= j < p.len() && #[trigger] artists_equiv(x, p[j]);
            assert(ys[j] == p[j]);
        } else if !artist_in(x, ys) {
            assert forall|j: int| 0 <= j < ys.len() implies !#[trigger] artists_equiv(x, ys[j]) by {
                if j < p.len() {
                    assert(p[j] == ys[j]);
                }
            }
        } else {
            assert(artists_equiv(x, ys[ys.len() - 1]));
        }
    }
}

pub proof fn lemma_albums_meet(xs: Seq<AlbumData>, ys: Seq<AlbumData>)
    ensures
        albums_meet(xs, ys) == exists|i: int, j: int|
            0 <= i < xs.len() && 0 <= j < ys.len() && #[trigger] albums_equiv(xs[i], ys[j]),
    decreases xs.len(),
{
    if xs.len() > 0 {
        let p = xs.drop_last();
        lemma_albums_meet(p, ys);
        lemma_album_in(xs.last(), ys);
        if albums_meet(p, ys) {
            let (i, j) = choose|i: int, j: int|
                0 <= i < p.len() && 0 <= j < ys.len() && #[trigger] albums_equiv(p[i], ys[j]);
            assert(xs[i] == p[i]);
        } else if album_in(xs.last(), ys) {
            let j = choose|j: int| 0 <= j < ys.len() && #[trigger] albums_equiv(xs.last(), ys[j]);
            assert(albums_equiv(xs[xs.len() - 1], ys[j]));
        } else {
            assert forall|i: int, j: int| 0 <= i < xs.len() && 0 <= j < ys.len() implies !#[trigger] albums_equiv(
                xs[i],
                ys[j],
            ) by {
                if i < p.len() {
                    assert(p[i] == xs[i]);
                }
            }
        }
    }
}

pub proof fn lemma_artists_meet(xs: Seq<ArtistData>, ys: Seq<ArtistData>)
    ensures
        artists_meet(xs, ys) == exists|i: int, j: int|
            0 <= i < xs.len() && 0 <= j < ys.len() && #[trigger] artists_equiv(xs[i], ys[j]),
    decreases xs.len(),
{
    if xs.len() > 0 {
        let p = xs.drop_last();
        lemma_artists_meet(p, ys);
        lemma_artist_in(xs.last(), ys);
        if artists_meet(p, ys) {
            let (i, j) = choose|i: int, j: int|
                0 <= i < p.len() && 0 <= j < ys.len() && #[trigger] artists_equiv(p[i], ys[j]);
            assert(xs[i] == p[i]);
        } else if artist_in(xs.last(), ys) {
            let j = choose|j: int| 0 <= j < ys.len() && #[trigger] artists_equiv(xs.last(), ys[j]);
            assert(artists_equiv(xs[xs.len() - 1], ys[j]));
        } else {
            assert forall|i: int, j: int| 0 <= i < xs.len() && 0 <= j < ys.len() implies !#[trigger] artists_equiv(
                xs[i],
                ys[j],
            ) by {
                if i < p.len() {
                    assert(p[i] == xs[i]);
                }
            }
        }
    }
}

/// The count of `xs` found in `ys` is the number of elements of `xs` with an
/// equivalent in `ys`.
pub proof fn lemma_songs_found(xs: Seq<SongData>, ys: Seq<SongData>)
    ensures
        songs_found(xs, ys) == xs.filter(|x: SongData| song_found_in(x, ys)).len(),
    decreases xs.len(),
{
    reveal(Seq::filter);
    if xs.len() > 0 {
        lemma_songs_found(xs.drop_last(), ys);
        lemma_song_in(xs.last(), ys);
    }
}

/// The count of `ys` found among `xs` is the number of elements of `ys` with
/// an equivalent in `xs`.
pub proof fn lemma_songs_found_among(xs: Seq<SongData>, ys: Seq<SongData>)
    ensures
        songs_found_among(xs, ys) == ys.filter(|y: SongData| song_found_among(xs, y)).len(),
    decreases ys.len(),
{
    reveal(Seq::filter);
    if ys.len() > 0 {
        lemma_songs_found_among(xs, ys.drop_last());
        lemma_song_among(xs, ys.last());
    }
}

proof fn lemma_songs_found_swap(ys: Seq<SongData>, xs: Seq<SongData>)
    requires
        forall|j: int| 0 <= j < ys.len() ==> song_in(#[trigger] ys[j], xs) == song_among(xs, ys[j]),
    ensures
        songs_found(ys, xs) == songs_found_among(xs, ys),
    decreases ys.len(),
{
    if ys.len() > 0 {
        let p = ys.drop_last();
        assert forall|j: int| 0 <= j < p.len() implies song_in(#[trigger] p[j], xs) == song_among(xs, p[j]) by {
            assert(p[j] == ys[j]);
        }
        lemma_songs_found_swap(p, xs);
        assert(ys.last() == ys[ys.len() - 1]);
    }
}

/// The count of `xs` found in `ys` is the number of elements of `xs` with an
/// equivalent in `ys`.
pub proof fn lemma_albums_found(xs: Seq<AlbumData>, ys: Seq<AlbumData>)
    ensures
        albums_found(xs, ys) == xs.filter(|x: AlbumData| album_found_in(x, ys)).len(),
    decreases xs.len(),
{
    reveal(Seq::filter);
    if xs.len() > 0 {
        lemma_albums_found(xs.drop_last(), ys);
        lemma_album_in(xs.last(), ys);
    }
}

/// The count of `ys` found among `xs` is the number of elements of `ys` with
/// an equivalent in `xs`.
pub proof fn lemma_albums_found_among(xs: Seq<AlbumData>, ys: Seq<AlbumData>)
    ensures
        albums_found_among(xs, ys) == ys.filter(|y: AlbumData| album_found_among(xs, y)).len(),
    decreases ys.len(),
{
    reveal(Seq::filter);
    if ys.len() > 0 {
        lemma_albums_found_among(xs, ys.drop_last());
        lemma_album_among(xs, ys.last());
    }
}

proof fn lemma_albums_found_swap(ys: Seq<AlbumData>, xs: Seq<AlbumData>)
    requires
        forall|j: int| 0 <= j < ys.len() ==> album_in(#[trigger] ys[j], xs) == album_among(xs, ys[j]),
    ensures
        albums_found(ys, xs) == albums_found_among(xs, ys),
    decreases ys.len(),
{
    if ys.len() > 0 {
        let p = ys.drop_last();
        assert forall|j: int| 0 <= j < p.len() implies album_in(#[trigger] p[j], xs) == album_among(xs, p[j]) by {
            assert(p[j] == ys[j]);
        }
        lemma_albums_found_swap(p, xs);
        assert(ys.last() == ys[ys.len() - 1]);
    }
}


// ---------------------------------------------------------------------------
// Symmetry

/// Song equivalence does not depend on the order of its arguments.
pub proof fn lemma_songs_equiv_symmetric(a: SongData, b: SongData)
    ensures
        songs_equiv(a, b) == songs_equiv(b, a),
    decreases a, 0int,
{
    let (xa, xb) = (a.albums@, b.albums@);
    let (ra, rb) = (a.artists@, b.artists@);
    assert forall|i: int, j: int| 0 <= i < xa.len() && 0 <= j < xb.len() implies albums_equiv(
        xa[i],
        xb[j],
    ) == albums_equiv(xb[j], xa[i]) by {
        lemma_albums_equiv_symmetric(xa[i], xb[j]);
    }
    assert forall|i: int, j: int| 0 <= i < ra.len() && 0 <= j < rb.len() implies artists_equiv(
        ra[i],
        rb[j],
    ) == artists_equiv(rb[j], ra[i]) by {
        lemma_artists_equiv_symmetric(ra[i], rb[j]);
    }
    lemma_albums_meet(xa, xb);
    lemma_albums_meet(xb, xa);
    lemma_artists_meet(ra, rb);
    lemma_artists_meet(rb, ra);
    if albums_meet(xa, xb) {
        let (i, j) = choose|i: int, j: int| 0 <= i < xa.len() && 0 <= j < xb.len() && #[trigger] albums_equiv(xa[i], xb[j]);
        assert(albums_equiv(xb[j], xa[i]));
    }
    if albums_meet(xb, xa) {
        let (j, i) = choose|j: int, i: int| 0 <= j < xb.len() && 0 <= i < xa.len() && #[trigger] albums_equiv(xb[j], xa[i]);
        assert(albums_equiv(xa[i], xb[j]));
    }
    if artists_meet(ra, rb) {
        let (i, j) = choose|i: int, j: int| 0 <= i < ra.len() && 0 <= j < rb.len() && #[trigger] artists_equiv(ra[i], rb[j]);
        assert(artists_equiv(rb[j], ra[i]));
    }
    if artists_meet(rb, ra) {
        let (j, i) = choose|j: int, i: int| 0 <= j < rb.len() && 0 <= i < ra.len() && #[trigger] artists_equiv(rb[j], ra[i]);
        assert(artists_equiv(ra[i], rb[j]));
    }
}

/// Album equivalence does not depend on the order of its arguments.
pub proof fn lemma_albums_equiv_symmetric(a: AlbumData, b: AlbumData)
    ensures
        albums_equiv(a, b) == albums_equiv(b, a),
    decreases a, 0int,
{
    if a.upc@.len() == 0 && b.upc@.len() == 0 {
        let (sa, sb) = (a.songs@, b.songs@);
        let (ra, rb) = (a.artists@, b.artists@);
        assert forall|i: int, j: int| 0 <= i < sa.len() && 0 <= j < sb.len() implies songs_equiv(
            sa[i],
            sb[j],
        ) == songs_equiv(sb[j], sa[i]) by {
            lemma_songs_equiv_symmetric(sa[i], sb[j]);
        }
        assert forall|i: int, j: int| 0 <= i < ra.len() && 0 <= j < rb.len() implies artists_equiv(
            ra[i],
            rb[j],
        ) == artists_equiv(rb[j], ra[i]) by {
            lemma_artists_equiv_symmetric(ra[i], rb[j]);
        }
        assert forall|j: int| 0 <= j < sb.len() implies song_in(#[trigger] sb[j], sa) == song_among(sa, sb[j]) by {
            lemma_song_in(sb[j], sa);
            lemma_song_among(sa, sb[j]);
            if song_in(sb[j], sa) {
                let i = choose|i: int| 0 <= i < sa.len() && #[trigger] songs_equiv(sb[j], sa[i]);
                assert(songs_equiv(sa[i], sb[j]));
            }
            if song_among(sa, sb[j]) {
                let i = choose|i: int| 0 <= i < sa.len() && #[trigger] songs_equiv(sa[i], sb[j]);
                assert(songs_equiv(sb[j], sa[i]));
            }
        }
        assert forall|i: int| 0 <= i < sa.len() implies song_in(#[trigger] sa[i], sb) == song_among(sb, sa[i]) by {
            lemma_song_in(sa[i], sb);
            lemma_song_among(sb, sa[i]);
            if song_in(sa[i], sb) {
                let j = choose|j: int| 0 <= j < sb.len() && #[trigger] songs_equiv(sa[i], sb[j]);
                assert(songs_equiv(sb[j], sa[i]));
            }
            if song_among(sb, sa[i]) {
                let j = choose|j: int| 0 <= j < sb.len() && #[trigger] songs_equiv(sb[j], sa[i]);
                assert(songs_equiv(sa[i], sb[j]));
            }
        }
        lemma_songs_found_swap(sb, sa);
        lemma_songs_found_swap(sa, sb);
        lemma_artists_meet(ra, rb);
        lemma_artists_meet(rb, ra);
        if artists_meet(ra, rb) {
            let (i, j) = choose|i: int, j: int| 0 <= i < ra.len() && 0 <= j < rb.len() && #[trigger] artists_equiv(ra[i], rb[j]);
            assert(artists_equiv(rb[j], ra[i]));
        }
        if artists_meet(rb, ra) {
            let (j, i) = choose|j: int, i: int| 0 <= j < rb.len() && 0 <= i < ra.len() && #[trigger] artists_equiv(rb[j], ra[i]);
            assert(artists_equiv(ra[i], rb[j]));
        }
    }
}

/// Artist equivalence does not depend on the order of its arguments.
pub proof fn lemma_artists_equiv_symmetric(a: ArtistData, b: ArtistData)
    ensures
        artists_equiv(a, b) == artists_equiv(b, a),
    decreases a, 0int,
{
    let (xa, xb) = (a.albums@, b.albums@);
    assert forall|i: int, j: int| 0 <= i < xa.len() && 0 <= j < xb.len() implies albums_equiv(
        xa[i],
        xb[j],
    ) == albums_equiv(xb[j], xa[i]) by {
        lemma_albums_equiv_symmetric(xa[i], xb[j]);
    }
    assert forall|j: int| 0 <= j < xb.len() implies album_in(#[trigger] xb[j], xa) == album_among(xa, xb[j]) by {
        lemma_album_in(xb[j], xa);
        lemma_album_among(xa, xb[j]);
        if album_in(xb[j], xa) {
            let i = choose|i: int| 0 <= i < xa.len() && #[trigger] albums_equiv(xb[j], xa[i]);
            assert(albums_equiv(xa[i], xb[j]));
        }
        if album_among(xa, xb[j]) {
            let i = choose|i: int| 0 <= i < xa.len() && #[trigger] albums_equiv(xa[i], xb[j]);
            assert(albums_equiv(xb[j], xa[i]));
        }
    }
    assert forall|i: int| 0 <= i < xa.len() implies album_in(#[trigger] xa[i], xb) == album_among(xb, xa[i]) by {
        lemma_album_in(xa[i], xb);
        lemma_album_among(xb, xa[i]);
        if album_in(xa[i], xb) {
            let j = choose|j: int| 0 <= j < xb.len() && #[trigger] albums_equiv(xa[i], xb[j]);
            assert(albums_equiv(xb[j], xa[i]));
        }
        if album_among(xb, xa[i]) {
            let j = choose|j: int| 0 <= j < xb.len() && #[trigger] albums_equiv(xb[j], xa[i]);
            assert(albums_equiv(xa[i], xb[j]));
        }
    }
    lemma_albums_found_swap(xb, xa);
    lemma_albums_found_swap(xa, xb);
}


// ---------------------------------------------------------------------------
// The rules over the accessors

/// Two songs are equivalent exactly when both carry the same non-empty ISRC
/// and either their durations are at most two seconds apart, or their
/// normalised titles are equal and they share an album and an artist.
pub proof fn lemma_songs_equiv_unfold(a: SongData, b: SongData)
    ensures
        songs_equiv(a, b) == (a.isrc().len() > 0 && a.isrc() == b.isrc() && ((a.duration()
            <= b.duration() + 2 && b.duration() <= a.duration() + 2) || (a.norm_name()
            == b.norm_name() && albums_share(a.albums(), b.albums()) && artists_share(
            a.artists(),
            b.artists(),
        )))),
{
    lemma_albums_meet(a.albums@, b.albums@);
    lemma_artists_meet(a.artists@, b.artists@);
}

/// Two albums are equivalent exactly when, if either carries a UPC, the
/// UPCs are equal; otherwise when their normalised titles are equal, at
/// least ninety percent (rounded up) of the larger song count of each
/// album's songs have an equivalent in the other, and they share an artist.
pub proof fn lemma_albums_equiv_unfold(a: AlbumData, b: AlbumData)
    ensures
        albums_equiv(a, b) == if a.upc().len() > 0 || b.upc().len() > 0 {
            a.upc() == b.upc()
        } else {
            let need = ninety_percent(
                vstd::math::max(a.songs().len() as int, b.songs().len() as int) as nat,
            );
            &&& a.norm_name() == b.norm_name()
            &&& a.songs().filter(|x: SongData| song_found_in(x, b.songs())).len() >= need
            &&& b.songs().filter(|y: SongData| song_found_among(a.songs(), y)).len() >= need
            &&& artists_share(a.artists(), b.artists())
        },
{
    lemma_songs_found(a.songs@, b.songs@);
    lemma_songs_found_among(a.songs@, b.songs@);
    lemma_artists_meet(a.artists@, b.artists@);
}

/// Two artists are equivalent exactly when, if either has no albums, their
/// normalised names are equal; otherwise when at least half (rounded up) of
/// the albums of a shorter (or equally long) list have an equivalent in the
/// other list.
pub proof fn lemma_artists_equiv_unfold(a: ArtistData, b: ArtistData)
    ensures
        artists_equiv(a, b) == if a.albums().len() == 0 || b.albums().len() == 0 {
            a.norm_name() == b.norm_name()
        } else {
            (a.albums().len() <= b.albums().len() && a.albums().filter(
                |x: AlbumData| album_found_in(x, b.albums()),
            ).len() >= half(a.albums().len())) || (b.albums().len() <= a.albums().len()
                && b.albums().filter(|y: AlbumData| album_found_among(a.albums(), y)).len() >= half(
                b.albums().len(),
            ))
        },
{
    lemma_albums_found(a.albums@, b.albums@);
    lemma_albums_found_among(a.albums@, b.albums@);
}


// ---------------------------------------------------------------------------
// Copies over the accessors

/// Two lists hold the same data when they are equally long and hold the
/// same data at each place.
pub proof fn lemma_same_songs(xs: Seq<SongData>, ys: Seq<SongData>)
    ensures
        same_songs(xs, ys) == (xs.len() == ys.len() && forall|i: int|
            0 <= i < xs.len() ==> #[trigger] same_song(xs[i], ys[i])),
    decreases xs.len(),
{
    if xs.len() > 0 && ys.len() > 0 {
        lemma_same_songs(xs.drop_last(), ys.drop_last());
        if same_songs(xs, ys) {
            assert forall|i: int| 0 <= i < xs.len() implies #[trigger] same_song(xs[i], ys[i]) by {
                if i < xs.len() - 1 {
                    assert(xs.drop_last()[i] == xs[i] && ys.drop_last()[i] == ys[i]);
                }
            }
        } else if xs.len() == ys.len() {
            if forall|i: int| 0 <= i < xs.len() ==> #[trigger] same_song(xs[i], ys[i]) {
                assert forall|i: int| 0 <= i < xs.len() - 1 implies #[trigger] same_song(
                    xs.drop_last()[i],
                    ys.drop_last()[i],
                ) by {
                    assert(xs.drop_last()[i] == xs[i] && ys.drop_last()[i] == ys[i]);
                }
                assert(same_song(xs[xs.len() - 1], ys[ys.len() - 1]));
            }
        }
    }
}

/// Two lists hold the same data when they are equally long and hold the
/// same data at each place.
pub proof fn lemma_same_albums(xs: Seq<AlbumData>, ys: Seq<AlbumData>)
    ensures
        same_albums(xs, ys) == (xs.len() == ys.len() && forall|i: int|
            0 <= i < xs.len() ==> #[trigger] same_album(xs[i], ys[i])),
    decreases xs.len(),
{
    if xs.len() > 0 && ys.len() > 0 {
        lemma_same_albums(xs.drop_last(), ys.drop_last());
        if same_albums(xs, ys) {
            assert forall|i: int| 0 <= i < xs.len() implies #[trigger] same_album(xs[i], ys[i]) by {
                if i < xs.len() - 1 {
                    assert(xs.drop_last()[i] == xs[i] && ys.drop_last()[i] == ys[i]);
                }
            }
        } else if xs.len() == ys.len() {
            if forall|i: int| 0 <= i < xs.len() ==> #[trigger] same_album(xs[i], ys[i]) {
                assert forall|i: int| 0 <= i < xs.len() - 1 implies #[trigger] same_album(
                    xs.drop_last()[i],
                    ys.drop_last()[i],
                ) by {
                    assert(xs.drop_last()[i] == xs[i] && ys.drop_last()[i] == ys[i]);
                }
                assert(same_album(xs[xs.len() - 1], ys[ys.len() - 1]));
            }
        }
    }
}

/// Two lists hold the same data when they are equally long and hold the
/// same data at each place.
pub proof fn lemma_same_artists(xs: Seq<ArtistData>, ys: Seq<ArtistData>)
    ensures
        same_artists(xs, ys) == (xs.len() == ys.len() && forall|i: int|
            0 <= i < xs.len() ==> #[trigger] same_artist(xs[i], ys[i])),
    decreases xs.len(),
{
    if xs.len() > 0 && ys.len() > 0 {
        lemma_same_artists(xs.drop_last(), ys.drop_last());
        if same_artists(xs, ys) {
            assert forall|i: int| 0 <= i < xs.len() implies #[trigger] same_artist(xs[i], ys[i]) by {
                if i < xs.len() - 1 {
                    assert(xs.drop_last()[i] == xs[i] && ys.drop_last()[i] == ys[i]);
                }
            }
        } else if xs.len() == ys.len() {
            if forall|i: int| 0 <= i < xs.len() ==> #[trigger] same_artist(xs[i], ys[i]) {
                assert forall|i: int| 0 <= i < xs.len() - 1 implies #[trigger] same_artist(
                    xs.drop_last()[i],
                    ys.drop_last()[i],
                ) by {
                    assert(xs.drop_last()[i] == xs[i] && ys.drop_last()[i] == ys[i]);
                }
                assert(same_artist(xs[xs.len() - 1], ys[ys.len() - 1]));
            }
        }
    }
}

/// A song holds the same data as another when names, keys, ISRC and
/// duration agree and its albums and artists hold the same data, place by
/// place.
pub proof fn lemma_same_song_unfold(a: SongData, b: SongData)
    ensures
        same_song(a, b) == (a.display_name() == b.display_name() && a.norm_name() == b.norm_name()
            && a.isrc() == b.isrc() && a.duration() == b.duration() && a.albums().len()
            == b.albums().len() && (forall|i: int|
            0 <= i < a.albums().len() ==> #[trigger] same_album(a.albums()[i], b.albums()[i]))
            && a.artists().len() == b.artists().len() && (forall|i: int|
            0 <= i < a.artists().len() ==> #[trigger] same_artist(a.artists()[i], b.artists()[i]))),
{
    lemma_same_albums(a.albums@, b.albums@);
    lemma_same_artists(a.artists@, b.artists@);
}

/// An album holds the same data as another when names, keys and UPC agree
/// and its songs and artists hold the same data, place by place.
pub proof fn lemma_same_album_unfold(a: AlbumData, b: AlbumData)
    ensures
        same_album(a, b) == (a.display_name() == b.display_name() && a.norm_name() == b.norm_name()
            && a.upc() == b.upc() && a.songs().len() == b.songs().len() && (forall|i: int|
            0 <= i < a.songs().len() ==> #[trigger] same_song(a.songs()[i], b.songs()[i]))
            && a.artists().len() == b.artists().len() && (forall|i: int|
            0 <= i < a.artists().len() ==> #[trigger] same_artist(a.artists()[i], b.artists()[i]))),
{
    lemma_same_songs(a.songs@, b.songs@);
    lemma_same_artists(a.artists@, b.artists@);
}

/// An artist holds the same data as another when names and keys agree and
/// its albums hold the same data, place by place.
pub proof fn lemma_same_artist_unfold(a: ArtistData, b: ArtistData)
    ensures
        same_artist(a, b) == (a.display_name() == b.display_name() && a.norm_name()
            == b.norm_name() && a.albums().len() == b.albums().len() && (forall|i: int|
            0 <= i < a.albums().len() ==> #[trigger] same_album(a.albums()[i], b.albums()[i]))),
{
    lemma_same_albums(a.albums@, b.albums@);
}

} // verus!
