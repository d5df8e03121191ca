//! Tidal: durations, the mapping of decoded resources into entities, and the
//! choice among search candidates.
use vstd::prelude::*;
use crate::api::ApiError;
use crate::shared_item::entity::{albums_equiv, songs_equiv};
use crate::shared_item::norm::{album_title_key, artist_name_key, song_title_key};
use crate::shared_item::{AlbumData, ArtistData, SongData};
use crate::shared_item::entity::{albums_equivalent, songs_equivalent};

verus! {

/// An ISO 8601 duration, as the `iso8601` crate reads it.
#[derive(Clone, Copy, Debug, PartialEq, Eq, Structural)]
pub enum IsoDuration {
    YMDHMS { year: u32, month: u32, day: u32, hour: u32, minute: u32, second: u32, millisecond: u32 },
    Weeks(u32),
}

/// What `iso8601::duration` reads from `s`.
pub uninterp spec fn iso_duration_of(s: Seq<char>) -> Option<IsoDuration>;

/// Relies on `iso8601::duration`: a parse of the text alone.
#[verifier::external_body]
fn parse_iso_duration(s: &str) -> (r: Option<IsoDuration>)
    ensures
        r == iso_duration_of(s@),
{
    match iso8601::duration(s) {
        Ok(iso8601::Duration::YMDHMS { year, month, day, hour, minute, second, millisecond }) => {
            Some(IsoDuration::YMDHMS { year, month, day, hour, minute, second, millisecond })
        },
        Ok(iso8601::Duration::Weeks(w)) => Some(IsoDuration::Weeks(w)),
        Err(_) => None,
    }
}

/// The whole seconds of a duration of days, hours, minutes and seconds,
/// milliseconds above 500 rounding up; none for weeks, months or years.
pub open spec fn duration_seconds(d: IsoDuration) -> Option<u64> {
    match d {
        IsoDuration::Weeks(_) => None,
        IsoDuration::YMDHMS { year, month, day, hour, minute, second, millisecond } => {
            if year != 0 || month != 0 {
                None
            } else {
                Some(
                    ((if millisecond > 500 {
                        1int
                    } else {
                        0int
                    }) + second + 60 * minute + 3600 * hour + 86400 * day) as u64,
                )
            }
        },
    }
}

/// The seconds of a parsed duration.
pub fn duration_to_seconds(d: IsoDuration) -> (r: Option<u64>)
    ensures
        r == duration_seconds(d),
{
    match d {
        IsoDuration::Weeks(_) => None,
        IsoDuration::YMDHMS { year, month, day, hour, minute, second, millisecond } => {
            if year != 0 || month != 0 {
                return None;
            }
            let mut seconds: u64 = if millisecond > 500 {
                1
            } else {
                0
            };
            seconds = seconds + second as u64;
            seconds = seconds + minute as u64 * 60;
            seconds = seconds + hour as u64 * 3600;
            seconds = seconds + day as u64 * 86400;
            Some(seconds)
        },
    }
}

/// The seconds an ISO 8601 duration text denotes.
pub open spec fn iso_seconds(s: Seq<char>) -> Result<u64, ApiError> {
    match iso_duration_of(s) {
        None => Err(ApiError::ParsingError),
        Some(d) => match duration_seconds(d) {
            None => Err(ApiError::IncorrectAttributes),
            Some(n) => Ok(n),
        },
    }
}

/// Reads an ISO 8601 duration of days, hours, minutes and seconds.
pub fn iso8601_to_seconds(s: &str) -> (r: Result<u64, ApiError>)
    ensures
        r == iso_seconds(s@),
{
    match parse_iso_duration(s) {
        None => Err(ApiError::ParsingError),
        Some(d) => match duration_to_seconds(d) {
            None => Err(ApiError::IncorrectAttributes),
            Some(n) => Ok(n),
        },
    }
}

/// The attributes of a decoded Tidal resource.
pub enum TidalAttributes {
    Tracks { title: String, isrc: String, duration: String },
    Albums { title: String, upc: String, duration: String },
    Artists { name: String },
}

pub open spec fn is_album_attrs(a: TidalAttributes) -> bool {
    a is Albums
}

pub open spec fn is_artist_attrs(a: TidalAttributes) -> bool {
    a is Artists
}

pub open spec fn is_track_attrs(a: TidalAttributes) -> bool {
    a is Tracks
}

/// `a` is the album Tidal describes by `attrs`, known by title and UPC only.
pub open spec fn album_from_attrs(a: AlbumData, attrs: TidalAttributes) -> bool {
    &&& attrs is Albums
    &&& a.display_name() == attrs->Albums_title@
    &&& a.norm_name() == album_title_key(attrs->Albums_title@)
    &&& a.upc() == attrs->Albums_upc@
    &&& a.songs().len() == 0
    &&& a.artists().len() == 0
}

/// `a` is the artist Tidal describes by `attrs`, known by name only.
pub open spec fn artist_from_attrs(a: ArtistData, attrs: TidalAttributes) -> bool {
    &&& attrs is Artists
    &&& a.display_name() == attrs->Artists_name@
    &&& a.norm_name() == artist_name_key(attrs->Artists_name@)
    &&& a.albums().len() == 0
}

/// `s` is the song Tidal describes by `attrs`, known by its own attributes.
pub open spec fn song_from_attrs(s: SongData, attrs: TidalAttributes) -> bool {
    &&& attrs is Tracks
    &&& s.display_name() == attrs->Tracks_title@
    &&& s.norm_name() == song_title_key(attrs->Tracks_title@)
    &&& s.isrc() == attrs->Tracks_isrc@
    &&& iso_seconds(attrs->Tracks_duration@) == Ok::<u64, ApiError>(s.duration())
    &&& s.albums().len() == 0
    &&& s.artists().len() == 0
}

/// The albums among `included`, each in the order given.
pub open spec fn albums_of(included: Seq<TidalAttributes>) -> Seq<TidalAttributes> {
    included.filter(|a: TidalAttributes| is_album_attrs(a))
}

pub open spec fn artists_of(included: Seq<TidalAttributes>) -> Seq<TidalAttributes> {
    included.filter(|a: TidalAttributes| is_artist_attrs(a))
}

pub open spec fn tracks_of(included: Seq<TidalAttributes>) -> Seq<TidalAttributes> {
    included.filter(|a: TidalAttributes| is_track_attrs(a))
}

/// The artists of `included`, known by name only.
fn collect_artists(included: &Vec<TidalAttributes>) -> (r: Vec<ArtistData>)
    ensures
        r@.len() == artists_of(included@).len(),
        forall|k: int| 0 <= k < r@.len() ==> artist_from_attrs(r@[k], artists_of(included@)[k]),
{
    let mut out: Vec<ArtistData> = Vec::new();
    let mut i: usize = 0;
    while i < included.len()
        invariant
            i <= included@.len(),
            out@.len() == artists_of(included@.take(i as int)).len(),
            forall|k: int|
                0 <= k < out@.len() ==> artist_from_attrs(
                    out@[k],
                    artists_of(included@.take(i as int))[k],
                ),
        decreases included@.len() - i,
    {
        proof {
            let t = included@.take(i as int + 1);
            assert(t.drop_last() =~= included@.take(i as int));
            reveal(Seq::filter);
        }
        match &included[i] {
            TidalAttributes::Artists { name } => {
                out.push(ArtistData::without_albums(name.as_str()));
            },
            _ => {},
        }
        i = i + 1;
    }
    assert(included@.take(included@.len() as int) =~= included@);
    out
}

/// The albums of `included`, known by title and UPC only.
fn collect_albums(included: &Vec<TidalAttributes>) -> (r: Vec<AlbumData>)
    ensures
        r@.len() == albums_of(included@).len(),
        forall|k: int| 0 <= k < r@.len() ==> album_from_attrs(r@[k], albums_of(included@)[k]),
{
    let mut out: Vec<AlbumData> = Vec::new();
    let mut i: usize = 0;
    while i < included.len()
        invariant
            i <= included@.len(),
            out@.len() == albums_of(included@.take(i as int)).len(),
            forall|k: int|
                0 <= k < out@.len() ==> album_from_attrs(
                    out@[k],
                    albums_of(included@.take(i as int))[k],
                ),
        decreases included@.len() - i,
    {
        proof {
            let t = included@.take(i as int + 1);
            assert(t.drop_last() =~= included@.take(i as int));
            reveal(Seq::filter);
        }
        match &included[i] {
            TidalAttributes::Albums { title, upc, duration: _ } => {
                out.push(AlbumData::with_limited_info(title.as_str(), upc.as_str()));
            },
            _ => {},
        }
        i = i + 1;
    }
    assert(included@.take(included@.len() as int) =~= included@);
    out
}

/// `s` is the song of the track `data` with the albums and artists among
/// `included`, in the order given.
pub open spec fn song_from_track(s: SongData, data: TidalAttributes, included: Seq<TidalAttributes>) -> bool {
    &&& data is Tracks
    &&& s.display_name() == data->Tracks_title@
    &&& s.norm_name() == song_title_key(data->Tracks_title@)
    &&& s.isrc() == data->Tracks_isrc@
    &&& iso_seconds(data->Tracks_duration@) == Ok::<u64, ApiError>(s.duration())
    &&& s.albums().len() == albums_of(included).len()
    &&& forall|k: int| 0 <= k < s.albums().len() ==> album_from_attrs(s.albums()[k], albums_of(included)[k])
    &&& s.artists().len() == artists_of(included).len()
    &&& forall|k: int| 0 <= k < s.artists().len() ==> artist_from_attrs(s.artists()[k], artists_of(included)[k])
}

/// `a` is the album `data` with the songs and artists among `included`, in
/// the order given.
pub open spec fn album_from_album(a: AlbumData, data: TidalAttributes, included: Seq<TidalAttributes>) -> bool {
    &&& data is Albums
    &&& a.display_name() == data->Albums_title@
    &&& a.norm_name() == album_title_key(data->Albums_title@)
    &&& a.upc() == data->Albums_upc@
    &&& a.songs().len() == tracks_of(included).len()
    &&& forall|k: int| 0 <= k < a.songs().len() ==> song_from_attrs(a.songs()[k], tracks_of(included)[k])
    &&& a.artists().len() == artists_of(included).len()
    &&& forall|k: int| 0 <= k < a.artists().len() ==> artist_from_attrs(a.artists()[k], artists_of(included)[k])
}

/// A track whose resources include albums and artists: the song, with those
/// albums and artists in the order given. A track among the included
/// resources, or a main resource that is no track, is an error; so is a
/// duration that does not read as seconds.
pub fn song_from_tidal(data: &TidalAttributes, included: &Vec<TidalAttributes>) -> (r: Result<
    SongData,
    ApiError,
>)
    ensures
        !(data is Tracks) ==> r == Err::<SongData, ApiError>(ApiError::IncorrectAttributes),
        data is Tracks && iso_seconds(data->Tracks_duration@) is Err ==> r
            == Err::<SongData, ApiError>(iso_seconds(data->Tracks_duration@)->Err_0),
        data is Tracks && iso_seconds(data->Tracks_duration@) is Ok && tracks_of(included@).len()
            > 0 ==> r == Err::<SongData, ApiError>(ApiError::IncorrectAttributes),
        data is Tracks && iso_seconds(data->Tracks_duration@) is Ok && tracks_of(included@).len()
            == 0 ==> r is Ok && song_from_track(r->Ok_0, *data, included@),
{
    let (title, isrc, duration) = match data {
        TidalAttributes::Tracks { title, isrc, duration } => (title, isrc, duration),
        _ => return Err(ApiError::IncorrectAttributes),
    };
    let seconds = match iso8601_to_seconds(duration.as_str()) {
        Ok(n) => n,
        Err(e) => return Err(e),
    };
    let mut i: usize = 0;
    while i < included.len()
        invariant
            i <= included@.len(),
            data is Tracks,
            iso_seconds(data->Tracks_duration@) == Ok::<u64, ApiError>(seconds),
            tracks_of(included@.take(i as int)).len() == 0,
        decreases included@.len() - i,
    {
        proof {
            let t = included@.take(i as int + 1);
            assert(t.drop_last() =~= included@.take(i as int));
            reveal(Seq::filter);
        }
        if let TidalAttributes::Tracks { .. } = &included[i] {
            proof {
                assert(tracks_of(included@.take(i as int + 1)).len() > 0);
                lemma_tracks_prefix(included@, i as int + 1);
            }
            return Err(ApiError::IncorrectAttributes);
        }
        i = i + 1;
    }
    assert(included@.take(included@.len() as int) =~= included@);
    let albums = collect_albums(included);
    let artists = collect_artists(included);
    Ok(SongData::new(title.as_str(), isrc.as_str(), seconds, albums, artists))
}

/// An album whose resources include tracks and artists: the album, with
/// those songs and artists in the order given. A main resource that is no
/// album is an error, and so is a track whose duration does not read.
pub fn album_from_tidal(data: &TidalAttributes, included: &Vec<TidalAttributes>) -> (r: Result<
    AlbumData,
    ApiError,
>)
    ensures
        !(data is Albums) ==> r == Err::<AlbumData, ApiError>(ApiError::IncorrectAttributes),
        r is Ok ==> data is Albums,
        r is Ok ==> album_from_album(r->Ok_0, *data, included@),
        data is Albums && (forall|k: int|
            0 <= k < tracks_of(included@).len() ==> iso_seconds(
                tracks_of(included@)[k]->Tracks_duration@,
            ) is Ok) ==> r is Ok,
{
    let (title, upc) = match data {
        TidalAttributes::Albums { title, upc, duration: _ } => (title, upc),
        _ => return Err(ApiError::IncorrectAttributes),
    };
    let mut songs: Vec<SongData> = Vec::new();
    let mut i: usize = 0;
    while i < included.len()
        invariant
            i <= included@.len(),
            data is Albums,
            songs@.len() == tracks_of(included@.take(i as int)).len(),
            forall|k: int|
                0 <= k < songs@.len() ==> song_from_attrs(
                    songs@[k],
                    tracks_of(included@.take(i as int))[k],
                ),
            forall|k: int|
                0 <= k < tracks_of(included@.take(i as int)).len() ==> tracks_of(
                    included@.take(i as int),
                )[k] == tracks_of(included@)[k],
        decreases included@.len() - i,
    {
        proof {
            let t = included@.take(i as int + 1);
            assert(t.drop_last() =~= included@.take(i as int));
            reveal(Seq::filter);
            lemma_tracks_prefix(included@, i as int + 1);
        }
        match &included[i] {
            TidalAttributes::Tracks { title, isrc, duration } => {
                let seconds = match iso8601_to_seconds(duration.as_str()) {
                    Ok(n) => n,
                    Err(e) => {
                        proof {
                            let k = songs@.len() as int;
                            let t = included@.take(i as int + 1);
                            assert(t.drop_last() =~= included@.take(i as int));
                            assert(t.last() == included@[i as int]);
                            assert(tracks_of(t) == tracks_of(included@.take(i as int)).push(
                                included@[i as int],
                            ));
                            assert(tracks_of(t)[k] == included@[i as int]);
                            assert(tracks_of(included@)[k] == included@[i as int]);
                            assert(iso_seconds(tracks_of(included@)[k]->Tracks_duration@) is Err);
                        }
                        return Err(e);
                    },
                };
                songs.push(
                    SongData::new(title.as_str(), isrc.as_str(), seconds, Vec::new(), Vec::new()),
                );
            },
            _ => {},
        }
        i = i + 1;
    }
    assert(included@.take(included@.len() as int) =~= included@);
    let artists = collect_artists(included);
    Ok(AlbumData::new(title.as_str(), upc.as_str(), songs, artists))
}

/// The tracks of a prefix are a prefix of the tracks.
proof fn lemma_tracks_prefix(s: Seq<TidalAttributes>, n: int)
    requires
        0 <= n <= s.len(),
    ensures
        tracks_of(s.take(n)).len() <= tracks_of(s).len(),
        forall|k: int|
            0 <= k < tracks_of(s.take(n)).len() ==> tracks_of(s.take(n))[k] == tracks_of(s)[k],
    decreases s.len() - n,
{
    reveal(Seq::filter);
    if n < s.len() {
        lemma_tracks_prefix(s, n + 1);
        let t = s.take(n + 1);
        assert(t.drop_last() =~= s.take(n));
    } else {
        assert(s.take(n) =~= s);
    }
}

/// The first candidate equivalent to `source`.
pub fn first_equivalent_song(source: &SongData, candidates: &Vec<SongData>) -> (r: Option<usize>)
    ensures
        match r {
            Some(k) => k < candidates@.len() && songs_equiv(candidates@[k as int], *source) && (forall|
                j: int,
            | 0 <= j < k ==> !songs_equiv(candidates@[j], *source)),
            None => forall|j: int|
                0 <= j < candidates@.len() ==> !songs_equiv(candidates@[j], *source),
        },
{
    let mut i: usize = 0;
    while i < candidates.len()
        invariant
            i <= candidates@.len(),
            forall|j: int| 0 <= j < i ==> !songs_equiv(candidates@[j], *source),
        decreases candidates@.len() - i,
    {
        if songs_equivalent(&candidates[i], source) {
            return Some(i);
        }
        i = i + 1;
    }
    None
}

/// The first candidate equivalent to `source`.
pub fn first_equivalent_album(source: &AlbumData, candidates: &Vec<AlbumData>) -> (r: Option<
    usize,
>)
    ensures
        match r {
            Some(k) => k < candidates@.len() && albums_equiv(candidates@[k as int], *source) && (
            forall|j: int| 0 <= j < k ==> !albums_equiv(candidates@[j], *source)),
            None => forall|j: int|
                0 <= j < candidates@.len() ==> !albums_equiv(candidates@[j], *source),
        },
{
    let mut i: usize = 0;
    while i < candidates.len()
        invariant
            i <= candidates@.len(),
            forall|j: int| 0 <= j < i ==> !albums_equiv(candidates@[j], *source),
        decreases candidates@.len() - i,
    {
        if albums_equivalent(&candidates[i], source) {
            return Some(i);
        }
        i = i + 1;
    }
    None
}

/// How many follow-up pages of an artist's albums are fetched at most.
pub const MAX_ALBUM_PAGES: u32 = 3;

/// The page to fetch after `fetched` follow-up pages, given the link to the
/// next page that the last one carried; none once the limit is reached.
pub fn next_album_page(fetched: u32, next: Option<String>) -> (r: Option<String>)
    ensures
        fetched >= MAX_ALBUM_PAGES ==> r is None,
        fetched < MAX_ALBUM_PAGES ==> r == next,
{
    if fetched >= MAX_ALBUM_PAGES {
        None
    } else {
        next
    }
}

/// The albums of a page of an artist's albums, in order; a resource that is
/// no album is an error.
pub fn artist_albums_from_tidal(included: &Vec<TidalAttributes>) -> (r: Result<
    Vec<AlbumData>,
    ApiError,
>)
    ensures
        (forall|k: int| 0 <= k < included@.len() ==> included@[k] is Albums) ==> r is Ok,
        r is Err ==> r == Err::<Vec<AlbumData>, ApiError>(ApiError::IncorrectAttributes),
        r matches Ok(v) ==> v@.len() == included@.len() && (forall|k: int|
            0 <= k < v@.len() ==> album_from_attrs(v@[k], included@[k])),
{
    let mut out: Vec<AlbumData> = Vec::new();
    let mut i: usize = 0;
    while i < included.len()
        invariant
            i <= included@.len(),
            out@.len() == i,
            forall|k: int| 0 <= k < i ==> included@[k] is Albums,
            forall|k: int| 0 <= k < i ==> album_from_attrs(out@[k], included@[k]),
        decreases included@.len() - i,
    {
        match &included[i] {
            TidalAttributes::Albums { title, upc, duration: _ } => {
                out.push(AlbumData::with_limited_info(title.as_str(), upc.as_str()));
            },
            _ => return Err(ApiError::IncorrectAttributes),
        }
        i = i + 1;
    }
    Ok(out)
}

} // verus!
