//! Spotify: the mapping of decoded responses into entities, and the choice
//! among search hits.
use vstd::prelude::*;
use crate::api::ApiError;
use crate::shared_item::norm::{album_title_key, artist_name_key, song_title_key};
use crate::shared_item::{AlbumData, ArtistData, SongData};

verus! {

/// The external identifier Spotify reports for an object.
pub enum ExternalId {
    Isrc(String),
    Upc(String),
}

/// The artists of `names`, each known by name only, in order.
pub fn artists_named(names: &Vec<String>) -> (r: Vec<ArtistData>)
    ensures
        r@.len() == names@.len(),
        forall|k: int|
            0 <= k < r@.len() ==> r@[k].display_name() == names@[k]@ && r@[k].norm_name()
                == artist_name_key(names@[k]@) && r@[k].albums().len() == 0,
{
    let mut out: Vec<ArtistData> = Vec::new();
    let mut i: usize = 0;
    while i < names.len()
        invariant
            i <= names@.len(),
            out@.len() == i,
            forall|k: int|
                0 <= k < i ==> out@[k].display_name() == names@[k]@ && out@[k].norm_name()
                    == artist_name_key(names@[k]@) && out@[k].albums().len() == 0,
        decreases names@.len() - i,
    {
        out.push(ArtistData::new(names[i].as_str(), Vec::new()));
        i = i + 1;
    }
    out
}

/// A track: its name, duration in whole seconds, ISRC and artists. A track
/// that reports a UPC instead of an ISRC is an error.
pub fn song_from_spotify(
    name: &str,
    duration_ms: u64,
    external_id: &ExternalId,
    artist_names: &Vec<String>,
) -> (r: Result<SongData, ApiError>)
    ensures
        external_id is Upc ==> r == Err::<SongData, ApiError>(ApiError::IncorrectAttributes),
        external_id is Isrc ==> r is Ok,
        r matches Ok(s) ==> {
            &&& s.display_name() == name@
            &&& s.norm_name() == song_title_key(name@)
            &&& s.isrc() == external_id->Isrc_0@
            &&& s.duration() == duration_ms / 1000
            &&& s.albums().len() == 0
            &&& s.artists().len() == artist_names@.len()
            &&& forall|k: int|
                0 <= k < artist_names@.len() ==> s.artists()[k].display_name()
                    == artist_names@[k]@ && s.artists()[k].norm_name() == artist_name_key(
                    artist_names@[k]@,
                )
        },
{
    match external_id {
        ExternalId::Isrc(isrc) => {
            let artists = artists_named(artist_names);
            Ok(SongData::new(name, isrc.as_str(), duration_ms / 1000, Vec::new(), artists))
        },
        ExternalId::Upc(_) => Err(ApiError::IncorrectAttributes),
    }
}

/// An album known by its name and UPC. An album that reports an ISRC
/// instead of a UPC is an error.
pub fn album_from_spotify(name: &str, external_id: &ExternalId) -> (r: Result<AlbumData, ApiError>)
    ensures
        external_id is Isrc ==> r == Err::<AlbumData, ApiError>(ApiError::IncorrectAttributes),
        external_id is Upc ==> r is Ok,
        r matches Ok(a) ==> {
            &&& a.display_name() == name@
            &&& a.norm_name() == album_title_key(name@)
            &&& a.upc() == external_id->Upc_0@
            &&& a.songs().len() == 0
            &&& a.artists().len() == 0
        },
{
    match external_id {
        ExternalId::Upc(upc) => Ok(AlbumData::with_limited_info(name, upc.as_str())),
        ExternalId::Isrc(_) => Err(ApiError::IncorrectAttributes),
    }
}

/// The id of the only album a UPC search found; none or several is an error.
pub fn single_album_hit(ids: &Vec<String>) -> (r: Result<String, ApiError>)
    ensures
        ids@.len() == 1 ==> r is Ok && r->Ok_0@ == ids@[0]@,
        ids@.len() != 1 ==> r == Err::<String, ApiError>(ApiError::UnsuccessfulConversion),
{
    if ids.len() != 1 {
        return Err(ApiError::UnsuccessfulConversion);
    }
    Ok(ids[0].clone())
}

/// The id of the first track an ISRC search found; none is an error.
pub fn first_track_hit(ids: &Vec<String>) -> (r: Result<String, ApiError>)
    ensures
        ids@.len() > 0 ==> r is Ok && r->Ok_0@ == ids@[0]@,
        ids@.len() == 0 ==> r == Err::<String, ApiError>(ApiError::UnsuccessfulConversion),
{
    if ids.len() == 0 {
        return Err(ApiError::UnsuccessfulConversion);
    }
    Ok(ids[0].clone())
}

} // verus!
