//! Deezer: the mapping of decoded responses into entities, and the choice of
//! cover art.
use vstd::prelude::*;
use crate::shared_item::entity::same_album;
use crate::shared_item::norm::{artist_name_key, song_title_key};
use crate::shared_item::{AlbumData, ArtistData, SongData};

verus! {

/// A track with its album and its one artist, who is credited with that
/// album.
pub fn song_from_deezer(title: &str, isrc: &str, duration: u64, album: AlbumData, artist_name: &str) -> (r:
    SongData)
    ensures
        r.display_name() == title@,
        r.norm_name() == song_title_key(title@),
        r.isrc() == isrc@,
        r.duration() == duration,
        r.albums() == seq![album],
        r.artists().len() == 1,
        r.artists()[0].display_name() == artist_name@,
        r.artists()[0].norm_name() == artist_name_key(artist_name@),
        r.artists()[0].albums().len() == 1,
        same_album(album, r.artists()[0].albums()[0]),
{
    let credited = album.copy();
    let artist = ArtistData::new(artist_name, vec![credited]);
    let ghost a = artist;
    let r = SongData::new(title, isrc, duration, vec![album], vec![artist]);
    assert(r.artists() =~= seq![a]);
    r
}

/// The cover to show: the medium one, else the small one, else the big one,
/// else the default cover.
pub fn pick_cover(
    cover: String,
    cover_small: Option<String>,
    cover_medium: Option<String>,
    cover_big: Option<String>,
) -> (r: String)
    ensures
        r@ == (match cover_medium {
            Some(m) => m@,
            None => match cover_small {
                Some(s) => s@,
                None => match cover_big {
                    Some(b) => b@,
                    None => cover@,
                },
            },
        }),
{
    match cover_medium {
        Some(m) => m,
        None => match cover_small {
            Some(s) => s,
            None => match cover_big {
                Some(b) => b,
                None => cover,
            },
        },
    }
}

} // verus!
