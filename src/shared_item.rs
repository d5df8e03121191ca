//! Songs, albums and artists as fetched from providers, their normalised
//! names, and the fuzzy equivalence that decides whether two of them denote
//! the same work.
pub mod entity;
pub mod norm;
pub mod tokens;

pub use entity::{AlbumData, ArtistData, SongData};
use entity::{same_album, same_artist, same_song};

use vstd::prelude::*;
use crate::share_link::ShareObject;

verus! {

/// The data of one shared catalogue object.
pub enum Data {
    Song(SongData),
    Album(AlbumData),
    Artist(ArtistData),
}

/// The kind of object some data describes.
pub open spec fn data_kind(d: Data) -> ShareObject {
    match d {
        Data::Song(_) => ShareObject::Song,
        Data::Album(_) => ShareObject::Album,
        Data::Artist(_) => ShareObject::Artist,
    }
}

/// The name of a kind of object, as used in conversion results.
pub open spec fn object_name(o: ShareObject) -> Seq<char> {
    match o {
        ShareObject::Song => "Song"@,
        ShareObject::Album => "Album"@,
        ShareObject::Artist => "Artist"@,
    }
}

pub open spec fn data_type_name(d: Data) -> Seq<char> {
    object_name(data_kind(d))
}

pub open spec fn data_display_name(d: Data) -> Seq<char> {
    match d {
        Data::Song(s) => s.display_name(),
        Data::Album(a) => a.display_name(),
        Data::Artist(a) => a.display_name(),
    }
}

impl Data {
    /// The kind of object, as named in conversion results.
    pub fn get_type(&self) -> (r: String)
        ensures
            r@ == data_type_name(*self),
    {
        match self {
            Data::Song(_) => String::from_str("Song"),
            Data::Album(_) => String::from_str("Album"),
            Data::Artist(_) => String::from_str("Artist"),
        }
    }

    /// The kind of object this data describes.
    pub fn kind(&self) -> (r: ShareObject)
        ensures
            r == data_kind(*self),
    {
        match self {
            Data::Song(_) => ShareObject::Song,
            Data::Album(_) => ShareObject::Album,
            Data::Artist(_) => ShareObject::Artist,
        }
    }

    /// A copy of this data, all the way down.
    pub fn copy(&self) -> (r: Data)
        ensures
            match (*self, r) {
                (Data::Song(a), Data::Song(b)) => same_song(a, b),
                (Data::Album(a), Data::Album(b)) => same_album(a, b),
                (Data::Artist(a), Data::Artist(b)) => same_artist(a, b),
                _ => false,
            },
    {
        match self {
            Data::Song(s) => Data::Song(s.copy()),
            Data::Album(a) => Data::Album(a.copy()),
            Data::Artist(a) => Data::Artist(a.copy()),
        }
    }

    /// The object's name as its provider displays it.
    pub fn get_display_name(&self) -> (r: String)
        ensures
            r@ == data_display_name(*self),
    {
        match self {
            Data::Song(s) => s.get_display_name(),
            Data::Album(a) => a.get_display_name(),
            Data::Artist(a) => a.get_display_name(),
        }
    }
}

} // verus!
