//! Provider access: errors, access tokens, provider-specific decisions and
//! the conversion of a link into links of other providers.
pub mod authorization;
pub mod conversion;
pub mod deezer;
pub mod spotify;
pub mod tidal;

use vstd::prelude::*;
use crate::share_link::{LinkModel, LinkType, ShareLink, ShareObject};
use crate::shared_item::{AlbumData, Data};

verus! {

/// Why a provider could not serve a request.
#[derive(Clone, Copy, Debug, PartialEq, Eq, Structural)]
pub enum ApiError {
    /// The transport failed.
    RequestError,
    /// The response could not be decoded.
    ParsingError,
    /// The link's platform or object type does not fit the operation.
    UnsuitableLink,
    /// No valid access token could be had.
    AuthorizationError,
    /// The response held attributes of the wrong kind.
    IncorrectAttributes,
    /// No matching object was found.
    UnsuccessfulConversion,
    /// The provider does not offer the operation.
    UnsupportedFeature,
}

/// The message shown for an error.
pub open spec fn api_error_message(e: ApiError) -> Seq<char> {
    match e {
        ApiError::RequestError => "The request to the provider failed."@,
        ApiError::ParsingError => "The provider's response could not be decoded."@,
        ApiError::UnsuitableLink => "The provided link does not have the correct attributes."@,
        ApiError::AuthorizationError => "Authorization with the provider failed."@,
        ApiError::IncorrectAttributes => "Found incorrect attributes in the response."@,
        ApiError::UnsuccessfulConversion => "Conversion unsuccessful."@,
        ApiError::UnsupportedFeature => "This feature is currently not supported"@,
    }
}

impl ApiError {
    pub fn message(&self) -> (r: String)
        ensures
            r@ == api_error_message(*self),
    {
        match self {
            ApiError::RequestError => String::from_str("The request to the provider failed."),
            ApiError::ParsingError => String::from_str("The provider's response could not be decoded."),
            ApiError::UnsuitableLink => String::from_str(
                "The provided link does not have the correct attributes.",
            ),
            ApiError::AuthorizationError => String::from_str("Authorization with the provider failed."),
            ApiError::IncorrectAttributes => String::from_str(
                "Found incorrect attributes in the response.",
            ),
            ApiError::UnsuccessfulConversion => String::from_str("Conversion unsuccessful."),
            ApiError::UnsupportedFeature => String::from_str(
                "This feature is currently not supported",
            ),
        }
    }
}

/// Whether `provider` can fetch the data a link points at: the link must be
/// the provider's own; Apple Music and artist links are not served.
pub open spec fn fetch_check(provider: LinkType, link: LinkModel) -> Result<(), ApiError> {
    if link.link_type != provider {
        Err(ApiError::UnsuitableLink)
    } else if provider == LinkType::AppleMusic || link.share_obj == ShareObject::Artist {
        Err(ApiError::UnsupportedFeature)
    } else {
        Ok(())
    }
}

/// Whether `provider` can look up its own link for the data: Apple Music and
/// artists are not served.
pub open spec fn lookup_check(provider: LinkType, data: Data) -> Result<(), ApiError> {
    if provider == LinkType::AppleMusic || data is Artist {
        Err(ApiError::UnsupportedFeature)
    } else {
        Ok(())
    }
}

/// Checks that `provider` can fetch the data `link` points at.
pub fn check_link_to_data(provider: LinkType, link: &ShareLink) -> (r: Result<(), ApiError>)
    ensures
        r == fetch_check(provider, link@),
{
    if link.link_type != provider {
        Err(ApiError::UnsuitableLink)
    } else if provider == LinkType::AppleMusic || link.share_obj == ShareObject::Artist {
        Err(ApiError::UnsupportedFeature)
    } else {
        Ok(())
    }
}

/// Checks that `link` is an artist link of `provider`.
pub fn check_artist_link(provider: LinkType, link: &ShareLink) -> (r: Result<(), ApiError>)
    ensures
        r is Ok == (link.link_type == provider && link.share_obj == ShareObject::Artist),
        r is Err ==> r == Err::<(), ApiError>(ApiError::UnsuitableLink),
{
    if link.link_type != provider || link.share_obj != ShareObject::Artist {
        Err(ApiError::UnsuitableLink)
    } else {
        Ok(())
    }
}

/// Checks that `provider` can look up its own link for `data`.
pub fn check_data_to_link(provider: LinkType, data: &Data) -> (r: Result<(), ApiError>)
    ensures
        r == lookup_check(provider, *data),
{
    if provider == LinkType::AppleMusic {
        return Err(ApiError::UnsupportedFeature);
    }
    match data {
        Data::Artist(_) => Err(ApiError::UnsupportedFeature),
        _ => Ok(()),
    }
}

/// The album whose cover stands for `data`: the album itself, or a song's
/// first album. Apple Music and artists are not served; a song without
/// albums has no cover.
pub fn artwork_album<'a>(provider: LinkType, data: &'a Data) -> (r: Result<&'a AlbumData, ApiError>)
    ensures
        provider == LinkType::AppleMusic || data is Artist ==> r == Err::<&AlbumData, ApiError>(
            ApiError::UnsupportedFeature,
        ),
        provider != LinkType::AppleMusic ==> match data {
            Data::Album(a) => r == Ok::<&AlbumData, ApiError>(a),
            Data::Song(s) => if s.albums().len() > 0 {
                r == Ok::<&AlbumData, ApiError>(&s.albums()[0])
            } else {
                r == Err::<&AlbumData, ApiError>(ApiError::IncorrectAttributes)
            },
            Data::Artist(_) => true,
        },
{
    if provider == LinkType::AppleMusic {
        return Err(ApiError::UnsupportedFeature);
    }
    match data {
        Data::Album(a) => Ok(a),
        Data::Song(s) => {
            let albums = s.get_albums();
            if albums.len() > 0 {
                Ok(&albums[0])
            } else {
                Err(ApiError::IncorrectAttributes)
            }
        },
        Data::Artist(_) => Err(ApiError::UnsupportedFeature),
    }
}

} // verus!
