//! Provider credentials, and which providers they enable.
use vstd::prelude::*;
use crate::api::conversion::ApiClients;

verus! {

/// OAuth2 client credentials of one provider.
#[derive(Debug, Clone)]
pub struct ClientCredentials {
    pub client_id: String,
    pub client_secret: String,
}

/// A static access secret.
#[derive(Debug, Clone)]
pub struct AccessToken {
    pub secret: String,
}

/// The credentials configured for each provider.
#[derive(Debug, Clone)]
pub struct Credentials {
    pub tidal: Option<ClientCredentials>,
    pub spotify: Option<ClientCredentials>,
    pub apple_music: Option<AccessToken>,
}

impl Credentials {
    /// No credentials at all.
    pub fn empty() -> (r: Credentials)
        ensures
            r.tidal is None,
            r.spotify is None,
            r.apple_music is None,
    {
        Credentials { tidal: None, spotify: None, apple_music: None }
    }

    /// The providers these credentials enable: Spotify and Tidal when their
    /// credentials are present, Deezer always, as it needs none; Apple Music
    /// is not served.
    pub fn configured_clients(&self) -> (r: ApiClients)
        ensures
            r == (ApiClients {
                spotify: self.spotify is Some,
                tidal: self.tidal is Some,
                deezer: true,
                apple_music: false,
            }),
    {
        ApiClients {
            spotify: self.spotify.is_some(),
            tidal: self.tidal.is_some(),
            deezer: true,
            apple_music: false,
        }
    }
}

} // verus!
