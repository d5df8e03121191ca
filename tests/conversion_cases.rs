use interlude::api::conversion::{
    assemble_results, chain_start, chain_step, plan_conversion, ApiClients, ChainEvent,
    ChainState, ConversionError, Link, ProviderMatch,
};
use interlude::api::{
    artwork_album, check_artist_link, check_data_to_link, check_link_to_data, ApiError,
};
use interlude::config::{ClientCredentials, Credentials};
use interlude::share_link::{CountryCode, LinkType, ShareLink, ShareLinkError, ShareObject};
use interlude::shared_item::{AlbumData, ArtistData, Data, SongData};

fn all_clients() -> ApiClients {
    ApiClients { spotify: true, tidal: true, deezer: true, apple_music: false }
}

fn song() -> Data {
    Data::Song(SongData::new(
        "Heavy Is the Crown",
        "USABC",
        200,
        vec![AlbumData::with_limited_info("Heavy Is the Crown", "U1")],
        vec![ArtistData::without_albums("Linkin Park")],
    ))
}

fn found(t: LinkType, id: &str, art: &str) -> Result<ProviderMatch, ApiError> {
    Ok(ProviderMatch {
        link: ShareLink::new(t, ShareObject::Song, id, &CountryCode::us()),
        data: song(),
        artwork: art.to_string(),
    })
}

#[test]
fn failing_provider_is_left_out() {
    let link = plan_conversion(
        "https://open.spotify.com/track/2HBBM75Xv3o2Mqdyh1NcM0?si=fb796f70fcb6449c",
        &all_clients(),
    )
    .unwrap();
    assert_eq!(link.link_type, LinkType::Spotify);
    let outcomes = vec![
        found(LinkType::Spotify, "5Aw7tCjLgKTAF1mRXQfVHm", "https://i.scdn.co/image/a"),
        Err(ApiError::RequestError),
        found(LinkType::Deezer, "2994098971", "https://cover"),
    ];
    let results = assemble_results(&outcomes).results;
    assert_eq!(
        results,
        vec![
            Link {
                provider: "Spotify".to_string(),
                object_type: "Song".to_string(),
                display_name: "Heavy Is the Crown".to_string(),
                url: "https://open.spotify.com/track/5Aw7tCjLgKTAF1mRXQfVHm".to_string(),
                artwork: "https://i.scdn.co/image/a".to_string(),
            },
            Link {
                provider: "Deezer".to_string(),
                object_type: "Song".to_string(),
                display_name: "Heavy Is the Crown".to_string(),
                url: "https://www.deezer.com/track/2994098971".to_string(),
                artwork: "https://cover".to_string(),
            },
        ]
    );
}

#[test]
fn plan_reports_parse_and_configuration_errors() {
    assert_eq!(
        plan_conversion("ftp://x", &all_clients()).unwrap_err(),
        ConversionError::Link(ShareLinkError::InvalidUrl)
    );
    assert_eq!(
        plan_conversion("https://music.apple.com/us/song/x/1", &all_clients()).unwrap_err(),
        ConversionError::ApiClient(ApiError::UnsupportedFeature)
    );
    let only_deezer = ApiClients { spotify: false, tidal: false, deezer: true, apple_music: false };
    assert!(plan_conversion("https://tidal.com/browse/track/1", &only_deezer).is_err());
    assert!(plan_conversion("https://www.deezer.com/track/1", &only_deezer).is_ok());
}

#[test]
fn supported_clients_follow_provider_order() {
    assert_eq!(
        all_clients().get_supported_clients(),
        vec![LinkType::Spotify, LinkType::Tidal, LinkType::Deezer]
    );
    let mut creds = Credentials::empty();
    assert_eq!(
        creds.configured_clients().get_supported_clients(),
        vec![LinkType::Deezer]
    );
    creds.tidal = Some(ClientCredentials {
        client_id: "id".to_string(),
        client_secret: "SECRET-REDACTED".to_string(),
    });
    assert_eq!(
        creds.configured_clients().get_supported_clients(),
        vec![LinkType::Tidal, LinkType::Deezer]
    );
}

#[test]
fn dispatch_checks() {
    let tidal_artist = ShareLink::new(LinkType::Tidal, ShareObject::Artist, "1", &CountryCode::us());
    let tidal_song = ShareLink::new(LinkType::Tidal, ShareObject::Song, "1", &CountryCode::us());
    assert_eq!(
        check_link_to_data(LinkType::Tidal, &tidal_artist),
        Err(ApiError::UnsupportedFeature)
    );
    assert_eq!(
        check_link_to_data(LinkType::Spotify, &tidal_song),
        Err(ApiError::UnsuitableLink)
    );
    assert_eq!(check_link_to_data(LinkType::Tidal, &tidal_song), Ok(()));
    assert_eq!(check_data_to_link(LinkType::AppleMusic, &song()), Err(ApiError::UnsupportedFeature));
    assert_eq!(check_data_to_link(LinkType::Deezer, &song()), Ok(()));
    let s = song();
    assert_eq!(artwork_album(LinkType::Deezer, &s).unwrap().upc, "U1");
    let bare = Data::Song(SongData::new("x", "", 0, Vec::new(), Vec::new()));
    assert!(matches!(
        artwork_album(LinkType::Deezer, &bare),
        Err(ApiError::IncorrectAttributes)
    ));
}

#[test]
fn error_messages() {
    assert_eq!(
        ConversionError::Link(ShareLinkError::NotAShareLink).message(),
        "The provided URL is not an accepted share link."
    );
    assert_eq!(ApiError::UnsuccessfulConversion.message(), "Conversion unsuccessful.");
}

fn tidal_link(id: &str) -> ShareLink {
    ShareLink::new(LinkType::Tidal, ShareObject::Song, id, &CountryCode::us())
}

fn locating() -> ChainState {
    ChainState::Locating { provider: LinkType::Tidal, kind: ShareObject::Song }
}

fn illustrating(keep: bool) -> ChainState {
    ChainState::Illustrating { link: tidal_link("1"), data: song(), keep_without_artwork: keep }
}

#[test]
fn provider_chain_runs_to_a_match() {
    let source = ShareLink::new(LinkType::Spotify, ShareObject::Song, "s1", &CountryCode::us());
    let state = chain_start(LinkType::Tidal, source.copy(), song());
    assert!(matches!(
        state,
        ChainState::Locating { provider: LinkType::Tidal, kind: ShareObject::Song }
    ));
    let state = chain_step(state, ChainEvent::Located(Ok(tidal_link("387265136"))));
    assert!(matches!(state, ChainState::Fetching(ref l) if l.id == "387265136"));
    let state = chain_step(state, ChainEvent::Fetched(Ok(song())));
    let state = chain_step(state, ChainEvent::Illustrated(Ok("art".to_string())));
    match state {
        ChainState::Finished(Ok(m)) => {
            assert_eq!(m.link.id, "387265136");
            assert_eq!(m.artwork, "art");
        }
        _ => panic!("the chain should have finished with a match"),
    }
}

#[test]
fn source_keeps_its_entry_without_artwork() {
    let source = ShareLink::new(LinkType::Spotify, ShareObject::Song, "s1", &CountryCode::us());
    let own = chain_start(LinkType::Spotify, source, song());
    assert!(matches!(
        own,
        ChainState::Illustrating { ref link, keep_without_artwork: true, .. } if link.id == "s1"
    ));
    match chain_step(own, ChainEvent::Illustrated(Err(ApiError::RequestError))) {
        ChainState::Finished(Ok(m)) => {
            assert_eq!(m.link.id, "s1");
            assert_eq!(m.artwork, "");
        }
        _ => panic!("the source keeps its entry"),
    }
    let album_source = ShareLink::new(LinkType::Spotify, ShareObject::Album, "a1", &CountryCode::us());
    assert!(matches!(
        chain_start(LinkType::Deezer, album_source, song()),
        ChainState::Finished(Err(ApiError::IncorrectAttributes))
    ));
}

#[test]
fn provider_chain_stops_at_a_failure() {
    let state = chain_step(locating(), ChainEvent::Located(Err(ApiError::RequestError)));
    assert!(matches!(state, ChainState::Finished(Err(ApiError::RequestError))));
    let deezer = ShareLink::new(LinkType::Deezer, ShareObject::Song, "1", &CountryCode::us());
    let state = chain_step(locating(), ChainEvent::Located(Ok(deezer)));
    assert!(matches!(state, ChainState::Finished(Err(ApiError::UnsuitableLink))));
    let state = chain_step(ChainState::Fetching(tidal_link("1")), ChainEvent::Fetched(Err(ApiError::ParsingError)));
    assert!(matches!(state, ChainState::Finished(Err(ApiError::ParsingError))));
    let album = Data::Album(AlbumData::with_limited_info("A", "1"));
    let state = chain_step(ChainState::Fetching(tidal_link("1")), ChainEvent::Fetched(Ok(album)));
    assert!(matches!(state, ChainState::Finished(Err(ApiError::IncorrectAttributes))));
    let state = chain_step(
        illustrating(false),
        ChainEvent::Illustrated(Err(ApiError::UnsuccessfulConversion)),
    );
    assert!(matches!(state, ChainState::Finished(Err(ApiError::UnsuccessfulConversion))));
    let state = chain_step(locating(), ChainEvent::Fetched(Ok(song())));
    assert!(matches!(state, ChainState::Locating { .. }));
}

#[test]
fn artist_link_check() {
    let artist = ShareLink::new(LinkType::Tidal, ShareObject::Artist, "5036395", &CountryCode::us());
    assert_eq!(check_artist_link(LinkType::Tidal, &artist), Ok(()));
    assert_eq!(check_artist_link(LinkType::Spotify, &artist), Err(ApiError::UnsuitableLink));
    assert_eq!(check_artist_link(LinkType::Tidal, &tidal_link("1")), Err(ApiError::UnsuitableLink));
}
