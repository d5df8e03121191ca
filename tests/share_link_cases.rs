use interlude::share_link::{CountryCode, LinkType, ShareLink, ShareLinkError, ShareObject};

fn parsed(url: &str) -> ShareLink {
    ShareLink::from_url(url).unwrap()
}

#[test]
fn spotify_locale_link_parses_to_its_country() {
    let link = parsed("https://open.spotify.com/intl-de/track/36puuD04lEUD8kVwQsTLm6?si=abc");
    assert_eq!(link.link_type, LinkType::Spotify);
    assert_eq!(link.share_obj, ShareObject::Song);
    assert_eq!(link.country_code, CountryCode::from_alpha2("DE").unwrap());
    assert_eq!(link.id, "36puuD04lEUD8kVwQsTLm6");
}

#[test]
fn tidal_link_defaults_to_us() {
    let link = parsed("https://tidal.com/browse/track/300807510?u");
    assert_eq!(link.link_type, LinkType::Tidal);
    assert_eq!(link.share_obj, ShareObject::Song);
    assert_eq!(link.country_code.alpha2(), "US");
    assert_eq!(link.id, "300807510");
}

#[test]
fn spotify_link_without_locale_defaults_to_us() {
    let link = parsed("https://open.spotify.com/album/4OXoBlapQygTdzAifJm8BL?si=x");
    assert_eq!(link.country_code.alpha2(), "US");
    assert_eq!(link.share_obj, ShareObject::Album);
    assert_eq!(link.id, "4OXoBlapQygTdzAifJm8BL");
}

#[test]
fn deezer_link_parses() {
    let link = parsed("https://www.deezer.com/track/2994098971");
    assert_eq!(link.link_type, LinkType::Deezer);
    assert_eq!(link.share_obj, ShareObject::Song);
    assert_eq!(link.id, "2994098971");
}

#[test]
fn wrong_scheme_is_invalid_url() {
    assert_eq!(
        ShareLink::from_url("http://open.spotify.com/track/abc").unwrap_err(),
        ShareLinkError::InvalidUrl
    );
    assert_eq!(ShareLink::from_url("").unwrap_err(), ShareLinkError::InvalidUrl);
    assert_eq!(
        ShareLink::from_url("https:/tidal.com/browse/track/1").unwrap_err(),
        ShareLinkError::InvalidUrl
    );
}

#[test]
fn unknown_host_is_not_a_share_link() {
    assert_eq!(
        ShareLink::from_url("https://example.com/track/abc").unwrap_err(),
        ShareLinkError::NotAShareLink
    );
}

#[test]
fn malformed_paths_are_rejected() {
    let cases = [
        "https://open.spotify.com/intl-zz/track/abc",
        "https://open.spotify.com/song/abc",
        "https://open.spotify.com/playlist/abc",
        "https://open.spotify.com/track/?si=1",
        "https://open.spotify.com/track/abc/extra",
        "https://open.spotify.com/track",
        "https://tidal.com/track/1",
        "https://music.apple.com/us/song/1810905307",
        "https://music.apple.com/xx/song/name/1810905307",
        "https://music.apple.com/us/playlist/name/1",
    ];
    for url in cases {
        assert_eq!(
            ShareLink::from_url(url).unwrap_err(),
            ShareLinkError::MalformedOrInvalidLink,
            "{}",
            url
        );
    }
}

#[test]
fn empty_ids_are_rejected() {
    for url in [
        "https://tidal.com/browse/track/",
        "https://www.deezer.com/album/",
        "https://music.apple.com/us/song/name/?x=1",
    ] {
        assert_eq!(
            ShareLink::from_url(url).unwrap_err(),
            ShareLinkError::MalformedOrInvalidLink,
            "{}",
            url
        );
    }
}

#[test]
fn parsing_stops_at_the_query_string() {
    let link = parsed("https://open.spotify.com/track/abc?si=a/b/c");
    assert_eq!(link.id, "abc");
    let link = parsed("https://tidal.com/browse/album/412502324?u/extra");
    assert_eq!(link.id, "412502324");
}

#[test]
fn apple_music_country_is_case_insensitive() {
    let link = parsed("https://music.apple.com/De/album/virgin/1810905299");
    assert_eq!(link.country_code.alpha2(), "DE");
}

#[test]
fn canonical_urls() {
    assert_eq!(
        parsed("https://tidal.com/browse/track/300807510?u").to_url(),
        "https://tidal.com/browse/track/300807510"
    );
    assert_eq!(
        parsed("https://open.spotify.com/track/5Aw7tCjLgKTAF1mRXQfVHm?si=1").to_url(),
        "https://open.spotify.com/track/5Aw7tCjLgKTAF1mRXQfVHm"
    );
    assert_eq!(
        parsed("https://music.apple.com/us/song/what-was-that/1810905307").to_url(),
        "https://music.apple.com/us/song/-/1810905307"
    );
    assert_eq!(
        parsed("https://open.spotify.com/intl-de/track/36puuD04lEUD8kVwQsTLm6?si=1").to_url(),
        "https://open.spotify.com/intl-de/track/36puuD04lEUD8kVwQsTLm6"
    );
    let deezer = ShareLink::new(
        LinkType::Deezer,
        ShareObject::Album,
        "252187122",
        &CountryCode::us(),
    );
    assert_eq!(deezer.to_url(), "https://www.deezer.com/album/252187122");
}

#[test]
fn round_trip_keeps_the_link() {
    let urls = [
        "https://tidal.com/browse/album/412502324?u",
        "https://open.spotify.com/artist/3IrUyDPQlQFcB5lMWhPml2?si=1",
        "https://music.apple.com/de/artist/lorde/602767352",
        "https://www.deezer.com/track/3330723931",
        "https://open.spotify.com/intl-de/track/36puuD04lEUD8kVwQsTLm6?si=8847fe60c51b48c6",
        "https://open.spotify.com/intl-us/album/1EOHCAqQjeA1hNXsJTlzFF",
    ];
    for url in urls {
        let first = parsed(url);
        let again = parsed(&first.to_url());
        assert_eq!(first, again, "{}", url);
    }
}

#[test]
fn link_type_names() {
    assert_eq!(LinkType::Spotify.to_string(), "Spotify");
    assert_eq!(LinkType::AppleMusic.to_string(), "AppleMusic");
    assert!(CountryCode::from_alpha2("de").is_none());
    assert!(CountryCode::from_alpha2("GB").is_some());
}
