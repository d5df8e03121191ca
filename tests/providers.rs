use interlude::api::authorization::{AccessToken, TokenAction, TokenEvent};
use interlude::api::deezer::{pick_cover, song_from_deezer};
use interlude::api::spotify::{
    album_from_spotify, first_track_hit, single_album_hit, song_from_spotify, ExternalId,
};
use interlude::api::tidal::{
    album_from_tidal, duration_to_seconds, first_equivalent_album, first_equivalent_song,
    iso8601_to_seconds, song_from_tidal, IsoDuration, TidalAttributes,
};
use interlude::api::ApiError;
use interlude::server::authorization::check_authorization;
use interlude::server::link_type::LinkType as LinkKind;
use interlude::server::public_utils::get_providers;
use interlude::server::routing::{requires_authorization, route_request, Route};
use interlude::shared_item::{AlbumData, SongData};

#[test]
fn iso_durations() {
    assert_eq!(iso8601_to_seconds("PT3M20S"), Ok(200));
    assert_eq!(iso8601_to_seconds("P1DT1H1M1.600S"), Ok(86400 + 3600 + 60 + 2));
    assert_eq!(iso8601_to_seconds("P1W"), Err(ApiError::IncorrectAttributes));
    assert_eq!(iso8601_to_seconds("P1Y"), Err(ApiError::IncorrectAttributes));
    assert_eq!(iso8601_to_seconds("three minutes"), Err(ApiError::ParsingError));
    let d = IsoDuration::YMDHMS {
        year: 0,
        month: 0,
        day: 0,
        hour: 1,
        minute: 2,
        second: 3,
        millisecond: 500,
    };
    assert_eq!(duration_to_seconds(d), Some(3723));
    assert_eq!(duration_to_seconds(IsoDuration::Weeks(1)), None);
}

fn track(title: &str, isrc: &str, duration: &str) -> TidalAttributes {
    TidalAttributes::Tracks {
        title: title.to_string(),
        isrc: isrc.to_string(),
        duration: duration.to_string(),
    }
}

#[test]
fn tidal_song_mapping() {
    let included = vec![
        TidalAttributes::Albums {
            title: "All Hope Is Gone".to_string(),
            upc: "123".to_string(),
            duration: "PT50M".to_string(),
        },
        TidalAttributes::Artists { name: "Slipknot".to_string() },
    ];
    let song = song_from_tidal(&track("Snuff", "USRR1", "PT4M36S"), &included).unwrap();
    assert_eq!(song.display_name, "Snuff");
    assert_eq!(song.isrc, "USRR1");
    assert_eq!(song.albums.len(), 1);
    assert_eq!(song.albums[0].upc, "123");
    let bad = vec![track("x", "y", "PT1S")];
    assert_eq!(
        song_from_tidal(&track("Snuff", "USRR1", "PT4M36S"), &bad).unwrap_err(),
        ApiError::IncorrectAttributes
    );
    let artist = TidalAttributes::Artists { name: "Slipknot".to_string() };
    assert_eq!(song_from_tidal(&artist, &included).unwrap_err(), ApiError::IncorrectAttributes);
}

#[test]
fn tidal_album_mapping() {
    let data = TidalAttributes::Albums {
        title: "All Hope Is Gone".to_string(),
        upc: "123".to_string(),
        duration: "PT50M".to_string(),
    };
    let included = vec![track("Snuff", "A", "PT4M36S"), track("Psychosocial", "B", "PT4M44S")];
    let album = album_from_tidal(&data, &included).unwrap();
    assert_eq!(album.display_name, "All Hope Is Gone");
    assert_eq!(album.upc, "123");
    let broken = vec![track("Snuff", "A", "soon")];
    assert_eq!(album_from_tidal(&data, &broken).unwrap_err(), ApiError::ParsingError);
}

#[test]
fn tidal_candidates() {
    let source = SongData::new("Snuff", "USRR1", 276, Vec::new(), Vec::new());
    let candidates = vec![
        SongData::new("Snuff", "OTHER", 276, Vec::new(), Vec::new()),
        SongData::new("Snuff (Live)", "USRR1", 277, Vec::new(), Vec::new()),
        SongData::new("Snuff", "USRR1", 276, Vec::new(), Vec::new()),
    ];
    assert_eq!(first_equivalent_song(&source, &candidates), Some(1));
    let only_other = vec![SongData::new("Snuff", "OTHER", 276, Vec::new(), Vec::new())];
    assert_eq!(first_equivalent_song(&source, &only_other), None);
    let album = AlbumData::with_limited_info("X", "9");
    let albums = vec![AlbumData::with_limited_info("X", "8"), AlbumData::with_limited_info("Y", "9")];
    assert_eq!(first_equivalent_album(&album, &albums), Some(1));
}

#[test]
fn spotify_mapping() {
    let names = vec!["Bring Me The Horizon".to_string()];
    let song = song_from_spotify("Kingslayer", 219_999, &ExternalId::Isrc("GB1".to_string()), &names)
        .unwrap();
    assert_eq!(song.isrc, "GB1");
    assert_eq!(song.display_name, "Kingslayer");
    assert_eq!(
        song_from_spotify("K", 1, &ExternalId::Upc("1".to_string()), &names).unwrap_err(),
        ApiError::IncorrectAttributes
    );
    let album = album_from_spotify("Post Human", &ExternalId::Upc("555".to_string())).unwrap();
    assert_eq!(album.upc, "555");
    assert!(album_from_spotify("P", &ExternalId::Isrc("1".to_string())).is_err());
    let one = vec!["a".to_string()];
    let two = vec!["a".to_string(), "b".to_string()];
    assert_eq!(single_album_hit(&one), Ok("a".to_string()));
    assert_eq!(single_album_hit(&two), Err(ApiError::UnsuccessfulConversion));
    assert_eq!(first_track_hit(&two), Ok("a".to_string()));
    assert_eq!(first_track_hit(&Vec::new()), Err(ApiError::UnsuccessfulConversion));
}

#[test]
fn deezer_mapping() {
    let album = AlbumData::with_limited_info("Even In Arcadia", "777");
    let song = song_from_deezer("Look To Windward", "GBX", 300, album, "Sleep Token");
    assert_eq!(song.albums.len(), 1);
    assert_eq!(song.albums[0].upc, "777");
    assert_eq!(
        pick_cover("c".to_string(), Some("s".to_string()), None, Some("b".to_string())),
        "s"
    );
    assert_eq!(pick_cover("c".to_string(), None, None, None), "c");
    assert_eq!(
        pick_cover("c".to_string(), Some("s".to_string()), Some("m".to_string()), None),
        "m"
    );
}

#[test]
fn racing_readers_refresh_once() {
    let mut token = AccessToken::from_grant("old".to_string(), 3600, 1_000, "https://auth");
    assert!(!token.is_expired_at(4_594));
    assert!(token.is_expired_at(4_595));
    let now = 5_000;
    let mut refreshes = 0;
    let first = token.step(TokenEvent::ReadLocked { now });
    let second = token.step(TokenEvent::ReadLocked { now });
    assert!(matches!(first, TokenAction::AcquireWrite));
    assert!(matches!(second, TokenAction::AcquireWrite));
    if let TokenAction::Refresh = token.step(TokenEvent::WriteLocked { now }) {
        refreshes += 1;
        let used = token.step(TokenEvent::Refreshed { token: "new".to_string(), expires_in: 3600, now });
        assert!(matches!(used, TokenAction::Use(ref t) if t == "new"));
    }
    match token.step(TokenEvent::WriteLocked { now }) {
        TokenAction::Refresh => refreshes += 1,
        TokenAction::Use(t) => assert_eq!(t, "new"),
        _ => panic!("unexpected action"),
    }
    assert_eq!(refreshes, 1);
    assert_eq!(token.auth_endpoint(), "https://auth");
}

#[test]
fn failed_refresh_keeps_the_token() {
    let mut token = AccessToken::from_grant("old".to_string(), 10, 0, "e");
    assert!(matches!(token.step(TokenEvent::RefreshFailed), TokenAction::Fail));
    assert_eq!(token.bearer(), "old");
    let tiny = AccessToken::from_grant("t".to_string(), 2, 1, "e");
    assert!(tiny.is_expired_at(0));
}

#[test]
fn basic_authorization() {
    assert_eq!(check_authorization(Some("Basic dXNlcjpwYXNzd29yZA=="), "user:password"), Ok(()));
    assert_eq!(check_authorization(Some("Basic 1989zr1ipufbpv"), "user:password"), Err(()));
    assert_eq!(check_authorization(Some("Bearer dXNlcjpwYXNzd29yZA=="), "user:password"), Err(()));
    assert_eq!(check_authorization(None, "user:password"), Err(()));
}

#[test]
fn provider_list() {
    let p = get_providers("https://x.org");
    assert_eq!(p.len(), 3);
    assert_eq!(p[1].name, "Tidal");
    assert_eq!(p[2].logo_url, "https://x.org/public/deezer_logo.png");
    assert_eq!(p[0].icon_url, "https://x.org/public/spotify_icon.png");
    assert_eq!(LinkKind::AppleMusic.to_string(), "Apple Music");
}

#[test]
fn request_routing() {
    assert_eq!(route_request(true, "/convert"), Route::Convert);
    assert_eq!(route_request(true, "/providers/"), Route::Providers);
    assert_eq!(route_request(true, "//public/./logo.png"), Route::PublicFile("logo.png".to_string()));
    assert_eq!(
        route_request(true, "/public/..secret"),
        Route::BadRequest("Invalid path".to_string())
    );
    assert_eq!(
        route_request(true, "/public"),
        Route::BadRequest("Filename must be provided".to_string())
    );
    assert_eq!(route_request(true, "/"), Route::BadRequest("Resource cannot be empty".to_string()));
    assert_eq!(
        route_request(false, "/convert"),
        Route::BadRequest("Invalid method or resource".to_string())
    );
    assert!(!requires_authorization("/public/logo.png"));
    assert!(requires_authorization("/convert"));
}
