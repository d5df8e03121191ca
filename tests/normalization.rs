use interlude::shared_item::norm::{
    normalize_album_title, normalize_artist_name, normalize_song_title,
};

#[test]
fn track_examples() {
    assert_eq!(
        normalize_song_title("Shape of You (Extended Version)"),
        "shape of you"
    );
    assert_eq!(
        normalize_song_title("Hôtel California – Live 1999"),
        "hotel california"
    );
}

#[test]
fn track_feat_and_decorations() {
    // Strip feat./ft./featuring, with and without parentheses
    assert_eq!(
        normalize_song_title("Blinding Lights (feat. ROSALÍA)"),
        "blinding lights"
    );
    assert_eq!(
        normalize_song_title("Blinding Lights feat. ROSALIA"),
        "blinding lights"
    );
    assert_eq!(
        normalize_song_title("Blinding Lights ft. Rosalia"),
        "blinding lights"
    );
    assert_eq!(
        normalize_song_title("Blinding Lights (featuring Rosalia)"),
        "blinding lights"
    );

    // Remove various decorations
    assert_eq!(
        normalize_song_title("Song Name (Remastered 2014)"),
        "song name"
    );
    assert_eq!(
        normalize_song_title("Song Name [Acoustic Version]"),
        "song name"
    );
    assert_eq!(
        normalize_song_title("Song Name – Live"),
        "song name"
    );
    assert_eq!(
        normalize_song_title("Song Name – Live 2001"),
        "song name"
    );
    assert_eq!(
        normalize_song_title("Song Name - Mix"),
        "song name"
    );

    // HTML entity & quotes, punctuation stripping, whitespace collapse
    assert_eq!(normalize_song_title("Rock &amp; Roll"), "rock roll");
    assert_eq!(normalize_song_title("“Hello”"), "hello");
    assert_eq!(normalize_song_title("  Don't   Stop  (Remaster) "), "dont stop");
}

#[test]
fn album_examples() {
    assert_eq!(
        normalize_album_title("Back to Black (Deluxe Edition)"),
        "back to black"
    );
}

#[test]
fn album_more_cases() {
    // Keep EP/Single labels that are part of the main title
    assert_eq!(normalize_album_title("Random Title - EP"), "random title ep");
    assert_eq!(normalize_album_title("Random Title - Single"), "random title single");

    // Strip typical album-level decorations
    assert_eq!(
        normalize_album_title("Album (Remastered 2011) [Deluxe Edition]"),
        "album"
    );
    assert_eq!(
        normalize_album_title("Album – Anniversary Edition"),
        "album"
    );
}

#[test]
fn artist_examples() {
    assert_eq!(normalize_artist_name("Beyoncé & JAY-Z"), "beyonce and jay z");
    assert_eq!(normalize_artist_name("AC/DC"), "acdc");
}

#[test]
fn artist_connectors_sort_and_dedup() {
    // Mix of connectors; tokens sorted & deduped
    assert_eq!(
        normalize_artist_name("Beyoncé x JAY-Z & Ed Sheeran"),
        "beyonce and ed sheeran and jay z"
    );
    assert_eq!(
        normalize_artist_name("Beyoncé & Beyoncé"),
        "beyonce"
    );
    assert_eq!(
        normalize_artist_name("Various Artists & Beyoncé"),
        "beyonce"
    );
    assert_eq!(
        normalize_artist_name("Artist1, Artist2; Artist3 + Artist1"),
        "artist1 and artist2 and artist3"
    );
}
