use fetching_core::container::CollectionType;
use fetching_core::uri::{normalise_uri, spotify_uri_text, to_collection_type, uris_from_text, UriError};

#[test]
fn spotify_uri_passes_through_unchanged() {
    assert_eq!(
        normalise_uri("spotify:album:2moJkIdXsBQBpBVJiu2IVR").unwrap(),
        "spotify:album:2moJkIdXsBQBpBVJiu2IVR"
    );
}

#[test]
fn https_url_album_is_converted() {
    assert_eq!(
        normalise_uri("https://open.spotify.com/album/2moJkIdXsBQBpBVJiu2IVR").unwrap(),
        "spotify:album:2moJkIdXsBQBpBVJiu2IVR"
    );
}

#[test]
fn https_url_track_is_converted() {
    assert_eq!(
        normalise_uri("https://open.spotify.com/track/4iV5W9uYEdYUVa79Axb7Rh").unwrap(),
        "spotify:track:4iV5W9uYEdYUVa79Axb7Rh"
    );
}

#[test]
fn https_url_with_si_query_param_is_stripped() {
    assert_eq!(
        normalise_uri("https://open.spotify.com/album/2moJkIdXsBQBpBVJiu2IVR?si=abc123").unwrap(),
        "spotify:album:2moJkIdXsBQBpBVJiu2IVR"
    );
}

#[test]
fn https_url_playlist_is_converted() {
    assert_eq!(
        normalise_uri("https://open.spotify.com/playlist/37i9dQZF1DXcBWIGoYBM5M?si=xyz").unwrap(),
        "spotify:playlist:37i9dQZF1DXcBWIGoYBM5M"
    );
}

#[test]
fn https_url_show_is_converted() {
    assert_eq!(
        normalise_uri("https://open.spotify.com/show/4rOoJ6Egrf8K2IrywzwOMk").unwrap(),
        "spotify:show:4rOoJ6Egrf8K2IrywzwOMk"
    );
}

#[test]
fn https_url_episode_is_converted() {
    assert_eq!(
        normalise_uri("https://open.spotify.com/episode/7makk4oTQel546B0PZlDM5").unwrap(),
        "spotify:episode:7makk4oTQel546B0PZlDM5"
    );
}

#[test]
fn garbage_input_returns_error() {
    assert!(normalise_uri("not-a-spotify-thing").is_err());
}

#[test]
fn https_url_missing_id_returns_error() {
    assert!(normalise_uri("https://open.spotify.com/album/").is_err());
}

#[test]
fn normalise_uri_error_kinds_and_edges() {
    assert!(matches!(normalise_uri("https://open.spotify.com/album/"), Err(UriError::MalformedLink { .. })));
    assert!(matches!(normalise_uri("https://open.spotify.com/album"), Err(UriError::MalformedLink { .. })));
    match normalise_uri("ftp://x") {
        Err(UriError::Unrecognised { input }) => assert_eq!(input, "ftp://x"),
        other => panic!("unexpected {:?}", other),
    }
    assert_eq!(
        normalise_uri("https://open.spotify.com/ track /abc#frag").unwrap(),
        "spotify:track:abc"
    );
    assert_eq!(
        normalise_uri("https://open.spotify.com/album/a/b").unwrap(),
        "spotify:album:a/b"
    );
}

#[test]
fn bare_ids_are_taken_as_tracks() {
    assert_eq!(spotify_uri_text("4uLU6hMCjMI75M1A2tKUQC"), "spotify:track:4uLU6hMCjMI75M1A2tKUQC");
    assert_eq!(spotify_uri_text("spotify:album:1A2GTWGtFfWp7KSQTwWOyo"), "spotify:album:1A2GTWGtFfWp7KSQTwWOyo");
}

#[test]
fn uri_file_lines_skip_blanks_and_comments() {
    let text = "spotify:track:a\n\n  # comment\n  spotify:album:b  \r\n#x\nlast";
    let uris = uris_from_text(text).unwrap();
    assert_eq!(uris, vec!["spotify:track:a".to_string(), "spotify:album:b".to_string(), "last".to_string()]);
    assert!(uris_from_text("# only\n\n   \n").is_none());
    assert!(uris_from_text("").is_none());
}

#[test]
fn item_types_map_to_collection_kinds() {
    assert_eq!(to_collection_type("album"), Some(CollectionType::Album));
    assert_eq!(to_collection_type("PLAYLIST"), Some(CollectionType::Playlist));
    assert_eq!(to_collection_type("show"), Some(CollectionType::Show));
    assert_eq!(to_collection_type("track"), Some(CollectionType::SingleTrack));
    assert_eq!(to_collection_type("episode"), Some(CollectionType::SingleEpisode));
    assert_eq!(to_collection_type("EpIsOdE"), Some(CollectionType::SingleEpisode));
    assert_eq!(to_collection_type("artist"), None);
}

#[test]
fn test_parse_spotify_uri_with_track_prefix() {
    let uri = fetching_core::uri::parse_spotify_uri("spotify:track:4uLU6hMCjMI75M1A2tKUQC").unwrap();
    assert_eq!(uri.item_type, "track", "Expected Track URI");
}

#[test]
fn test_parse_spotify_uri_with_album_prefix() {
    let uri = fetching_core::uri::parse_spotify_uri("spotify:album:1A2GTWGtFfWp7KSQTwWOyo").unwrap();
    assert_eq!(uri.item_type, "album", "Expected Album URI");
}

#[test]
fn test_parse_spotify_uri_with_playlist_prefix() {
    let uri = fetching_core::uri::parse_spotify_uri("spotify:playlist:37i9dQZF1DX0XUsuxWHRQd").unwrap();
    assert_eq!(uri.item_type, "playlist", "Expected Playlist URI");
}

#[test]
fn test_parse_spotify_uri_bare_id_assumes_track() {
    let uri = fetching_core::uri::parse_spotify_uri("4uLU6hMCjMI75M1A2tKUQC").unwrap();
    assert_eq!(uri.item_type, "track", "Expected Track URI for bare ID");
    assert_eq!(uri.id, "4uLU6hMCjMI75M1A2tKUQC");
}

#[test]
fn test_parse_spotify_uri_invalid() {
    let result = fetching_core::uri::parse_spotify_uri("invalid:stuff:here");
    assert!(result.is_err());
    assert!(matches!(result, Err(fetching_core::uri::UriParseError::InvalidTrackId { .. })));
    assert!(matches!(
        fetching_core::uri::parse_spotify_uri("spotify:bogus"),
        Err(fetching_core::uri::UriParseError::InvalidUri { .. })
    ));
}

#[test]
fn unicode_whitespace_is_trimmed_from_links() {
    assert_eq!(
        normalise_uri("https://open.spotify.com/album/\u{3000}2moJkIdXsBQBpBVJiu2IVR\u{2003}").unwrap(),
        "spotify:album:2moJkIdXsBQBpBVJiu2IVR"
    );
}
