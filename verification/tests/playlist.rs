use fetching_core::cache::{build_temp_path, format_track_display, get_artist_name_from_vec, CoverCache};
use fetching_core::container::{CollectionType, Track, TrackCollection};
use fetching_core::m3u::{build_m3u_entry, calculate_relative_path, m3u_text, M3uEntry};
use fetching_core::playlist::{m3u8_text, playlist_dir, relative_path, TrackEntry};

#[test]
fn relative_path_same_dir() {
    assert_eq!(relative_path("/a/b/c", "/a/b/c/track.ogg"), "track.ogg");
}

#[test]
fn relative_path_sibling_dir() {
    assert_eq!(
        relative_path("/music/Playlists/My List", "/music/Artist/Album/01 - Song.ogg"),
        "../../Artist/Album/01 - Song.ogg",
    );
}

#[test]
fn relative_path_child_dir() {
    assert_eq!(
        relative_path("/music", "/music/Artist/Album/01 - Song.ogg"),
        "Artist/Album/01 - Song.ogg",
    );
}

#[test]
fn test_calculate_relative_path_simple() {
    let relative = calculate_relative_path(
        "/home/user/Music/Playlists/MyPlaylist.m3u",
        "/home/user/Music/Artist/Album/track.ogg",
    )
    .unwrap();
    assert_eq!(relative, "../Artist/Album/track.ogg");
}

#[test]
fn test_calculate_relative_path_nested() {
    let relative = calculate_relative_path(
        "/home/user/Music/Playlists/Rock/MyPlaylist.m3u",
        "/home/user/Music/Artist/Album/track.ogg",
    )
    .unwrap();
    assert_eq!(relative, "../../Artist/Album/track.ogg");
}

#[test]
fn m3u_text_lists_entries() {
    let entries = vec![
        M3uEntry {
            duration: 213,
            artist: "Artist One".to_string(),
            title: "Track One".to_string(),
            file_path: "/tmp/x/../Music/Artist/Album/track1.ogg".to_string(),
        },
        M3uEntry {
            duration: 180,
            artist: "Artist Two".to_string(),
            title: "Track Two".to_string(),
            file_path: "/tmp/Music/Artist2/Album2/track2.ogg".to_string(),
        },
    ];
    let content = m3u_text("/tmp/x/test.m3u8", &entries, Some("https://open.spotify.com/album/1")).unwrap();
    assert!(content.starts_with("#EXTM3U\n# Source: https://open.spotify.com/album/1\n"));
    assert!(content.contains("#EXTINF:213,Artist One - Track One\n"));
    assert!(content.contains("#EXTINF:180,Artist Two - Track Two\n../Music/Artist2/Album2/track2.ogg\n"));
    assert!(!content.contains('\\'));
    assert_eq!(m3u_text("/p.m3u", &vec![], None).unwrap(), "#EXTM3U\n");
    assert!(m3u_text("/tmp/x/test.m3u8", &vec![M3uEntry {
        duration: 1,
        artist: "a".into(),
        title: "t".into(),
        file_path: "relative/track.ogg".into(),
    }], None).is_err());
}

#[test]
fn m3u_entry_from_metadata() {
    let e = build_m3u_entry(&vec![], 213_999, "Song".to_string(), "/m/a.ogg".to_string());
    assert_eq!(e.duration, 213);
    assert_eq!(e.artist, "Unknown Artist");
    let f = build_m3u_entry(&vec!["A".into(), "B".into()], 999, "S".into(), "/x".into());
    assert_eq!(f.duration, 0);
    assert_eq!(f.artist, "A");
}

fn collection() -> TrackCollection {
    TrackCollection {
        uri_str: "spotify:album:xyz".to_string(),
        collection_type: CollectionType::Album,
        title: "Flood".to_string(),
        artists: vec!["TMBG".to_string(), "Other".to_string()],
        cover_id: None,
        upc: Some("0123".to_string()),
        total_tracks: 2,
        label: None,
        date: None,
        track_uris: vec![],
    }
}

#[test]
fn m3u8_text_has_header_and_entries() {
    let tracks = vec![
        TrackEntry { final_path: "/music/TMBG/1990 - Flood/01 - A.ogg".into(), title: "A".into(), duration_ms: 61_500 },
        TrackEntry { final_path: "/music/TMBG/1990 - Flood/02 - B.ogg".into(), title: "B".into(), duration_ms: -1_500 },
    ];
    let text = m3u8_text("/music/TMBG/1990 - Flood", &collection(), &tracks);
    assert_eq!(
        text,
        "#EXTM3U\n#PLAYLIST:Flood\n#EXTART:TMBG\n# Spotify-URI: spotify:album:xyz\n# UPC: 0123\n\n#EXTINF:61,A\n01 - A.ogg\n#EXTINF:-1,B\n02 - B.ogg\n"
    );
    assert_eq!(playlist_dir("/music/x/list.m3u8").as_deref(), Some("/music/x"));
}

#[test]
fn cache_helpers() {
    assert_eq!(get_artist_name_from_vec(&vec![]), "Unknown Artist");
    assert_eq!(get_artist_name_from_vec(&vec!["X".into(), "Y".into()]), "X");
    assert_eq!(build_temp_path("/m/a/01 - t.ogg"), "/m/a/01 - t.tmp.ogg");
    assert_eq!(format_track_display(3, 12, "Song"), "Track 3 of 12: Song");
}

fn track_with_cover(cover: Option<&str>) -> Track {
    Track {
        uri_str: "spotify:track:t".to_string(),
        title: "T".to_string(),
        artists: vec![],
        cover_id: cover.map(str::to_string),
        isrc: None,
        duration_ms: 1,
        disc_number: None,
        number: None,
        date: None,
        explicit: false,
        language: vec![],
    }
}

#[test]
fn cover_ids_are_collected_once_each() {
    let cache = CoverCache::new("/covers".to_string());
    let tracks = vec![track_with_cover(Some("a")), track_with_cover(Some("b")), track_with_cover(Some("a")), track_with_cover(None)];
    let mut ids = cache.collect_unique_covers(&Some("c".to_string()), &tracks);
    ids.sort();
    assert_eq!(ids, vec!["a".to_string(), "b".to_string(), "c".to_string()]);
    let same = vec![track_with_cover(Some("a")), track_with_cover(Some("a"))];
    assert_eq!(cache.collect_unique_covers(&Some("x".to_string()), &same).len(), 2);
    assert_eq!(cache.get_cover_path_from_id("abc123"), "/covers/abc123.jpg");
}

#[test]
fn relative_path_leads_back_to_the_file() {
    let base = "/music/Playlists/My List";
    for target in ["/music/Artist/Album/01 - Song.ogg", "/music/Playlists/My List/a.ogg", "/other/x.ogg"] {
        let rel = relative_path(base, target);
        let names = |p: &std::path::Path| -> Vec<String> {
            p.components().map(|c| c.as_os_str().to_string_lossy().into_owned()).collect()
        };
        let mut both = names(std::path::Path::new(base));
        both.extend(names(std::path::Path::new(&rel)));
        assert_eq!(names(&std::path::Path::new(base).join(&rel)), both, "via {rel}");
        let mut resolved: Vec<String> = std::path::Path::new(base)
            .components()
            .map(|c| c.as_os_str().to_string_lossy().into_owned())
            .collect();
        for part in std::path::Path::new(&rel).components() {
            let part = part.as_os_str().to_string_lossy().into_owned();
            if part == ".." {
                resolved.pop();
            } else {
                resolved.push(part);
            }
        }
        let mut joined = std::path::PathBuf::new();
        for part in &resolved {
            joined.push(part);
        }
        assert_eq!(joined, std::path::PathBuf::from(target), "via {rel}");
    }
}

#[test]
fn playlist_dir_drops_the_last_component() {
    assert_eq!(playlist_dir("/"), None);
    assert_eq!(playlist_dir(""), None);
    assert_eq!(playlist_dir("list.m3u8").as_deref(), Some(""));
    assert_eq!(playlist_dir("/music//x/list.m3u8").as_deref(), Some("/music//x"));
}

#[test]
fn temp_path_replaces_only_the_last_extension() {
    assert_eq!(build_temp_path("/m/a/x.y.ogg"), "/m/a/x.y.tmp.ogg");
    assert_eq!(build_temp_path("/m/a/.hidden"), "/m/a/.hidden.tmp.ogg");
    assert_eq!(build_temp_path("/m/a/noext"), "/m/a/noext.tmp.ogg");
    assert_eq!(build_temp_path("/"), "/");
    assert_eq!(build_temp_path("a/.."), "a/..");
    let names = |p: &str| -> Vec<String> {
        std::path::Path::new(p).components().map(|c| c.as_os_str().to_string_lossy().into_owned()).collect()
    };
    assert_eq!(names(&build_temp_path("/m/a/x.ogg/")), vec!["/", "m", "a", "x.tmp.ogg"]);
}
