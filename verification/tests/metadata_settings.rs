use spotidown::{
    download_from_track, downloads_from_tracks, failure_state, pagination_done, tracks_of_entries,
    DownloadState, DownloaderConfig, Quality, Settings, SpotifyError, TrackSummary,
};

fn summary(id: &str, name: &str, artists: &[&str]) -> TrackSummary {
    TrackSummary {
        id: id.to_string(),
        name: name.to_string(),
        artists: artists.iter().map(|a| a.to_string()).collect(),
    }
}

#[test]
fn download_from_track_uses_first_artist_as_subtitle() {
    let d = download_from_track(summary("t1", "Song", &["First", "Second"]));
    assert_eq!(d.id, 0);
    assert_eq!(d.track_id, "t1");
    assert_eq!(d.title, "Song");
    assert_eq!(d.subtitle, "First");
    assert!(matches!(d.state, DownloadState::Queued));
}

#[test]
fn download_from_track_without_artists() {
    let d = download_from_track(summary("t1", "Song", &[]));
    assert_eq!(d.subtitle, "");
}

#[test]
fn downloads_from_tracks_keeps_listing_order() {
    let ds = downloads_from_tracks(vec![summary("a", "A", &[]), summary("b", "B", &["x"])]);
    assert_eq!(ds.len(), 2);
    assert_eq!(ds[0].track_id, "a");
    assert_eq!(ds[1].track_id, "b");
    assert_eq!(ds[1].subtitle, "x");
}

#[test]
fn tracks_of_entries_drops_non_track_items() {
    let tracks = tracks_of_entries(vec![
        None,
        Some(summary("a", "A", &[])),
        None,
        Some(summary("b", "B", &[])),
    ]);
    assert_eq!(tracks.len(), 2);
    assert_eq!(tracks[0].id, "a");
    assert_eq!(tracks[1].id, "b");
}

#[test]
fn pagination_stops_exactly_at_the_declared_total() {
    assert_eq!(pagination_done(0, 100, 250), (100, false));
    assert_eq!(pagination_done(100, 100, 250), (200, false));
    assert_eq!(pagination_done(200, 50, 250), (250, true));
    assert_eq!(pagination_done(0, 0, 0), (0, true));
}

#[test]
fn failure_state_carries_the_error_message() {
    let s = failure_state(&SpotifyError::Unavailable);
    assert!(matches!(&s, DownloadState::Error(m) if m == "track unavailable"));
    let s = failure_state(&SpotifyError::Io("disk full".to_string()));
    assert!(matches!(&s, DownloadState::Error(m) if m == "disk full"));
    let s = failure_state(&SpotifyError::Error("boom".to_string()));
    assert!(matches!(&s, DownloadState::Error(m) if m == "boom"));
}

#[test]
fn error_messages_are_descriptive() {
    assert_eq!(SpotifyError::Unavailable.describe(), "track unavailable");
    assert_eq!(SpotifyError::InvalidUri.describe(), "invalid URI");
    assert_eq!(SpotifyError::InvalidFormat.describe(), "invalid format");
    assert_eq!(SpotifyError::Encoder(-3).describe(), "encoder error");
}

#[test]
fn default_config_matches_the_documented_defaults() {
    // The default configuration needs a platform audio directory; where the
    // environment defines none, there is no default.
    if let Some(c) = DownloaderConfig::default() {
        assert_eq!(c.concurrent_downloads, 4);
        assert_eq!(c.quality, Quality::Q320);
        assert!(c.path.ends_with("/SpotiDown"));
        assert_eq!(c.filename_template, "%artist% - %title%");
        assert!(c.id3v24);
        assert!(!c.convert_to_mp3);
        assert_eq!(c.separator, ", ");
    }
}

#[test]
fn settings_capture_credentials() {
    if let Some(s) = Settings::new("user", "pass", "cid", "csecret") {
        assert_eq!(s.username, "user");
        assert_eq!(s.password, "pass");
        assert_eq!(s.client_id, "cid");
        assert_eq!(s.client_secret, "csecret");
        assert_eq!(s.downloader.concurrent_downloads, 4);
    }
}

#[test]
fn settings_path_lies_under_the_config_folder() {
    if let Some(p) = Settings::get_path() {
        assert!(p.ends_with("/spotidown/settings.json"));
    }
    if let Some(f) = Settings::get_folder() {
        assert!(f.ends_with("/spotidown"));
    }
}
