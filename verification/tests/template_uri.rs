use spotidown::{
    count_char, join_values, output_path, parse_uri, render_filename, replace_all, split_char,
    starts_with, str_eq, trim_ascii, u32_to_padded2, u32_to_padded4, u32_to_string, uri_parts,
    AudioFormat, SpotifyError, TrackMetadata, UriKind,
};

fn track() -> TrackMetadata {
    TrackMetadata {
        name: "C".to_string(),
        artists: vec!["A/B".to_string()],
        album_name: "Album".to_string(),
        album_artists: vec!["X".to_string(), "Y".to_string()],
        track_number: 7,
        disc_number: 1,
    }
}

#[test]
fn template_sanitizes_path_separators_out_of_fields() {
    // An artist holding a path separator never puts one into the file name.
    let name = render_filename("%artist% - %title%", &track(), "id1");
    assert_eq!(name, "AB - C");
    assert!(!name.contains('/'));
    assert!(!name.contains('\\'));
}

#[test]
fn template_substitutes_every_placeholder() {
    let t = track();
    assert_eq!(render_filename("%title%", &t, "id1"), "C");
    assert_eq!(render_filename("%artist%", &t, "id1"), "AB");
    assert_eq!(render_filename("%artists%", &t, "id1"), "AB");
    assert_eq!(render_filename("%track%", &t, "id1"), "7");
    assert_eq!(render_filename("%0track%", &t, "id1"), "07");
    assert_eq!(render_filename("%disc%", &t, "id1"), "1");
    assert_eq!(render_filename("%0disc%", &t, "id1"), "01");
    assert_eq!(render_filename("%id%", &t, "id1"), "id1");
    assert_eq!(render_filename("%album%", &t, "id1"), "Album");
    assert_eq!(render_filename("%albumArtist%", &t, "id1"), "X");
    assert_eq!(render_filename("%albumArtists%", &t, "id1"), "X, Y");
}

#[test]
fn template_with_no_artists_uses_empty_value() {
    let mut t = track();
    t.artists = Vec::new();
    assert_eq!(render_filename("[%artist%] %title%", &t, "id1"), "[] C");
}

#[test]
fn template_leaves_unknown_text_alone() {
    let t = track();
    assert_eq!(render_filename("plain name", &t, "id1"), "plain name");
}

#[test]
fn output_path_extension_follows_conversion() {
    let (path, format) = output_path("/music/Root", "A - B", AudioFormat::OGG, false);
    assert_eq!(path, "/music/Root/A - B.ogg");
    assert_eq!(format, AudioFormat::OGG);
    let (path, format) = output_path("/music/Root", "A - B", AudioFormat::OGG, true);
    assert_eq!(path, "/music/Root/A - B.mp3");
    assert_eq!(format, AudioFormat::MP3);
}

#[test]
fn decimal_formatting_is_exact() {
    assert_eq!(u32_to_string(0), "0");
    assert_eq!(u32_to_string(7), "7");
    assert_eq!(u32_to_string(1234), "1234");
    assert_eq!(u32_to_string(u32::MAX), "4294967295");
    assert_eq!(u32_to_padded2(5), "05");
    assert_eq!(u32_to_padded2(12), "12");
    assert_eq!(u32_to_padded2(123), "123");
    assert_eq!(u32_to_padded4(3), "0003");
    assert_eq!(u32_to_padded4(33), "0033");
    assert_eq!(u32_to_padded4(333), "0333");
    assert_eq!(u32_to_padded4(2021), "2021");
}

#[test]
fn string_helpers_behave() {
    assert_eq!(replace_all("aaa", "aa", "b"), "ba");
    assert_eq!(replace_all("x%t%y%t%", "%t%", "Q"), "xQyQ");
    assert_eq!(replace_all("abc", "", "Q"), "abc");
    assert_eq!(join_values(&vec![], ", "), "");
    assert_eq!(join_values(&vec!["a".to_string()], ", "), "a");
    assert_eq!(join_values(&vec!["a".to_string(), "b".to_string()], "; "), "a; b");
    assert_eq!(split_char("a:b:c", ':'), vec!["a", "b", "c"]);
    assert_eq!(split_char("", ':'), vec![""]);
    assert_eq!(split_char("::", ':'), vec!["", "", ""]);
    assert_eq!(count_char("a:b:c", ':'), 2);
    assert!(starts_with("spotify:track:x", "spotify:"));
    assert!(!starts_with("spot", "spotify:"));
    assert!(str_eq("abc", "abc"));
    assert!(!str_eq("abc", "abd"));
    assert_eq!(trim_ascii("  image/png \t"), "image/png");
    assert_eq!(trim_ascii(""), "");
}

#[test]
fn parse_uri_passes_canonical_uris_through() {
    assert_eq!(parse_uri("spotify:track:abc123").unwrap(), "spotify:track:abc123");
    assert!(matches!(parse_uri("spotify:x"), Err(SpotifyError::InvalidUri)));
}

#[test]
fn parse_uri_converts_web_player_urls() {
    let r = parse_uri("https://open.spotify.com/track/abc123?si=xyz").unwrap();
    assert_eq!(r, "spotify:track:abc123");
    let r = parse_uri("https://open.spotify.com/album/al9").unwrap();
    assert_eq!(r, "spotify:album:al9");
}

#[test]
fn parse_uri_rejects_foreign_and_malformed_input() {
    assert!(matches!(parse_uri("https://example.com/track/abc"), Err(SpotifyError::InvalidUri)));
    assert!(matches!(parse_uri("not a uri"), Err(SpotifyError::InvalidUri)));
    assert!(matches!(parse_uri("https://open.spotify.com"), Err(SpotifyError::InvalidUri)));
}

#[test]
fn uri_parts_names_the_kind_and_id() {
    let (kind, id) = uri_parts("spotify:track:abc").unwrap();
    assert_eq!(kind, UriKind::Track);
    assert_eq!(id, "abc");
    let (kind, _) = uri_parts("spotify:playlist:p1").unwrap();
    assert_eq!(kind, UriKind::Playlist);
    let (kind, _) = uri_parts("spotify:album:a1").unwrap();
    assert_eq!(kind, UriKind::Album);
    let (kind, _) = uri_parts("spotify:show:s1").unwrap();
    assert_eq!(kind, UriKind::Other);
    assert!(uri_parts("spotify:track").is_none());
}
