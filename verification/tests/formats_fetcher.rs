use spotidown::{
    select_format, select_track, AudioFormat, FileFormat, Quality, SpotifyError, TrackInfo,
};

#[test]
fn extensions_are_exact() {
    assert_eq!(AudioFormat::OGG.extension(), "ogg");
    assert_eq!(AudioFormat::AAC.extension(), "m4a");
    assert_eq!(AudioFormat::MP3.extension(), "mp3");
    assert_eq!(AudioFormat::MP4.extension(), "mp4");
    assert_eq!(AudioFormat::Unknown.extension(), "");
}

#[test]
fn file_format_maps_to_container() {
    assert_eq!(AudioFormat::from(FileFormat::OggVorbis320), AudioFormat::OGG);
    assert_eq!(AudioFormat::from(FileFormat::Mp3160Enc), AudioFormat::MP3);
    assert_eq!(AudioFormat::from(FileFormat::Aac160), AudioFormat::AAC);
    assert_eq!(AudioFormat::from(FileFormat::Mp4128Dual), AudioFormat::MP4);
    assert_eq!(AudioFormat::from(FileFormat::Other3), AudioFormat::Unknown);
    assert_eq!(AudioFormat::from(FileFormat::Other5), AudioFormat::Unknown);
}

#[test]
fn quality_fallback_chain_descends() {
    assert_eq!(Quality::Q320.fallback(), Some(Quality::Q256));
    assert_eq!(Quality::Q256.fallback(), Some(Quality::Q160));
    assert_eq!(Quality::Q160.fallback(), Some(Quality::Q96));
    assert_eq!(Quality::Q96.fallback(), None);
}

#[test]
fn quality_tier_format_lists() {
    assert_eq!(
        Quality::Q320.get_file_formats(),
        vec![FileFormat::OggVorbis320, FileFormat::Aac320, FileFormat::Mp3320]
    );
    assert_eq!(Quality::Q256.get_file_formats(), vec![FileFormat::Mp3256]);
    assert_eq!(
        Quality::Q160.get_file_formats(),
        vec![FileFormat::OggVorbis160, FileFormat::Aac160, FileFormat::Mp3160]
    );
    assert_eq!(
        Quality::Q96.get_file_formats(),
        vec![FileFormat::OggVorbis96, FileFormat::Mp396]
    );
}

#[test]
fn quality_labels() {
    assert_eq!(Quality::Q320.label(), "320kbps");
    assert_eq!(Quality::Q256.label(), "256kbps");
    assert_eq!(Quality::Q160.label(), "160kbps");
    assert_eq!(Quality::Q96.label(), "96kbps");
    assert_eq!(
        Quality::all(),
        vec![Quality::Q320, Quality::Q256, Quality::Q160, Quality::Q96]
    );
}

#[test]
fn q320_request_falls_back_to_q96_only_track() {
    // The track offers only a lowest-tier encoding: the resolver returns that
    // variant instead of an error.
    let files = vec![(FileFormat::OggVorbis96, "file-a".to_string())];
    let picked = select_format(&files, Quality::Q320).unwrap();
    assert_eq!(picked.0, Quality::Q96);
    assert_eq!(picked.1, FileFormat::OggVorbis96);
    assert_eq!(picked.2, "file-a");
}

#[test]
fn select_format_prefers_tier_order_not_file_order() {
    let files = vec![
        (FileFormat::Mp3320, "mp3-file".to_string()),
        (FileFormat::OggVorbis320, "ogg-file".to_string()),
    ];
    let picked = select_format(&files, Quality::Q320).unwrap();
    assert_eq!(picked.1, FileFormat::OggVorbis320);
    assert_eq!(picked.2, "ogg-file");
}

#[test]
fn select_format_exhausted_chain_is_none() {
    let files = vec![(FileFormat::Other3, "x".to_string())];
    assert!(select_format(&files, Quality::Q320).is_none());
    assert!(select_format(&Vec::new(), Quality::Q96).is_none());
}

fn track(id: &str, available: bool) -> TrackInfo {
    TrackInfo { id: id.to_string(), available, files: Vec::new() }
}

#[test]
fn select_track_prefers_available_primary() {
    let picked = select_track(track("p", true), vec![track("a", true)]).unwrap();
    assert_eq!(picked.id, "p");
}

#[test]
fn select_track_adopts_first_available_alternative() {
    let picked =
        select_track(track("p", false), vec![track("a0", false), track("a1", true), track("a2", true)])
            .unwrap();
    assert_eq!(picked.id, "a1");
}

#[test]
fn select_track_unavailable_when_no_alternative_is() {
    let r = select_track(track("p", false), vec![track("a0", false)]);
    assert!(matches!(r, Err(SpotifyError::Unavailable)));
    let r = select_track(track("p", false), Vec::new());
    assert!(matches!(r, Err(SpotifyError::Unavailable)));
}
