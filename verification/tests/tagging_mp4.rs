use mp4ameta::{DataIdent, ImgFmt, Userdata};
use spotidown::{
    build_tag_fields, cover_kind, mp4_add_cover, mp4_set_field, mp4_set_raw, mp4_set_release_date,
    tag_kind_for, write_mp4_tags, AlbumInfo, AudioFormat, CoverKind, Field, ReleaseDate,
    SpotifyError, TagKind, TrackMetadata,
};

fn strings_under(tag: &Userdata, ident: &DataIdent) -> Vec<String> {
    tag.strings_of(ident).map(|s| s.to_string()).collect()
}

#[test]
fn tag_kind_dispatch_by_container() {
    assert_eq!(tag_kind_for(AudioFormat::OGG).unwrap(), TagKind::Vorbis);
    assert_eq!(tag_kind_for(AudioFormat::AAC).unwrap(), TagKind::Mp4);
    assert_eq!(tag_kind_for(AudioFormat::MP3).unwrap(), TagKind::Id3);
    assert_eq!(tag_kind_for(AudioFormat::MP4).unwrap(), TagKind::Mp4);
    assert!(matches!(tag_kind_for(AudioFormat::Unknown), Err(SpotifyError::InvalidFormat)));
}

#[test]
fn set_field_joins_values_with_separator() {
    let mut tag = Userdata::default();
    let values = vec!["One".to_string(), "Two".to_string()];
    mp4_set_field(&mut tag, &Field::Artist, &values, "; ");
    let ident = DataIdent::fourcc([0xa9, b'A', b'R', b'T']);
    assert_eq!(strings_under(&tag, &ident), vec!["One; Two"]);
}

#[test]
fn set_field_uses_the_container_codes() {
    let mut tag = Userdata::default();
    mp4_set_field(&mut tag, &Field::Title, &vec!["T".to_string()], ", ");
    mp4_set_field(&mut tag, &Field::Album, &vec!["Al".to_string()], ", ");
    mp4_set_field(&mut tag, &Field::TrackNumber, &vec!["7".to_string()], ", ");
    mp4_set_field(&mut tag, &Field::DiscNumber, &vec!["1".to_string()], ", ");
    mp4_set_field(&mut tag, &Field::AlbumArtist, &vec!["AA".to_string()], ", ");
    mp4_set_field(&mut tag, &Field::Genre, &vec!["G".to_string()], ", ");
    mp4_set_field(&mut tag, &Field::Label, &vec!["L".to_string()], ", ");
    assert_eq!(strings_under(&tag, &DataIdent::fourcc([0xa9, b'n', b'a', b'm'])), vec!["T"]);
    assert_eq!(strings_under(&tag, &DataIdent::fourcc([0xa9, b'a', b'l', b'b'])), vec!["Al"]);
    assert_eq!(strings_under(&tag, &DataIdent::fourcc(*b"trkn")), vec!["7"]);
    assert_eq!(strings_under(&tag, &DataIdent::fourcc(*b"disk")), vec!["1"]);
    assert_eq!(strings_under(&tag, &DataIdent::fourcc(*b"aART")), vec!["AA"]);
    assert_eq!(strings_under(&tag, &DataIdent::fourcc([0xa9, b'g', b'e', b'n'])), vec!["G"]);
    assert_eq!(
        strings_under(&tag, &DataIdent::freeform("com.apple.iTunes", "LABEL")),
        vec!["L"]
    );
}

#[test]
fn set_raw_collapses_utf8_copyright_prefix() {
    let mut tag = Userdata::default();
    // "\u{a9}too" has five UTF-8 bytes opening with 194, 169.
    mp4_set_raw(&mut tag, "\u{a9}too", &vec!["v".to_string()]);
    assert_eq!(strings_under(&tag, &DataIdent::fourcc([0xa9, b't', b'o', b'o'])), vec!["v"]);
}

#[test]
fn set_raw_four_bytes_is_a_code_and_longer_is_freeform() {
    let mut tag = Userdata::default();
    mp4_set_raw(&mut tag, "test", &vec!["a".to_string(), "b".to_string()]);
    assert_eq!(strings_under(&tag, &DataIdent::fourcc(*b"test")), vec!["a", "b"]);
    mp4_set_raw(&mut tag, "MYTAG", &vec!["x".to_string()]);
    assert_eq!(
        strings_under(&tag, &DataIdent::freeform("com.apple.iTunes", "MYTAG")),
        vec!["x"]
    );
}

#[test]
fn release_date_becomes_midnight_utc_iso_timestamp() {
    let mut tag = Userdata::default();
    mp4_set_release_date(&mut tag, &ReleaseDate { year: 2021, month: 3, day: 4 });
    assert_eq!(
        strings_under(&tag, &DataIdent::fourcc([0xa9, b'd', b'a', b'y'])),
        vec!["2021-03-04T00:00:00+00:00"]
    );
}

#[test]
fn cover_kind_trims_and_rejects_unsupported_mimes() {
    assert_eq!(cover_kind("image/jpeg"), Some(CoverKind::Jpeg));
    assert_eq!(cover_kind("image/jpg"), Some(CoverKind::Jpeg));
    assert_eq!(cover_kind(" image/png "), Some(CoverKind::Png));
    assert_eq!(cover_kind("image/gif"), None);
    assert_eq!(cover_kind(""), None);
}

#[test]
fn unsupported_cover_is_skipped_not_fatal() {
    let mut tag = Userdata::default();
    let added = mp4_add_cover(&mut tag, "image/gif", vec![1, 2, 3]);
    assert!(!added);
    assert_eq!(tag.artworks().count(), 0);
}

#[test]
fn supported_cover_is_stored() {
    let mut tag = Userdata::default();
    assert!(mp4_add_cover(&mut tag, "image/jpeg", vec![9, 8, 7]));
    let art = tag.artwork().unwrap();
    assert_eq!(art.fmt, ImgFmt::Jpeg);
    assert_eq!(art.data, [9u8, 8, 7].as_slice());
    let mut tag = Userdata::default();
    assert!(mp4_add_cover(&mut tag, "image/png", vec![1]));
    assert_eq!(tag.artworks().count(), 1);
}

#[test]
fn whole_tag_write_round_trips_through_the_container() {
    let track = TrackMetadata {
        name: "Song".to_string(),
        artists: vec!["A".to_string(), "B".to_string()],
        album_name: "Alb".to_string(),
        album_artists: vec!["AA".to_string()],
        track_number: 3,
        disc_number: 2,
    };
    let album = AlbumInfo {
        genres: vec!["Rock".to_string()],
        label: "Label Records".to_string(),
        release_date: ReleaseDate { year: 1999, month: 12, day: 31 },
    };
    let fields = build_tag_fields(&track, &album);
    let mut tag = Userdata::default();
    write_mp4_tags(
        &mut tag,
        &fields,
        &album.release_date,
        Some(("image/png".to_string(), vec![5, 5])),
        ", ",
    );
    assert_eq!(strings_under(&tag, &DataIdent::fourcc([0xa9, b'n', b'a', b'm'])), vec!["Song"]);
    assert_eq!(strings_under(&tag, &DataIdent::fourcc([0xa9, b'A', b'R', b'T'])), vec!["A, B"]);
    assert_eq!(strings_under(&tag, &DataIdent::fourcc(*b"trkn")), vec!["3"]);
    assert_eq!(strings_under(&tag, &DataIdent::fourcc(*b"disk")), vec!["2"]);
    assert_eq!(strings_under(&tag, &DataIdent::fourcc([0xa9, b'g', b'e', b'n'])), vec!["Rock"]);
    assert_eq!(
        strings_under(&tag, &DataIdent::freeform("com.apple.iTunes", "LABEL")),
        vec!["Label Records"]
    );
    assert_eq!(
        strings_under(&tag, &DataIdent::fourcc([0xa9, b'd', b'a', b'y'])),
        vec!["1999-12-31T00:00:00+00:00"]
    );
    assert_eq!(tag.artworks().count(), 1);
    assert_eq!(tag.artwork().unwrap().fmt, ImgFmt::Png);
}
