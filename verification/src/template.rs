use vstd::prelude::*;
use vstd::string::StringExecFns;

use crate::metadata::TrackMetadata;
use crate::quality::AudioFormat;
use crate::strings::{
    dec_spec, join_spec, join_values, pad2_spec, replace_all, replace_spec, u32_to_padded2,
    u32_to_string,
};

verus! {

/// What `sanitize_name` returns for a string; the exact character set it
/// removes is the sanitizing crate's affair, stated only by name.
pub uninterp spec fn sanitized_of(s: Seq<char>) -> Seq<char>;

/// Relies on `sanitize_filename::sanitize_with_options`, called with fixed
/// options (remove illegal characters, truncate over-long names), so the
/// result is a function of the string alone: strips characters illegal in
/// file names; in particular the result never holds a path separator.
#[verifier::external_body]
pub(crate) fn sanitize_name(s: &str) -> (r: String)
    ensures
        r@ == sanitized_of(s@),
        forall|i: int| 0 <= i < r@.len() ==> r@[i] != '/' && r@[i] != '\\',
{
    sanitize_filename::sanitize_with_options(
        s,
        sanitize_filename::Options { windows: false, truncate: true, replacement: "" },
    )
}

/// The first element, or the empty string.
pub open spec fn first_or_empty(vals: Seq<Seq<char>>) -> Seq<char> {
    if vals.len() > 0 {
        vals[0]
    } else {
        Seq::empty()
    }
}

/// The file name rendered for a track: each placeholder of the template
/// replaced, in this fixed order, by the track's sanitized field — names
/// sanitized, numbers in decimal (the `%0…%` forms zero-padded to two
/// digits), the id verbatim.
pub open spec fn rendered_filename(
    template: Seq<char>,
    track: TrackMetadata,
    track_id: Seq<char>,
) -> Seq<char> {
    let artists = track.artists.deep_view();
    let album_artists = track.album_artists.deep_view();
    let s1 = replace_spec(template, "%title%"@, sanitized_of(track.name@));
    let s2 = replace_spec(s1, "%artist%"@, sanitized_of(first_or_empty(artists)));
    let s3 = replace_spec(s2, "%artists%"@, sanitized_of(join_spec(artists, ", "@)));
    let s4 = replace_spec(s3, "%track%"@, dec_spec(track.track_number as nat));
    let s5 = replace_spec(s4, "%0track%"@, pad2_spec(track.track_number as nat));
    let s6 = replace_spec(s5, "%disc%"@, dec_spec(track.disc_number as nat));
    let s7 = replace_spec(s6, "%0disc%"@, pad2_spec(track.disc_number as nat));
    let s8 = replace_spec(s7, "%id%"@, track_id);
    let s9 = replace_spec(s8, "%album%"@, sanitized_of(track.album_name@));
    let s10 = replace_spec(s9, "%albumArtist%"@, sanitized_of(first_or_empty(album_artists)));
    let s11 = replace_spec(s10, "%albumArtists%"@, sanitized_of(join_spec(album_artists, ", "@)));
    s11
}

/// Renders the output file name for a track from the configured template.
pub fn render_filename(template: &str, track: &TrackMetadata, track_id: &str) -> (r: String)
    ensures
        r@ == rendered_filename(template@, *track, track_id@),
{
    let title = sanitize_name(track.name.as_str());
    let first_artist = if track.artists.len() > 0 {
        sanitize_name(track.artists[0].as_str())
    } else {
        sanitize_name("")
    };
    proof {
        reveal_strlit("");
        assert(""@ =~= Seq::<char>::empty());
        if track.artists@.len() > 0 {
            assert(track.artists.deep_view()[0] == track.artists@[0]@);
        }
    }
    let joined_artists = join_values(&track.artists, ", ");
    let all_artists = sanitize_name(joined_artists.as_str());
    let track_no = u32_to_string(track.track_number);
    let track_no_padded = u32_to_padded2(track.track_number);
    let disc_no = u32_to_string(track.disc_number);
    let disc_no_padded = u32_to_padded2(track.disc_number);
    let album = sanitize_name(track.album_name.as_str());
    let first_album_artist = if track.album_artists.len() > 0 {
        sanitize_name(track.album_artists[0].as_str())
    } else {
        sanitize_name("")
    };
    proof {
        if track.album_artists@.len() > 0 {
            assert(track.album_artists.deep_view()[0] == track.album_artists@[0]@);
        }
    }
    let joined_album_artists = join_values(&track.album_artists, ", ");
    let all_album_artists = sanitize_name(joined_album_artists.as_str());

    let r = replace_all(template, "%title%", title.as_str());
    let r = replace_all(r.as_str(), "%artist%", first_artist.as_str());
    let r = replace_all(r.as_str(), "%artists%", all_artists.as_str());
    let r = replace_all(r.as_str(), "%track%", track_no.as_str());
    let r = replace_all(r.as_str(), "%0track%", track_no_padded.as_str());
    let r = replace_all(r.as_str(), "%disc%", disc_no.as_str());
    let r = replace_all(r.as_str(), "%0disc%", disc_no_padded.as_str());
    let r = replace_all(r.as_str(), "%id%", track_id);
    let r = replace_all(r.as_str(), "%album%", album.as_str());
    let r = replace_all(r.as_str(), "%albumArtist%", first_album_artist.as_str());
    let r = replace_all(r.as_str(), "%albumArtists%", all_album_artists.as_str());
    r
}

/// The full output path for a job: the destination root, the rendered file
/// name, and the extension of the format actually written — the transcode
/// target's extension when conversion is requested, the source container's
/// otherwise.
pub open spec fn output_path_spec(
    root: Seq<char>,
    filename: Seq<char>,
    format: AudioFormat,
    convert_to_mp3: bool,
) -> Seq<char> {
    let ext = if convert_to_mp3 {
        "mp3"@
    } else {
        format.extension_spec()
    };
    root + "/"@ + filename + "."@ + ext
}

/// Joins the destination root, rendered file name and extension; also hands
/// back the container format the finished file will hold.
pub fn output_path(root: &str, filename: &str, format: AudioFormat, convert_to_mp3: bool) -> (r: (
    String,
    AudioFormat,
))
    ensures
        r.0@ == output_path_spec(root@, filename@, format, convert_to_mp3),
        r.1 == if convert_to_mp3 {
            AudioFormat::MP3
        } else {
            format
        },
{
    let mut path = root.to_owned();
    path.append("/");
    path.append(filename);
    path.append(".");
    let final_format = if convert_to_mp3 {
        AudioFormat::MP3
    } else {
        format
    };
    let ext = final_format.extension();
    path.append(ext.as_str());
    proof {
        if convert_to_mp3 {
            assert(final_format.extension_spec() =~= "mp3"@) by {
                reveal_strlit("mp3");
            }
        }
    }
    (path, final_format)
}

} // verus!
