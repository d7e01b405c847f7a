use vstd::prelude::*;

use crate::queue::{Download, DownloadState};
use crate::strings::dec_spec;
use crate::strings::u32_to_string;
use crate::tagger::Field;

verus! {

/// A calendar date as the catalog reports it for an album release.
#[derive(Debug, Clone, Copy, PartialEq, Eq, Structural)]
pub struct ReleaseDate {
    pub year: u32,
    pub month: u32,
    pub day: u32,
}

impl ReleaseDate {
    pub open spec fn wf(&self) -> bool {
        &&& self.year <= 9999
        &&& 1 <= self.month <= 12
        &&& 1 <= self.day <= 31
    }
}

/// What templating and tagging read of a track, as plain values.
#[derive(Debug)]
pub struct TrackMetadata {
    pub name: String,
    pub artists: Vec<String>,
    pub album_name: String,
    pub album_artists: Vec<String>,
    pub track_number: u32,
    pub disc_number: u32,
}

/// What tagging reads of an album.
#[derive(Debug)]
pub struct AlbumInfo {
    pub genres: Vec<String>,
    pub label: String,
    pub release_date: ReleaseDate,
}

/// One track as the catalog lists it, reduced to what the queue shows.
#[derive(Debug)]
pub struct TrackSummary {
    pub id: String,
    pub name: String,
    pub artists: Vec<String>,
}

/// The subtitle shown for a track: its first artist, or nothing.
pub open spec fn subtitle_of(artists: Seq<Seq<char>>) -> Seq<char> {
    if artists.len() > 0 {
        artists[0]
    } else {
        Seq::empty()
    }
}

/// A queue entry for one listed track: no id yet (the queue assigns one at
/// enqueue time), the track's name as title and its first artist as subtitle.
pub fn download_from_track(t: TrackSummary) -> (d: Download)
    ensures
        d.id == 0,
        d.track_id == t.id,
        d.title == t.name,
        d.subtitle@ == subtitle_of(t.artists.deep_view()),
        d.state matches DownloadState::Queued,
{
    let subtitle = if t.artists.len() > 0 {
        t.artists[0].clone()
    } else {
        String::new()
    };
    proof {
        if t.artists@.len() > 0 {
            assert(t.artists.deep_view()[0] == t.artists@[0]@);
        }
    }
    Download { id: 0, track_id: t.id, title: t.name, subtitle, state: DownloadState::Queued }
}

/// Queue entries for a whole listing, in listing order.
pub fn downloads_from_tracks(tracks: Vec<TrackSummary>) -> (ds: Vec<Download>)
    ensures
        ds@.len() == tracks@.len(),
        forall|k: int|
            0 <= k < tracks@.len() ==> {
                &&& (#[trigger] ds@[k]).id == 0
                &&& ds@[k].track_id == tracks@[k].id
                &&& ds@[k].title == tracks@[k].name
                &&& ds@[k].subtitle@ == subtitle_of(tracks@[k].artists.deep_view())
                &&& ds@[k].state matches DownloadState::Queued
            },
{
    let ghost tracks0 = tracks@;
    let mut tracks = tracks;
    let mut ds: Vec<Download> = Vec::new();
    let n = tracks.len();
    let mut i: usize = 0;
    while i < n
        invariant
            n == tracks0.len(),
            i <= n,
            tracks@ == tracks0.skip(i as int),
            ds@.len() == i,
            forall|k: int|
                0 <= k < i ==> {
                    &&& (#[trigger] ds@[k]).id == 0
                    &&& ds@[k].track_id == tracks0[k].id
                    &&& ds@[k].title == tracks0[k].name
                    &&& ds@[k].subtitle@ == subtitle_of(tracks0[k].artists.deep_view())
                    &&& ds@[k].state matches DownloadState::Queued
                },
        decreases n - i,
    {
        let t = tracks.remove(0);
        proof {
            assert(tracks@ =~= tracks0.skip(i + 1));
            assert(t == tracks0[i as int]);
        }
        let d = download_from_track(t);
        ds.push(d);
        i += 1;
    }
    ds
}

/// Whether the page walk of a listing is complete: the catalog's declared
/// total was reached exactly when the offset caught up with it.
pub fn pagination_done(offset: usize, page_len: usize, total: usize) -> (r: (usize, bool))
    requires
        offset + page_len <= usize::MAX,
    ensures
        r.0 == offset + page_len,
        r.1 == (r.0 == total),
{
    let next = offset + page_len;
    (next, next == total)
}


/// The tracks of one listing page, in page order: a playlist page lists every
/// entry, but only those that hold a track contribute one.
pub open spec fn tracks_of(entries: Seq<Option<TrackSummary>>) -> Seq<TrackSummary>
    decreases entries.len(),
{
    if entries.len() == 0 {
        Seq::empty()
    } else {
        (match entries[0] {
            Some(t) => seq![t],
            None => Seq::empty(),
        }) + tracks_of(entries.skip(1))
    }
}

/// Keeps the entries of a playlist page that hold a track, in page order.
#[verifier::loop_isolation(false)]
pub fn tracks_of_entries(entries: Vec<Option<TrackSummary>>) -> (r: Vec<TrackSummary>)
    ensures
        r@ == tracks_of(entries@),
{
    let ghost entries0 = entries@;
    let mut entries = entries;
    let mut r: Vec<TrackSummary> = Vec::new();
    let n = entries.len();
    let mut i: usize = 0;
    proof {
        assert(entries0.skip(0) =~= entries0);
        assert(r@ + tracks_of(entries0) =~= tracks_of(entries0));
    }
    while i < n
        invariant
            n == entries0.len(),
            i <= n,
            entries@ == entries0.skip(i as int),
            tracks_of(entries0) == r@ + tracks_of(entries0.skip(i as int)),
        decreases n - i,
    {
        let ghost rest = entries0.skip(i as int);
        let ghost r_old = r@;
        let e = entries.remove(0);
        proof {
            assert(entries@ =~= entries0.skip(i + 1));
            assert(e == rest[0]);
            assert(rest.skip(1) =~= entries0.skip(i + 1));
        }
        match e {
            Some(t) => {
                r.push(t);
            },
            None => {},
        }
        i += 1;
        proof {
            let tail = tracks_of(entries0.skip(i as int));
            match rest[0] {
                Some(t) => {
                    assert((r_old + seq![t]) + tail =~= r_old + (seq![t] + tail));
                    assert(r@ =~= r_old + seq![t]);
                },
                None => {
                    assert(Seq::<TrackSummary>::empty() + tail =~= tail);
                },
            }
        }
    }
    proof {
        assert(entries0.skip(n as int) =~= Seq::<Option<TrackSummary>>::empty());
        assert(r@ + Seq::<TrackSummary>::empty() =~= r@);
    }
    r
}

/// The tag fields written for a finished track, in writing order.
pub open spec fn tag_fields_spec(track: TrackMetadata, album: AlbumInfo) -> Seq<
    (Field, Seq<Seq<char>>),
> {
    seq![
        (Field::Title, seq![track.name@]),
        (Field::Album, seq![track.album_name@]),
        (Field::Artist, track.artists.deep_view()),
        (Field::AlbumArtist, track.album_artists.deep_view()),
        (Field::TrackNumber, seq![dec_spec(track.track_number as nat)]),
        (Field::DiscNumber, seq![dec_spec(track.disc_number as nat)]),
        (Field::Genre, album.genres.deep_view()),
        (Field::Label, seq![album.label@]),
    ]
}

/// Assembles the tag fields for a finished track from its metadata.
pub fn build_tag_fields(track: &TrackMetadata, album: &AlbumInfo) -> (r: Vec<(Field, Vec<String>)>)
    ensures
        r@.len() == 8,
        forall|k: int|
            0 <= k < 8 ==> (#[trigger] r@[k]).0 == tag_fields_spec(*track, *album)[k].0
                && r@[k].1.deep_view() == tag_fields_spec(*track, *album)[k].1,
{
    let mut r: Vec<(Field, Vec<String>)> = Vec::new();
    r.push((Field::Title, vec![track.name.clone()]));
    r.push((Field::Album, vec![track.album_name.clone()]));
    r.push((Field::Artist, clone_strings(&track.artists)));
    r.push((Field::AlbumArtist, clone_strings(&track.album_artists)));
    r.push((Field::TrackNumber, vec![u32_to_string(track.track_number)]));
    r.push((Field::DiscNumber, vec![u32_to_string(track.disc_number)]));
    r.push((Field::Genre, clone_strings(&album.genres)));
    r.push((Field::Label, vec![album.label.clone()]));
    r
}

/// A copy of a list of strings, value for value.
pub fn clone_strings(vals: &Vec<String>) -> (r: Vec<String>)
    ensures
        r@ == vals@,
{
    let mut r: Vec<String> = Vec::new();
    let n = vals.len();
    let mut i: usize = 0;
    while i < n
        invariant
            n == vals@.len(),
            i <= n,
            r@ == vals@.take(i as int),
        decreases n - i,
    {
        r.push(vals[i].clone());
        proof {
            assert(r@ =~= vals@.take(i + 1));
        }
        i += 1;
    }
    proof {
        assert(vals@.take(n as int) =~= vals@);
    }
    r
}

} // verus!
