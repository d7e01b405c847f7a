use vstd::prelude::*;

use crate::error::SpotifyError;
use crate::quality::{FileFormat, Quality};

verus! {

/// What resolving needs to know about a track: whether the catalog marks it
/// available, and which source-file encodings it offers, each with the file
/// reference to fetch it by.
#[derive(Debug)]
pub struct TrackInfo {
    pub id: String,
    pub available: bool,
    pub files: Vec<(FileFormat, String)>,
}

impl Clone for TrackInfo {
    fn clone(&self) -> (r: Self)
        ensures
            r.id == self.id,
            r.available == self.available,
            r.files@ == self.files@,
    {
        let mut files: Vec<(FileFormat, String)> = Vec::new();
        let n = self.files.len();
        let mut i: usize = 0;
        while i < n
            invariant
                n == self.files@.len(),
                i <= n,
                files@ == self.files@.take(i as int),
            decreases n - i,
        {
            let (f, file_id) = (self.files[i].0, self.files[i].1.clone());
            files.push((f, file_id));
            proof {
                assert(files@ =~= self.files@.take(i + 1));
            }
            i += 1;
        }
        proof {
            assert(self.files@.take(n as int) =~= self.files@);
        }
        TrackInfo { id: self.id.clone(), available: self.available, files }
    }
}

/// The position of the first offered file with encoding `f`, at or after `i`.
pub open spec fn first_file_with(files: Seq<(FileFormat, String)>, f: FileFormat, i: int) -> Option<
    int,
>
    decreases files.len() - i,
{
    if i < 0 || i >= files.len() {
        None
    } else if files[i].0 == f {
        Some(i)
    } else {
        first_file_with(files, f, i + 1)
    }
}

/// The first encoding of the tier's preference list (from position `j` on)
/// that the track offers, with the position of the offered file.
pub open spec fn first_match_in_tier(
    files: Seq<(FileFormat, String)>,
    formats: Seq<FileFormat>,
    j: int,
) -> Option<(FileFormat, int)>
    decreases formats.len() - j,
{
    if j < 0 || j >= formats.len() {
        None
    } else {
        match first_file_with(files, formats[j], 0) {
            Some(k) => Some((formats[j], k)),
            None => first_match_in_tier(files, formats, j + 1),
        }
    }
}

/// How many fallback steps a tier still has below it; fallback always
/// descends.
pub open spec fn tier_rank(q: Quality) -> nat {
    match q {
        Quality::Q320 => 3,
        Quality::Q256 => 2,
        Quality::Q160 => 1,
        Quality::Q96 => 0,
    }
}

/// The chosen tier, encoding and offered-file position for a track: the first
/// encoding of the requested tier's preference list that the track offers,
/// falling back tier by tier when a whole tier misses, and nothing once the
/// tier chain is exhausted.
pub open spec fn resolve_format(files: Seq<(FileFormat, String)>, q: Quality) -> Option<
    (Quality, FileFormat, int),
>
    decreases tier_rank(q),
{
    match first_match_in_tier(files, q.formats_spec(), 0) {
        Some(m) => Some((q, m.0, m.1)),
        None => match q.fallback_spec() {
            Some(q2) => resolve_format(files, q2),
            None => None,
        },
    }
}

/// Picks the source file to download: the requested tier's preferred encoding
/// when offered, else the best the fallback chain reaches; `None` when no
/// tier matches anything the track offers.
#[verifier::loop_isolation(false)]
pub fn select_format(files: &Vec<(FileFormat, String)>, quality: Quality) -> (r: Option<
    (Quality, FileFormat, String),
>)
    ensures
        match resolve_format(files@, quality) {
            Some(sel) => (r matches Some(picked) && picked.0 == sel.0 && picked.1 == sel.1
                && picked.2 == files@[sel.2].1),
            None => r is None,
        },
{
    let mut q = quality;
    loop
        invariant
            resolve_format(files@, quality) == resolve_format(files@, q),
        decreases tier_rank(q),
    {
        let formats = q.get_file_formats();
        let m = formats.len();
        let mut j: usize = 0;
        while j < m
            invariant
                m == formats@.len(),
                j <= m,
                formats@ == q.formats_spec(),
                first_match_in_tier(files@, formats@, 0) == first_match_in_tier(
                    files@,
                    formats@,
                    j as int,
                ),
            decreases m - j,
        {
            let wanted = formats[j];
            let n = files.len();
            let mut k: usize = 0;
            while k < n
                invariant
                    n == files@.len(),
                    k <= n,
                    first_file_with(files@, wanted, 0) == first_file_with(
                        files@,
                        wanted,
                        k as int,
                    ),
                decreases n - k,
            {
                if files[k].0 == wanted {
                    return Some((q, wanted, files[k].1.clone()));
                }
                k += 1;
            }
            j += 1;
        }
        match q.fallback() {
            Some(q2) => {
                q = q2;
            },
            None => {
                return None;
            },
        }
    }
}

/// The position of the first available track among the alternatives, at or
/// after `i`.
pub open spec fn first_available(alts: Seq<TrackInfo>, i: int) -> Option<int>
    decreases alts.len() - i,
{
    if i < 0 || i >= alts.len() {
        None
    } else if alts[i].available {
        Some(i)
    } else {
        first_available(alts, i + 1)
    }
}

/// Picks the track to download: the primary when the catalog marks it
/// available, else the first available of its declared alternatives in order,
/// and `Unavailable` when none is.
#[verifier::loop_isolation(false)]
pub fn select_track(primary: TrackInfo, alternatives: Vec<TrackInfo>) -> (r: Result<
    TrackInfo,
    SpotifyError,
>)
    ensures
        primary.available ==> r == Ok::<TrackInfo, SpotifyError>(primary),
        !primary.available ==> match first_available(alternatives@, 0) {
            Some(k) => r == Ok::<TrackInfo, SpotifyError>(alternatives@[k]),
            None => r matches Err(SpotifyError::Unavailable),
        },
{
    if primary.available {
        return Ok(primary);
    }
    let ghost alts0 = alternatives@;
    let mut alternatives = alternatives;
    let n = alternatives.len();
    let mut i: usize = 0;
    while i < n
        invariant
            n == alts0.len(),
            i <= n,
            alternatives@ == alts0.skip(i as int),
            first_available(alts0, 0) == first_available(alts0, i as int),
        decreases n - i,
    {
        let t = alternatives.remove(0);
        proof {
            assert(alternatives@ =~= alts0.skip(i + 1));
            assert(t == alts0[i as int]);
        }
        if t.available {
            return Ok(t);
        }
        i += 1;
    }
    Err(SpotifyError::Unavailable)
}

/// Law: a track offering only encodings of the lowest tier still resolves —
/// a request for the highest tier falls back and picks the lowest-tier
/// variant instead of failing.
pub proof fn lemma_quality_fallback_reaches_lowest_tier(files: Seq<(FileFormat, String)>)
    requires
        files.len() > 0,
        forall|k: int|
            0 <= k < files.len() ==> (#[trigger] files[k].0 == FileFormat::OggVorbis96
                || files[k].0 == FileFormat::Mp396),
    ensures
        resolve_format(files, Quality::Q320) matches Some(sel) && sel.0 == Quality::Q96,
{
    lemma_no_file_with(files, FileFormat::OggVorbis320, 0);
    lemma_no_file_with(files, FileFormat::Aac320, 0);
    lemma_no_file_with(files, FileFormat::Mp3320, 0);
    lemma_no_file_with(files, FileFormat::Mp3256, 0);
    lemma_no_file_with(files, FileFormat::OggVorbis160, 0);
    lemma_no_file_with(files, FileFormat::Aac160, 0);
    lemma_no_file_with(files, FileFormat::Mp3160, 0);
    let f320 = Quality::Q320.formats_spec();
    assert(first_match_in_tier(files, f320, 0) == first_match_in_tier(files, f320, 1));
    assert(first_match_in_tier(files, f320, 1) == first_match_in_tier(files, f320, 2));
    assert(first_match_in_tier(files, f320, 2) == first_match_in_tier(files, f320, 3));
    assert(first_match_in_tier(files, f320, 3) is None);
    let f256 = Quality::Q256.formats_spec();
    assert(first_match_in_tier(files, f256, 0) == first_match_in_tier(files, f256, 1));
    assert(first_match_in_tier(files, f256, 1) is None);
    let f160 = Quality::Q160.formats_spec();
    assert(first_match_in_tier(files, f160, 0) == first_match_in_tier(files, f160, 1));
    assert(first_match_in_tier(files, f160, 1) == first_match_in_tier(files, f160, 2));
    assert(first_match_in_tier(files, f160, 2) == first_match_in_tier(files, f160, 3));
    assert(first_match_in_tier(files, f160, 3) is None);
    let f96 = Quality::Q96.formats_spec();
    match first_file_with(files, FileFormat::OggVorbis96, 0) {
        Some(_) => {
            assert(first_match_in_tier(files, f96, 0) is Some);
        },
        None => {
            if files[0].0 == FileFormat::OggVorbis96 {
                assert(0 <= 0 < files.len() && files[0].0 == FileFormat::OggVorbis96);
                lemma_some_file_with(files, FileFormat::OggVorbis96, 0);
            }
            assert(files[0].0 == FileFormat::Mp396);
            lemma_some_file_with(files, FileFormat::Mp396, 0);
            assert(first_match_in_tier(files, f96, 0) == first_match_in_tier(files, f96, 1));
            assert(first_match_in_tier(files, f96, 1) is Some);
        },
    }
    assert(resolve_format(files, Quality::Q320) == resolve_format(files, Quality::Q256));
    assert(resolve_format(files, Quality::Q256) == resolve_format(files, Quality::Q160));
    assert(resolve_format(files, Quality::Q160) == resolve_format(files, Quality::Q96));
    assert(resolve_format(files, Quality::Q96) matches Some(sel) && sel.0 == Quality::Q96);
}

/// No offered file has encoding `f` when every position differs from it.
proof fn lemma_no_file_with(files: Seq<(FileFormat, String)>, f: FileFormat, i: int)
    requires
        0 <= i,
        forall|k: int| 0 <= k < files.len() ==> #[trigger] files[k].0 != f,
    ensures
        first_file_with(files, f, i) is None,
    decreases files.len() - i,
{
    if 0 <= i < files.len() {
        lemma_no_file_with(files, f, i + 1);
    }
}

/// Some offered file at or after `i` has encoding `f` when some position at
/// or after `i` holds it.
proof fn lemma_some_file_with(files: Seq<(FileFormat, String)>, f: FileFormat, i: int)
    requires
        0 <= i,
        exists|k: int| i <= k < files.len() && #[trigger] files[k].0 == f,
    ensures
        first_file_with(files, f, i) is Some,
    decreases files.len() - i,
{
    let k = choose|k: int| i <= k < files.len() && #[trigger] files[k].0 == f;
    if files[i].0 != f {
        assert(i < k);
        lemma_some_file_with(files, f, i + 1);
    }
}

} // verus!
