use vstd::prelude::*;
use vstd::string::StringExecFns;

use crate::error::SpotifyError;
use crate::strings::{
    count_char, count_char_spec, split_char, split_spec, starts_with, starts_with_spec, str_eq,
};

verus! {

/// What parsing an absolute URL yields: its host and its path segments; and
/// nothing when the string is no absolute URL, has no host, or cannot be
/// split into segments.
pub uninterp spec fn url_parts_of(s: Seq<char>) -> Option<(Seq<char>, Seq<Seq<char>>)>;

/// Relies on url's `Url::parse`, `Url::host_str` and `Url::path_segments`:
/// parses an absolute URL and hands back its host and path segments as plain
/// strings.
#[verifier::external_body]
fn parse_url_parts(s: &str) -> (r: Option<(String, Vec<String>)>)
    ensures
        match url_parts_of(s@) {
            Some(p) => (r matches Some(q) && q.0@ == p.0 && q.1.deep_view() == p.1),
            None => r is None,
        },
{
    let url = url::Url::parse(s).ok()?;
    let host = url.host_str()?.to_string();
    let segments: Vec<String> = url.path_segments()?.map(|seg| seg.to_string()).collect();
    Some((host, segments))
}

/// The canonical URI a reference denotes: a string already in `spotify:`
/// form passes through when it has at least three `:`-separated parts; a web
/// player URL (host `open.spotify.com`) becomes `spotify:<kind>:<id>` from
/// its first two path segments; everything else names nothing.
pub open spec fn parse_uri_spec(s: Seq<char>) -> Option<Seq<char>> {
    if starts_with_spec(s, "spotify:"@) {
        if count_char_spec(s, ':') >= 2 {
            Some(s)
        } else {
            None
        }
    } else {
        match url_parts_of(s) {
            Some(p) => if p.0 == "open.spotify.com"@ && p.1.len() >= 2 {
                Some("spotify:"@ + p.1[0] + seq![':'] + p.1[1])
            } else {
                None
            },
            None => None,
        }
    }
}

/// Turns a URI or web-player URL into a canonical `spotify:` URI; anything
/// else is rejected as `InvalidUri`.
pub fn parse_uri(uri: &str) -> (r: Result<String, SpotifyError>)
    ensures
        match parse_uri_spec(uri@) {
            Some(u) => (r matches Ok(s) && s@ == u),
            None => (r matches Err(e) && e matches SpotifyError::InvalidUri),
        },
{
    if starts_with(uri, "spotify:") {
        if count_char(uri, ':') >= 2 {
            Ok(uri.to_owned())
        } else {
            Err(SpotifyError::InvalidUri)
        }
    } else {
        match parse_url_parts(uri) {
            Some((host, segments)) => {
                if str_eq(host.as_str(), "open.spotify.com") && segments.len() >= 2 {
                    let mut s = String::from_str("spotify:");
                    s.append(segments[0].as_str());
                    s.append(":");
                    s.append(segments[1].as_str());
                    proof {
                        let p = url_parts_of(uri@).unwrap();
                        assert(segments.deep_view()[0] == segments@[0]@);
                        assert(segments.deep_view()[1] == segments@[1]@);
                        assert(":"@ =~= seq![':']) by {
                            reveal_strlit(":");
                        }
                        assert(s@ =~= "spotify:"@ + p.1[0] + seq![':'] + p.1[1]);
                    }
                    Ok(s)
                } else {
                    Err(SpotifyError::InvalidUri)
                }
            },
            None => Err(SpotifyError::InvalidUri),
        }
    }
}

/// What a canonical URI names.
#[derive(Debug, Clone, Copy, PartialEq, Eq, Structural)]
pub enum UriKind {
    Track,
    Album,
    Playlist,
    /// A kind this tool does not handle.
    Other,
}

pub open spec fn uri_kind_spec(kind: Seq<char>) -> UriKind {
    if kind == "track"@ {
        UriKind::Track
    } else if kind == "playlist"@ {
        UriKind::Playlist
    } else if kind == "album"@ {
        UriKind::Album
    } else {
        UriKind::Other
    }
}

/// Splits a canonical `spotify:<kind>:<id>` URI into the kind of thing it
/// names and the identifier; `None` when it has fewer than three parts.
pub fn uri_parts(uri: &str) -> (r: Option<(UriKind, String)>)
    ensures
        ({
            let parts = split_spec(uri@, ':');
            if parts.len() >= 3 {
                r matches Some(p) && p.0 == uri_kind_spec(parts[1]) && p.1@ == parts[2]
            } else {
                r is None
            }
        }),
{
    let parts = split_char(uri, ':');
    if parts.len() >= 3 {
        proof {
            assert(parts.deep_view()[1] == parts@[1]@);
            assert(parts.deep_view()[2] == parts@[2]@);
        }
        let kind = if str_eq(parts[1].as_str(), "track") {
            UriKind::Track
        } else if str_eq(parts[1].as_str(), "playlist") {
            UriKind::Playlist
        } else if str_eq(parts[1].as_str(), "album") {
            UriKind::Album
        } else {
            UriKind::Other
        };
        Some((kind, parts[2].clone()))
    } else {
        None
    }
}

} // verus!
