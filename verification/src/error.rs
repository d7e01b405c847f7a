use vstd::prelude::*;

verus! {

/// Error taxonomy of the download core.
///
/// `Unavailable` marks a track with no playable variant (or whose
/// alternatives are all unavailable), `InvalidUri` a reference that names no
/// known resource, `InvalidFormat` an unsupported or unknown container,
/// `Io` a stream or disk failure, `Encoder` a negative status returned by the
/// transcoder, and `Error` any other failure with a human-readable message.
#[derive(Debug)]
pub enum SpotifyError {
    Unavailable,
    InvalidUri,
    InvalidFormat,
    Io(String),
    Encoder(i32),
    Error(String),
}

impl SpotifyError {
    /// A human-readable message, used as the payload of an `Error` job state.
    pub fn describe(&self) -> (r: String)
        ensures
            r@ == self.describe_spec(),
    {
        match self {
            SpotifyError::Unavailable => "track unavailable".to_owned(),
            SpotifyError::InvalidUri => "invalid URI".to_owned(),
            SpotifyError::InvalidFormat => "invalid format".to_owned(),
            SpotifyError::Io(m) => m.clone(),
            SpotifyError::Encoder(_) => "encoder error".to_owned(),
            SpotifyError::Error(m) => m.clone(),
        }
    }

    pub open spec fn describe_spec(&self) -> Seq<char> {
        match *self {
            SpotifyError::Unavailable => "track unavailable"@,
            SpotifyError::InvalidUri => "invalid URI"@,
            SpotifyError::InvalidFormat => "invalid format"@,
            SpotifyError::Io(ref m) => m@,
            SpotifyError::Encoder(_) => "encoder error"@,
            SpotifyError::Error(ref m) => m@,
        }
    }
}

} // verus!
