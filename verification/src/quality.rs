use vstd::prelude::*;

verus! {

/// Requested audio bitrate tier, ordered from highest to lowest.
#[derive(Debug, Clone, Copy, PartialEq, Eq, Structural)]
pub enum Quality {
    Q320,
    Q256,
    Q160,
    Q96,
}

/// A concrete source-file encoding offered by the catalog for a track.
#[derive(Debug, Clone, Copy, PartialEq, Eq, Structural)]
pub enum FileFormat {
    OggVorbis96,
    OggVorbis160,
    OggVorbis320,
    Mp3256,
    Mp3320,
    Mp3160,
    Mp396,
    Mp3160Enc,
    Mp4128Dual,
    Other3,
    Aac160,
    Aac320,
    Mp4128,
    Other5,
}

/// The audio container of a downloaded file, deciding its extension and which
/// tag writer applies to it.
#[derive(Debug, Clone, Copy, PartialEq, Eq, Structural)]
pub enum AudioFormat {
    OGG,
    AAC,
    MP3,
    MP4,
    Unknown,
}

pub open spec fn format_of_file_format(f: FileFormat) -> AudioFormat {
    match f {
        FileFormat::OggVorbis96 => AudioFormat::OGG,
        FileFormat::OggVorbis160 => AudioFormat::OGG,
        FileFormat::OggVorbis320 => AudioFormat::OGG,
        FileFormat::Mp3256 => AudioFormat::MP3,
        FileFormat::Mp3320 => AudioFormat::MP3,
        FileFormat::Mp3160 => AudioFormat::MP3,
        FileFormat::Mp396 => AudioFormat::MP3,
        FileFormat::Mp3160Enc => AudioFormat::MP3,
        FileFormat::Mp4128Dual => AudioFormat::MP4,
        FileFormat::Other3 => AudioFormat::Unknown,
        FileFormat::Aac160 => AudioFormat::AAC,
        FileFormat::Aac320 => AudioFormat::AAC,
        FileFormat::Mp4128 => AudioFormat::MP4,
        FileFormat::Other5 => AudioFormat::Unknown,
    }
}

impl From<FileFormat> for AudioFormat {
    fn from(f: FileFormat) -> (r: AudioFormat)
        ensures
            r == format_of_file_format(f),
    {
        match f {
            FileFormat::OggVorbis96 => AudioFormat::OGG,
            FileFormat::OggVorbis160 => AudioFormat::OGG,
            FileFormat::OggVorbis320 => AudioFormat::OGG,
            FileFormat::Mp3256 => AudioFormat::MP3,
            FileFormat::Mp3320 => AudioFormat::MP3,
            FileFormat::Mp3160 => AudioFormat::MP3,
            FileFormat::Mp396 => AudioFormat::MP3,
            FileFormat::Mp3160Enc => AudioFormat::MP3,
            FileFormat::Mp4128Dual => AudioFormat::MP4,
            FileFormat::Other3 => AudioFormat::Unknown,
            FileFormat::Aac160 => AudioFormat::AAC,
            FileFormat::Aac320 => AudioFormat::AAC,
            FileFormat::Mp4128 => AudioFormat::MP4,
            FileFormat::Other5 => AudioFormat::Unknown,
        }
    }
}

impl vstd::std_specs::convert::FromSpecImpl<FileFormat> for AudioFormat {
    open spec fn obeys_from_spec() -> bool {
        true
    }

    open spec fn from_spec(f: FileFormat) -> AudioFormat {
        format_of_file_format(f)
    }
}

impl AudioFormat {
    pub open spec fn extension_spec(&self) -> Seq<char> {
        match *self {
            AudioFormat::OGG => "ogg"@,
            AudioFormat::AAC => "m4a"@,
            AudioFormat::MP3 => "mp3"@,
            AudioFormat::MP4 => "mp4"@,
            AudioFormat::Unknown => ""@,
        }
    }

    /// The file extension written for this container.
    pub fn extension(&self) -> (r: String)
        ensures
            r@ == self.extension_spec(),
    {
        match self {
            AudioFormat::OGG => "ogg",
            AudioFormat::AAC => "m4a",
            AudioFormat::MP3 => "mp3",
            AudioFormat::MP4 => "mp4",
            AudioFormat::Unknown => "",
        }.to_owned()
    }
}

impl Quality {
    pub open spec fn formats_spec(&self) -> Seq<FileFormat> {
        match *self {
            Quality::Q320 => seq![
                FileFormat::OggVorbis320,
                FileFormat::Aac320,
                FileFormat::Mp3320,
            ],
            Quality::Q256 => seq![FileFormat::Mp3256],
            Quality::Q160 => seq![
                FileFormat::OggVorbis160,
                FileFormat::Aac160,
                FileFormat::Mp3160,
            ],
            Quality::Q96 => seq![FileFormat::OggVorbis96, FileFormat::Mp396],
        }
    }

    /// The source-file encodings acceptable for this tier, in preference order.
    pub fn get_file_formats(&self) -> (r: Vec<FileFormat>)
        ensures
            r@ == self.formats_spec(),
    {
        match self {
            Quality::Q320 => vec![
                FileFormat::OggVorbis320,
                FileFormat::Aac320,
                FileFormat::Mp3320,
            ],
            Quality::Q256 => vec![FileFormat::Mp3256],
            Quality::Q160 => vec![
                FileFormat::OggVorbis160,
                FileFormat::Aac160,
                FileFormat::Mp3160,
            ],
            Quality::Q96 => vec![FileFormat::OggVorbis96, FileFormat::Mp396],
        }
    }

    pub open spec fn fallback_spec(&self) -> Option<Quality> {
        match *self {
            Quality::Q320 => Some(Quality::Q256),
            Quality::Q256 => Some(Quality::Q160),
            Quality::Q160 => Some(Quality::Q96),
            Quality::Q96 => None,
        }
    }

    /// The next lower tier to try when no encoding of this tier is available.
    pub fn fallback(&self) -> (r: Option<Quality>)
        ensures
            r == self.fallback_spec(),
    {
        match self {
            Quality::Q320 => Some(Quality::Q256),
            Quality::Q256 => Some(Quality::Q160),
            Quality::Q160 => Some(Quality::Q96),
            Quality::Q96 => None,
        }
    }

    /// The nominal bitrate of the tier, enforced as a hard floor when
    /// transcoding.
    pub fn min_bitrate_kbps(&self) -> (r: i32)
        ensures
            r == match *self {
                Quality::Q320 => 320int,
                Quality::Q256 => 256int,
                Quality::Q160 => 160int,
                Quality::Q96 => 96int,
            },
    {
        match self {
            Quality::Q320 => 320,
            Quality::Q256 => 256,
            Quality::Q160 => 160,
            Quality::Q96 => 96,
        }
    }

    pub open spec fn label_spec(&self) -> Seq<char> {
        match *self {
            Quality::Q320 => "320kbps"@,
            Quality::Q256 => "256kbps"@,
            Quality::Q160 => "160kbps"@,
            Quality::Q96 => "96kbps"@,
        }
    }

    /// A human-readable label for the tier.
    pub fn label(&self) -> (r: String)
        ensures
            r@ == self.label_spec(),
    {
        match self {
            Quality::Q320 => "320kbps",
            Quality::Q256 => "256kbps",
            Quality::Q160 => "160kbps",
            Quality::Q96 => "96kbps",
        }.to_owned()
    }

    /// Every tier, from highest to lowest.
    pub fn all() -> (r: Vec<Quality>)
        ensures
            r@ == seq![Quality::Q320, Quality::Q256, Quality::Q160, Quality::Q96],
    {
        vec![Quality::Q320, Quality::Q256, Quality::Q160, Quality::Q96]
    }
}

} // verus!
