use vstd::prelude::*;

use crate::error::SpotifyError;
use crate::quality::{AudioFormat, Quality};

verus! {

/// The parameters the MP3 encoder is configured with, once per job: variable
/// bitrate at the best quality preset, fixed stereo, the sample rate read
/// from the source stream's header, and a hard bitrate floor taken from the
/// requested quality tier.
#[derive(Debug, Clone, Copy, PartialEq, Eq, Structural)]
pub struct EncoderSettings {
    pub sample_rate: u32,
    pub channels: u8,
    pub vbr_quality: u8,
    pub min_bitrate_kbps: i32,
    pub enforce_min_bitrate: bool,
}

impl EncoderSettings {
    /// Settings for one transcoding job; the bitrate floor is the tier's
    /// nominal bitrate, never lower.
    pub fn new(quality: Quality, sample_rate: u32) -> (r: EncoderSettings)
        ensures
            r.sample_rate == sample_rate,
            r.channels == 2,
            r.vbr_quality == 0,
            r.min_bitrate_kbps == match quality {
                Quality::Q320 => 320int,
                Quality::Q256 => 256int,
                Quality::Q160 => 160int,
                Quality::Q96 => 96int,
            },
            r.enforce_min_bitrate,
    {
        EncoderSettings {
            sample_rate,
            channels: 2,
            vbr_quality: 0,
            min_bitrate_kbps: quality.min_bitrate_kbps(),
            enforce_min_bitrate: true,
        }
    }
}

/// What the transcoding loop must do next.
pub enum ConverterAction {
    /// Hand the decoded packet to the encoder.
    EncodePacket,
    /// A zero-length decoded packet: skip it and read the next one; it is not
    /// end-of-stream.
    SkipPacket,
    /// The source ended: flush the encoder's buffered output and close it.
    Flush,
    /// The stream is over; report end-of-stream to the reader.
    Eof,
}

/// What an encoder status means for the loop.
pub enum EncodeOutcome {
    /// The encoder produced this many bytes of output.
    Output(usize),
    /// The encoder buffered the input and produced nothing yet; read the next
    /// packet — zero output is not end-of-stream.
    ReadAgain,
    /// The encoder failed; the job aborts with this error.
    Abort(SpotifyError),
}

/// An event of the transcoding loop, reduced to what the decisions depend on.
pub enum ConverterEvent {
    /// A decoded packet of this many samples arrived.
    Packet(usize),
    /// The encoder returned this status for a handed packet.
    EncodeStatus(i32),
    /// The source reached its genuine end of stream.
    StreamEnd,
    /// The decoder failed; the stream is closed and ends quietly.
    DecodeError,
}

/// Whether the encoder is closed after a run of events: a negative encoder
/// status, the end of the stream and a decoder failure all close it, and
/// nothing reopens it.
pub open spec fn converter_ended_after(events: Seq<ConverterEvent>) -> bool
    decreases events.len(),
{
    if events.len() == 0 {
        false
    } else {
        match events.last() {
            ConverterEvent::Packet(_) => converter_ended_after(events.drop_last()),
            ConverterEvent::EncodeStatus(s) => converter_ended_after(events.drop_last()) || s < 0,
            ConverterEvent::StreamEnd => true,
            ConverterEvent::DecodeError => true,
        }
    }
}

/// How often the encoder is flushed in a run of events: exactly when the
/// stream ends while the encoder is still open.
pub open spec fn flush_count(events: Seq<ConverterEvent>) -> int
    decreases events.len(),
{
    if events.len() == 0 {
        0
    } else {
        flush_count(events.drop_last()) + if events.last() matches ConverterEvent::StreamEnd
            && !converter_ended_after(events.drop_last()) {
            1int
        } else {
            0int
        }
    }
}

/// Law: the encoder is flushed at most once, whatever events arrive in
/// whatever order — flushing twice or encoding after close cannot happen.
pub proof fn lemma_flush_at_most_once(events: Seq<ConverterEvent>)
    ensures
        flush_count(events) <= 1,
        flush_count(events) >= 1 ==> converter_ended_after(events),
    decreases events.len(),
{
    if events.len() > 0 {
        lemma_flush_at_most_once(events.drop_last());
    }
}

/// The control state of one transcoding run: decides, packet by packet, what
/// the loop does, and guards the encoder against being flushed twice or fed
/// after close.
pub struct ConverterMachine {
    ended: bool,
}

impl ConverterMachine {
    /// Whether the encoder was closed (by a flush, a decoder failure or an
    /// encoder failure).
    pub closed spec fn ended_spec(&self) -> bool {
        self.ended
    }

    /// Whether the encoder was already closed.
    pub fn is_ended(&self) -> (r: bool)
        ensures
            r == self.ended_spec(),
    {
        self.ended
    }

    /// A converter for one job; only an OGG source can be transcoded, any
    /// other container is rejected with `InvalidFormat`. A source that is
    /// already MP3 is never re-encoded and must not be handed here.
    pub fn new(format: AudioFormat) -> (r: Result<ConverterMachine, SpotifyError>)
        requires
            !(format matches AudioFormat::MP3),
        ensures
            match r {
                Ok(m) => format matches AudioFormat::OGG && !m.ended_spec(),
                Err(e) => !(format matches AudioFormat::OGG) && e matches
                    SpotifyError::InvalidFormat,
            },
    {
        match format {
            AudioFormat::OGG => Ok(ConverterMachine { ended: false }),
            _ => Err(SpotifyError::InvalidFormat),
        }
    }

    /// A decoded packet arrived: encode it, skip it when it is empty, or
    /// report end-of-stream when the encoder is already closed.
    pub fn on_packet(&mut self, n_samples: usize) -> (a: ConverterAction)
        ensures
            final(self).ended_spec() == old(self).ended_spec(),
            old(self).ended_spec() ==> a is Eof,
            !old(self).ended_spec() && n_samples == 0 ==> a is SkipPacket,
            !old(self).ended_spec() && n_samples > 0 ==> a is EncodePacket,
    {
        if self.ended {
            ConverterAction::Eof
        } else if n_samples == 0 {
            ConverterAction::SkipPacket
        } else {
            ConverterAction::EncodePacket
        }
    }

    /// The encoder answered for a handed packet: a negative status closes the
    /// encoder and aborts the job, zero bytes mean the encoder buffered the
    /// input (not end-of-stream), anything else is output.
    pub fn on_encode_status(&mut self, status: i32) -> (a: EncodeOutcome)
        requires
            !old(self).ended_spec(),
        ensures
            status < 0 ==> final(self).ended_spec() && (a matches EncodeOutcome::Abort(e) && e
                matches SpotifyError::Encoder(s) && s == status),
            status == 0 ==> !final(self).ended_spec() && a is ReadAgain,
            status > 0 ==> !final(self).ended_spec() && (a matches EncodeOutcome::Output(n) && n
                == status),
    {
        if status < 0 {
            self.ended = true;
            EncodeOutcome::Abort(SpotifyError::Encoder(status))
        } else if status == 0 {
            EncodeOutcome::ReadAgain
        } else {
            EncodeOutcome::Output(status as usize)
        }
    }

    /// The source ended: flush the encoder exactly once; a second end is
    /// answered with plain end-of-stream.
    pub fn on_stream_end(&mut self) -> (a: ConverterAction)
        ensures
            final(self).ended_spec(),
            old(self).ended_spec() ==> a is Eof,
            !old(self).ended_spec() ==> a is Flush,
    {
        if self.ended {
            ConverterAction::Eof
        } else {
            self.ended = true;
            ConverterAction::Flush
        }
    }

    /// The decoder failed: the encoder is closed if it still runs, and the
    /// stream ends quietly.
    pub fn on_decode_error(&mut self) -> (a: ConverterAction)
        ensures
            final(self).ended_spec(),
            a is Eof,
    {
        self.ended = true;
        ConverterAction::Eof
    }
}

} // verus!
