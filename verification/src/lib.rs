//! The download core of a personal media-acquisition tool: a job queue with
//! monotonic identities, a worker pool with bounded concurrency, quality
//! fallback over the catalog's offered encodings, a chunked streaming
//! pipeline from decrypted bytes to the destination file with live progress,
//! a guarded transcoding state machine, filename templating, and MP4 tag
//! writing. The presentation layer, settings persistence and the network
//! clients live outside and drive this crate through plain values.

pub mod converter;
pub mod error;
pub mod fetcher;
pub mod metadata;
pub mod pipeline;
pub mod quality;
pub mod queue;
pub mod settings;
pub mod strings;
pub mod tagger;
pub mod template;
pub mod uri;
pub mod worker;

pub use converter::{ConverterAction, ConverterMachine, EncodeOutcome, EncoderSettings};
pub use error::SpotifyError;
pub use fetcher::{select_format, select_track, TrackInfo};
pub use metadata::{
    build_tag_fields, clone_strings, download_from_track, downloads_from_tracks, pagination_done,
    tracks_of_entries, AlbumInfo, ReleaseDate, TrackMetadata, TrackSummary,
};
pub use pipeline::{run_download_stream, DecryptStage, StreamDriver, StreamEvent, HEADER_LEN};
pub use quality::{AudioFormat, FileFormat, Quality};
pub use queue::{
    failure_state, CoordinatorEffect, Download, DownloadJob, DownloadState, DownloaderMessage,
    JobQueue, Message, QueueCoordinator, Response,
};
pub use settings::{DownloaderConfig, Settings};
pub use strings::{
    count_char, join_values, replace_all, split_char, starts_with, str_eq, trim_ascii,
    u32_to_padded2, u32_to_padded4, u32_to_string,
};
pub use tagger::{
    cover_kind, mp4_add_cover, mp4_set_field, mp4_set_raw, mp4_set_release_date, tag_kind_for,
    write_mp4_tags, CoverKind, Field, TagIdent, TagKind,
};
pub use template::{output_path, render_filename};
pub use uri::{parse_uri, uri_parts, UriKind};
pub use worker::{DispatchAction, PoolEvent, WorkerPool};
