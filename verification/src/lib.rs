//! Repair of audio/video synchronization drift in a flat, tag-based
//! multimedia container (FLV-style).
//!
//! The library is organised leaf-first:
//! - `endian`: big-endian integer fields of the container format;
//! - `amf0`: the self-describing structured-value encoding used by the
//!   metadata record;
//! - `tag`: byte-exact reader/writer for one container record and the file
//!   header;
//! - `audio`, `video`: the media-sample models needed for timing;
//! - `crc32`: the checksum used by the companion tools;
//! - `num`: saturating timeline arithmetic;
//! - `fbits`: integer construction of the float encodings the metadata
//!   stores;
//! - `profile`: the single-pass timeline profiler;
//! - `drift`: the drift detector and its summary statistics;
//! - `fix`: the two repair strategies (frame drop, silence insertion);
//! - `rewrite`: the container rewriter;
//! - `split`: segment-point computation for the splitting tools;
//! - `strfmt`: plain-text rendering of timestamps and the segment index.
use vstd::prelude::*;

pub mod amf0;
pub mod audio;
pub mod crc32;
pub mod drift;
pub mod endian;
pub mod fbits;
pub mod fix;
pub mod num;
pub mod profile;
pub mod rewrite;
pub mod split;
pub mod strfmt;
pub mod tag;
pub mod video;

verus! {

/// Errors of the container pipeline. Malformed input and violated stream
/// preconditions are always fatal; policy refusals are not errors and are
/// reported through ordinary return values instead.
#[derive(Debug, Clone, Copy, PartialEq, Eq, Structural)]
pub enum FlvError {
    /// A record or header field ended before its declared size.
    Truncated,
    /// The file header magic or version is not the supported layout.
    BadFileHeader,
    /// A record's type byte is none of audio, video, metadata.
    UnknownTagType,
    /// A structured value began with an unsupported marker byte.
    UnknownMarker,
    /// The file does not declare both an audio and a video stream.
    SingleStream,
    /// An audio record's sound format is not the configuration-bearing codec.
    NotAac,
    /// No audio configuration record was found in the whole file.
    NoAudioConfig,
    /// The audio sequence header count is not exactly one.
    BadAudioSequenceHeaderCount,
    /// The video sequence header count is not exactly one.
    BadVideoSequenceHeaderCount,
    /// More than one metadata record is present.
    BadMetadataCount,
    /// The plan holds no audio records at all.
    NoAudioTags,
    /// A video sequence header's decoder configuration is malformed.
    BadDecoderConfig,
    /// A video record's codec is not the supported family.
    UnsupportedCodec,
    /// The audio configuration names no entry of the sample-rate table.
    BadAudioConfig,
    /// A planned record cannot be synthesized, re-read, or re-encoded.
    BadPlan,
}

} // verus!
