//! Timeline profiler: one forward scan over the record stream producing a
//! lightweight descriptor per record, plus the audio configuration needed to
//! synthesize silent frames later.
use vstd::prelude::*;

use crate::audio::{spec_sample_rate, AudioSpecificConfig};
use crate::tag::{
    spec_data_size, spec_read_tag, spec_timestamp, FLVHeader, FLVTag, FLVTagRead, FLVTagType,
};
use crate::FlvError;

verus! {

/// Identifier of a synthesized silent record: never produced by the scan.
pub const MAX_ID: u64 = 0xFFFFFFFFFFFFFFFF;

/// One record descriptor: scan identity, kind, timing in microseconds, byte
/// offset (or channel count for a synthesized silent record), the two flags
/// that drive planning, and the planner's outputs (shift and deletion).
#[derive(Debug, Clone, Copy, PartialEq, Eq, Structural)]
pub struct TagProfile {
    pub id: u64,
    pub tag_type: FLVTagType,
    pub timestamp_us: i64,
    /// Byte offset of the record; for a synthesized silent record, the
    /// channel count instead.
    pub position: u64,
    pub sequence_header: bool,
    pub keyframe: bool,
    /// Audio: nominal decode duration in microseconds. Video: presentation
    /// timestamp in milliseconds. Metadata: zero.
    pub decode_duration_us: i64,
    pub offset_us: i64,
    pub deleted: bool,
}

impl TagProfile {
    /// Descriptor of a video record.
    pub fn new_video(
        id: u64,
        timestamp_us: i64,
        position: u64,
        sequence_header: bool,
        keyframe: bool,
        pts: i64,
    ) -> (r: TagProfile)
        ensures
            r == (TagProfile {
                id,
                tag_type: FLVTagType::TAG_TYPE_VIDEO,
                timestamp_us,
                position,
                sequence_header,
                keyframe,
                decode_duration_us: pts,
                offset_us: 0,
                deleted: false,
            }),
    {
        TagProfile {
            id,
            tag_type: FLVTagType::TAG_TYPE_VIDEO,
            timestamp_us,
            position,
            sequence_header,
            keyframe,
            decode_duration_us: pts,
            offset_us: 0,
            deleted: false,
        }
    }

    /// Descriptor of an audio record; a sequence header counts as a keyframe.
    pub fn new_audio(
        id: u64,
        timestamp_us: i64,
        position: u64,
        sequence_header: bool,
        decode_duration_us: i64,
    ) -> (r: TagProfile)
        ensures
            r == (TagProfile {
                id,
                tag_type: FLVTagType::TAG_TYPE_AUDIO,
                timestamp_us,
                position,
                sequence_header,
                keyframe: sequence_header,
                decode_duration_us,
                offset_us: 0,
                deleted: false,
            }),
    {
        TagProfile {
            id,
            tag_type: FLVTagType::TAG_TYPE_AUDIO,
            timestamp_us,
            position,
            sequence_header,
            keyframe: sequence_header,
            decode_duration_us,
            offset_us: 0,
            deleted: false,
        }
    }

    /// Descriptor of a metadata record.
    pub fn new_meta(id: u64, timestamp_us: i64, position: u64) -> (r: TagProfile)
        ensures
            r == (TagProfile {
                id,
                tag_type: FLVTagType::TAG_TYPE_SCRIPTDATAOBJECT,
                timestamp_us,
                position,
                sequence_header: false,
                keyframe: false,
                decode_duration_us: 0,
                offset_us: 0,
                deleted: false,
            }),
    {
        TagProfile {
            id,
            tag_type: FLVTagType::TAG_TYPE_SCRIPTDATAOBJECT,
            timestamp_us,
            position,
            sequence_header: false,
            keyframe: false,
            decode_duration_us: 0,
            offset_us: 0,
            deleted: false,
        }
    }

    /// Descriptor of a synthesized silent audio record: marked by the
    /// reserved identifier, carrying the channel count in the offset field
    /// and the nominal frame duration implied by the sample rate.
    pub fn new_mute(timestamp_us: i64, sample_rate: u32, channels: u8) -> (r: TagProfile)
        requires
            sample_rate >= 1,
        ensures
            r == (TagProfile {
                id: MAX_ID,
                tag_type: FLVTagType::TAG_TYPE_AUDIO,
                timestamp_us,
                position: channels as u64,
                sequence_header: false,
                keyframe: false,
                decode_duration_us: (1024000000int / sample_rate as int) as i64,
                offset_us: 0,
                deleted: false,
            }),
    {
        let dd = (1024000000u64 / sample_rate as u64) as i64;
        TagProfile::new_audio(MAX_ID, timestamp_us, channels as u64, false, dd)
    }

    /// The same descriptor at another timestamp.
    pub fn with_timestamp_us(self, timestamp_us: i64) -> (r: TagProfile)
        ensures
            r == (TagProfile { timestamp_us, ..self }),
    {
        let mut s = self;
        s.timestamp_us = timestamp_us;
        s
    }
}

/// The record bytes of a synthesized silent audio frame: an audio record
/// whose fixed payload is the encoded silent frame for one or two channels,
/// timestamped at `timestamp_us` rounded down to milliseconds.
pub open spec fn spec_mute_tag_bytes(timestamp_us: i64, channels: u8) -> Seq<u8> {
    let ts = (timestamp_us / 1000) as int;
    let payload: Seq<u8> = if channels == 2 {
        seq![0x21u8, 0x10u8, 0x04u8, 0x60u8, 0x8cu8, 0x1cu8]
    } else {
        seq![0x01u8, 0x18u8, 0x20u8, 0x07u8]
    };
    let ds = payload.len() + 2;
    seq![
        8u8,
        ((ds as int / 0x10000) % 0x100) as u8,
        ((ds as int / 0x100) % 0x100) as u8,
        (ds as int % 0x100) as u8,
        ((ts / 0x10000) % 0x100) as u8,
        ((ts / 0x100) % 0x100) as u8,
        (ts % 0x100) as u8,
        ((ts / 0x1000000) % 0x100) as u8,
        0u8,
        0u8,
        0u8,
        (0xAEu8 + (if channels >= 1 {
            (channels - 1) as u8
        } else {
            0u8
        })) as u8,
        1u8,
    ] + payload
}

impl TagProfile {
    /// Build the record of a synthesized silent audio frame.
    pub fn new_mute_tag(timestamp_us: i64, channels: u8) -> (r: FLVTag)
        requires
            0 <= timestamp_us,
            timestamp_us / 1000 < 0x100000000,
            1 <= channels <= 2,
        ensures
            r@ == spec_mute_tag_bytes(timestamp_us, channels),
            r.wf(),
            spec_timestamp(r@) == timestamp_us / 1000,
    {
        let ts = (timestamp_us / 1000) as u64;
        let mut tag_data: Vec<u8> = Vec::new();
        let data_size: u32 = if channels == 2 {
            8
        } else {
            6
        };
        tag_data.push(8);
        tag_data.push((data_size / 0x10000) as u8);
        tag_data.push(((data_size / 0x100) % 0x100) as u8);
        tag_data.push((data_size % 0x100) as u8);
        tag_data.push(((ts / 0x10000) % 0x100) as u8);
        tag_data.push(((ts / 0x100) % 0x100) as u8);
        tag_data.push((ts % 0x100) as u8);
        tag_data.push(((ts / 0x1000000) % 0x100) as u8);
        tag_data.push(0);
        tag_data.push(0);
        tag_data.push(0);
        tag_data.push(0xAE + (channels - 1));
        tag_data.push(1);
        if channels == 2 {
            tag_data.push(0x21);
            tag_data.push(0x10);
            tag_data.push(0x04);
            tag_data.push(0x60);
            tag_data.push(0x8c);
            tag_data.push(0x1c);
        } else {
            tag_data.push(0x01);
            tag_data.push(0x18);
            tag_data.push(0x20);
            tag_data.push(0x07);
        }
        proof {
            assert(tag_data@ =~= spec_mute_tag_bytes(timestamp_us, channels));
            assert(tag_data@.subrange(1, 4) =~= crate::endian::spec_u24_bytes(data_size as int));
            crate::endian::lemma_u24_round_trip(data_size as int);
        }
        FLVTag::from_bytes(tag_data)
    }

    /// The record this descriptor stands for: a synthesized silent frame for
    /// the reserved identifier, otherwise the record re-read from the
    /// original stream bytes at the stored offset.
    pub fn tag(&self, data: &Vec<u8>) -> (r: Result<FLVTag, FlvError>)
        requires
            self.id == MAX_ID ==> {
                &&& 0 <= self.timestamp_us
                &&& self.timestamp_us / 1000 < 0x100000000
                &&& 1 <= self.position <= 2
            },
            self.id != MAX_ID ==> self.position <= data@.len(),
        ensures
            self.id == MAX_ID ==> (r matches Ok(t) && t@ == spec_mute_tag_bytes(
                self.timestamp_us,
                self.position as u8,
            ) && t.wf()),
            self.id != MAX_ID ==> match spec_read_tag(data@, self.position as int) {
                Ok(Some(b)) => (r matches Ok(t) && t@ == b && t.wf()),
                _ => r == Err::<FLVTag, FlvError>(FlvError::Truncated),
            },
    {
        if self.id == MAX_ID {
            Ok(TagProfile::new_mute_tag(self.timestamp_us, self.position as u8))
        } else {
            let dlen: usize = data.len();
            proof {
                assert(self.position as int == (self.position as usize) as int);
            }
            match FLVTag::read(data, self.position as usize) {
                Ok(Some(t)) => Ok(t),
                Ok(None) => Err(FlvError::Truncated),
                Err(_) => Err(FlvError::Truncated),
            }
        }
    }
}

/// Classify one record's bytes `b` standing at byte offset `pos` with scan
/// identity `id`, given the audio configuration seen so far: the resulting
/// descriptor and the configuration afterwards.
pub open spec fn spec_classify(
    b: Seq<u8>,
    id: u64,
    pos: int,
    asc: Option<AudioSpecificConfig>,
) -> Result<(TagProfile, Option<AudioSpecificConfig>), FlvError> {
    let ds = spec_data_size(b);
    let ts = spec_timestamp(b);
    if b[0] == 9 {
        if ds < 2 {
            Err(FlvError::Truncated)
        } else {
            let frame_type = b[11] / 16;
            let codec = b[11] % 16;
            let packet = b[12];
            let sh = frame_type == 1 && packet == 0;
            if sh {
                Ok(
                    (
                        TagProfile {
                            id,
                            tag_type: FLVTagType::TAG_TYPE_VIDEO,
                            timestamp_us: (ts * 1000) as i64,
                            position: pos as u64,
                            sequence_header: true,
                            keyframe: frame_type == 1,
                            decode_duration_us: ts as i64,
                            offset_us: 0,
                            deleted: false,
                        },
                        asc,
                    ),
                )
            } else if codec != 7 && codec != 12 {
                Err(FlvError::UnsupportedCodec)
            } else if packet == 1 && ds < 5 {
                Err(FlvError::Truncated)
            } else {
                let cts = if packet == 1 {
                    crate::video::spec_cts(b)
                } else {
                    0
                };
                Ok(
                    (
                        TagProfile {
                            id,
                            tag_type: FLVTagType::TAG_TYPE_VIDEO,
                            timestamp_us: (ts * 1000) as i64,
                            position: pos as u64,
                            sequence_header: false,
                            keyframe: b[11] / 16 == 1,
                            decode_duration_us: (cts + ts) as i64,
                            offset_us: 0,
                            deleted: false,
                        },
                        asc,
                    ),
                )
            }
        }
    } else if b[0] == 8 {
        if ds < 2 {
            Err(FlvError::Truncated)
        } else if b[11] / 16 != 10 {
            Err(FlvError::NotAac)
        } else if b[12] == 0 {
            if ds < 4 {
                Err(FlvError::Truncated)
            } else {
                let cfg = AudioSpecificConfig {
                    original_audio_object_type: (b[13] / 8) as u8,
                    audio_object_type: (b[13] / 8) as u8,
                    sample_index: ((b[13] % 8) * 2 + b[14] / 128) as u8,
                    channel_config: ((b[14] / 8) % 16) as u8,
                };
                Ok(
                    (
                        TagProfile {
                            id,
                            tag_type: FLVTagType::TAG_TYPE_AUDIO,
                            timestamp_us: (ts * 1000) as i64,
                            position: pos as u64,
                            sequence_header: true,
                            keyframe: true,
                            decode_duration_us: 0,
                            offset_us: 0,
                            deleted: false,
                        },
                        Some(cfg),
                    ),
                )
            }
        } else {
            match asc {
                None => Err(FlvError::NoAudioConfig),
                Some(cfg) => if cfg.sample_index >= 13 {
                    Err(FlvError::BadAudioConfig)
                } else {
                    Ok(
                        (
                            TagProfile {
                                id,
                                tag_type: FLVTagType::TAG_TYPE_AUDIO,
                                timestamp_us: (ts * 1000) as i64,
                                position: pos as u64,
                                sequence_header: false,
                                keyframe: false,
                                decode_duration_us: (1024000000int / spec_sample_rate(
                                    cfg.sample_index as int,
                                ) as int) as i64,
                                offset_us: 0,
                                deleted: false,
                            },
                            asc,
                        ),
                    )
                },
            }
        }
    } else {
        Ok(
            (
                TagProfile {
                    id,
                    tag_type: FLVTagType::TAG_TYPE_SCRIPTDATAOBJECT,
                    timestamp_us: (ts * 1000) as i64,
                    position: pos as u64,
                    sequence_header: false,
                    keyframe: false,
                    decode_duration_us: 0,
                    offset_us: 0,
                    deleted: false,
                },
                asc,
            ),
        )
    }
}

/// Scan the record stream from `pos`: the descriptors of all remaining
/// records and the audio configuration at the end of the stream.
pub open spec fn spec_scan(
    s: Seq<u8>,
    pos: int,
    id: u64,
    asc: Option<AudioSpecificConfig>,
) -> Result<(Seq<TagProfile>, Option<AudioSpecificConfig>), FlvError>
    decreases s.len() - pos,
{
    if pos < 0 || pos > s.len() {
        Err(FlvError::Truncated)
    } else {
        match spec_read_tag(s, pos) {
            Ok(None) => Ok((Seq::empty(), asc)),
            Ok(Some(b)) => match spec_classify(b, id, pos, asc) {
                Ok((p, asc2)) => match spec_scan(
                    s,
                    pos + b.len() + 4,
                    (id + 1) as u64,
                    asc2,
                ) {
                    Ok((rest, fasc)) => Ok((seq![p] + rest, fasc)),
                    Err(e) => Err(e),
                },
                Err(e) => Err(e),
            },
            Err(e) => Err(e),
        }
    }
}

/// What profiling a whole stream yields: the descriptor list, the sample
/// rate, and the channel count of the final audio configuration. The stream
/// must carry both streams and hold a configuration-bearing audio codec.
pub open spec fn spec_get_info(s: Seq<u8>) -> Result<(Seq<TagProfile>, u32, u8), FlvError> {
    match FLVHeader::read_spec(s) {
        Err(e) => Err(e),
        Ok(h) => if !(h.hasAudioTags && h.hasVideoTags) {
            Err(FlvError::SingleStream)
        } else {
            match spec_scan(s, 13, 0, None) {
                Err(e) => Err(e),
                Ok((ps, fasc)) => match fasc {
                    None => Err(FlvError::NoAudioConfig),
                    Some(cfg) => if cfg.sample_index >= 13 {
                        Err(FlvError::BadAudioConfig)
                    } else {
                        Ok((ps, spec_sample_rate(cfg.sample_index as int), cfg.channel_config))
                    },
                },
            }
        },
    }
}

/// Profile the record stream: one descriptor per record in file order, plus
/// the sample rate and channel count for later mute-frame synthesis.
pub fn get_info(data: &Vec<u8>) -> (r: Result<(Vec<TagProfile>, u32, u8), FlvError>)
    ensures
        match spec_get_info(data@) {
            Ok((ps, rate, ch)) => r matches Ok(t) && t.0@ == ps && t.1 == rate && t.2 == ch,
            Err(e) => r == Err::<(Vec<TagProfile>, u32, u8), FlvError>(e),
        },
{
    let mut parser = match FLVTagRead::new(data) {
        Ok(p) => p,
        Err(e) => {
            return Err(e);
        },
    };
    let header = parser.get_header();
    if !(header.hasAudioTags && header.hasVideoTags) {
        return Err(FlvError::SingleStream);
    }
    let mut info: Vec<TagProfile> = Vec::new();
    let mut id: u64 = 0;
    let mut asc: Option<AudioSpecificConfig> = None;
    loop
        invariant
            parser.spec_position() <= data@.len(),
            !parser.spec_finished(),
            FLVHeader::read_spec(data@) matches Ok(h) && h.hasAudioTags && h.hasVideoTags
                && h == parser.spec_header(),
            id == info@.len(),
            15 * id <= parser.spec_position() - 13,
            spec_scan(data@, 13, 0, None) == (match spec_scan(
                data@,
                parser.spec_position(),
                id,
                asc,
            ) {
                Ok((rest, fasc)) => Ok::<(Seq<TagProfile>, Option<AudioSpecificConfig>), FlvError>(
                    (info@ + rest, fasc),
                ),
                Err(e) => Err(e),
            }),
        decreases data@.len() - parser.spec_position() + 1,
    {
        let position = parser.get_position();
        let nxt = match parser.next(data) {
            Ok(t) => t,
            Err(e) => {
                return Err(e);
            },
        };
        let tag: FLVTag = match nxt {
            Some(t) => t,
            None => {
                proof {
                    assert(info@ + Seq::<TagProfile>::empty() =~= info@);
                }
                match asc {
                    None => {
                        return Err(FlvError::NoAudioConfig);
                    },
                    Some(cfg) => {
                        if cfg.sample_index >= 13 {
                            return Err(FlvError::BadAudioConfig);
                        }
                        return Ok((info, cfg.get_sample_rate(), cfg.channel_config));
                    },
                }
            },
        };
        let ghost b = tag@;
        let ghost oldinfo = info@;
        let ghost oldasc = asc;
        let ds = tag.get_data_size();
        let ts = tag.get_timestamp();
        match tag.get_tag_type() {
            FLVTagType::TAG_TYPE_VIDEO => {
                if ds < 2 {
                    return Err(FlvError::Truncated);
                }
                let frame_type = tag.get_frame_type();
                let packet = tag.get_avc_packet_type();
                let sequence_header = frame_type == 1 && packet == 0;
                if sequence_header {
                    info.push(
                        TagProfile::new_video(
                            id,
                            ts as i64 * 1000,
                            position as u64,
                            true,
                            frame_type == 1,
                            ts as i64,
                        ),
                    );
                } else {
                    let codec = tag.get_codec_id();
                    if codec != 7 && codec != 12 {
                        return Err(FlvError::UnsupportedCodec);
                    }
                    if packet == 1 && ds < 5 {
                        return Err(FlvError::Truncated);
                    }
                    let cts = tag.get_avc_composition_time_offset();
                    info.push(
                        TagProfile::new_video(
                            id,
                            ts as i64 * 1000,
                            position as u64,
                            false,
                            frame_type == 1,
                            cts as i64 + ts as i64,
                        ),
                    );
                }
            },
            FLVTagType::TAG_TYPE_AUDIO => {
                if ds < 2 {
                    return Err(FlvError::Truncated);
                }
                if tag.get_sound_format() != crate::audio::SOUND_FORMAT_AAC {
                    return Err(FlvError::NotAac);
                }
                if tag.is_acc_sequence_header() {
                    if ds < 4 {
                        return Err(FlvError::Truncated);
                    }
                    let cfg = tag.get_sound_audio_specific_config();
                    asc = Some(cfg);
                    info.push(
                        TagProfile::new_audio(id, ts as i64 * 1000, position as u64, true, 0),
                    );
                } else {
                    match &asc {
                        None => {
                            return Err(FlvError::NoAudioConfig);
                        },
                        Some(cfg) => {
                            if cfg.sample_index >= 13 {
                                return Err(FlvError::BadAudioConfig);
                            }
                            let duration = cfg.nominal_frame_duration_us() as i64;
                            info.push(
                                TagProfile::new_audio(
                                    id,
                                    ts as i64 * 1000,
                                    position as u64,
                                    false,
                                    duration,
                                ),
                            );
                        },
                    }
                }
            },
            FLVTagType::TAG_TYPE_SCRIPTDATAOBJECT => {
                info.push(TagProfile::new_meta(id, ts as i64 * 1000, position as u64));
            },
        }
        proof {
            let s = data@;
            let oldpos = position as int;
            assert(spec_read_tag(s, oldpos) == Ok::<Option<Seq<u8>>, FlvError>(Some(b)));
            assert(parser.spec_position() == oldpos + b.len() + 4);
            match spec_classify(b, id, oldpos, oldasc) {
                Ok((p, a2)) => {
                    assert(info@ =~= oldinfo.push(p));
                    assert(a2 == asc);
                    assert(spec_scan(s, oldpos, id, oldasc) == (match spec_scan(
                        s,
                        oldpos + b.len() + 4,
                        (id + 1) as u64,
                        a2,
                    ) {
                        Ok((rest, fasc)) => Ok::<
                            (Seq<TagProfile>, Option<AudioSpecificConfig>),
                            FlvError,
                        >((seq![p] + rest, fasc)),
                        Err(e) => Err(e),
                    }));
                    match spec_scan(s, oldpos + b.len() + 4, (id + 1) as u64, a2) {
                        Ok((rest, fasc)) => {
                            assert(oldinfo + (seq![p] + rest) =~= info@ + rest);
                        },
                        Err(_) => {},
                    }
                },
                Err(_) => {
                    assert(false);
                },
            }
        }
        id = id + 1;
    }
}

} // verus!
