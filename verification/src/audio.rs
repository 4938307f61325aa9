//! Audio sample model: the in-band audio configuration, the nominal frame
//! duration it implies, and the fixed-size frame header a standalone decoder
//! would need. The library never decodes audio samples; it only needs the
//! configuration's timing.
use vstd::prelude::*;

use crate::tag::{spec_data_size, FLVTag};

verus! {

/// Sound format codes of the container's audio header byte.
pub const SOUND_FORMAT_LINEAR: u8 = 0;

pub const SOUND_FORMAT_ADPCM: u8 = 1;

pub const SOUND_FORMAT_MP3: u8 = 2;

pub const SOUND_FORMAT_LINEAR_LE: u8 = 3;

pub const SOUND_FORMAT_NELLYMOSER_16K: u8 = 4;

pub const SOUND_FORMAT_NELLYMOSER_8K: u8 = 5;

pub const SOUND_FORMAT_NELLYMOSER: u8 = 6;

pub const SOUND_FORMAT_G711A: u8 = 7;

pub const SOUND_FORMAT_G711U: u8 = 8;

/// The configuration-bearing format; the only one the profiler accepts.
pub const SOUND_FORMAT_AAC: u8 = 10;

pub const SOUND_FORMAT_SPEEX: u8 = 11;

pub const SOUND_FORMAT_MP3_8K: u8 = 14;

pub const SOUND_FORMAT_DEVICE_SPECIFIC: u8 = 15;

pub const SOUND_SIZE_8BITS: u8 = 8;

pub const SOUND_SIZE_16BITS: u8 = 16;

pub const SOUND_CHANNELS_MONO: u8 = 1;

pub const SOUND_CHANNELS_STEREO: u8 = 2;

/// The decoded in-band audio configuration: object type, an index into the
/// fixed sample-rate table, and the channel count.
#[derive(Debug, Clone, Copy, PartialEq, Eq, Structural)]
pub struct AudioSpecificConfig {
    pub original_audio_object_type: u8,
    pub audio_object_type: u8,
    pub sample_index: u8,
    pub channel_config: u8,
}

/// The fixed 13-entry sample-rate table, indexed by `sample_index`.
pub open spec fn spec_sample_rate(index: int) -> u32 {
    if index == 0 {
        96000
    } else if index == 1 {
        88200
    } else if index == 2 {
        64000
    } else if index == 3 {
        48000
    } else if index == 4 {
        44100
    } else if index == 5 {
        32000
    } else if index == 6 {
        24000
    } else if index == 7 {
        22050
    } else if index == 8 {
        16000
    } else if index == 9 {
        12000
    } else if index == 10 {
        11025
    } else if index == 11 {
        8000
    } else {
        7350
    }
}

impl AudioSpecificConfig {
    /// The sample rate this configuration names.
    pub fn get_sample_rate(&self) -> (r: u32)
        requires
            self.sample_index < 13,
        ensures
            r == spec_sample_rate(self.sample_index as int),
            7350 <= r <= 96000,
    {
        let i = self.sample_index;
        if i == 0 {
            96000
        } else if i == 1 {
            88200
        } else if i == 2 {
            64000
        } else if i == 3 {
            48000
        } else if i == 4 {
            44100
        } else if i == 5 {
            32000
        } else if i == 6 {
            24000
        } else if i == 7 {
            22050
        } else if i == 8 {
            16000
        } else if i == 9 {
            12000
        } else if i == 10 {
            11025
        } else if i == 11 {
            8000
        } else {
            7350
        }
    }

    /// Nominal decode duration of one frame in microseconds: each frame
    /// carries a fixed 1024 samples, so the duration is
    /// 1,000,000 x 1024 / sample_rate, truncated.
    pub fn nominal_frame_duration_us(&self) -> (r: u64)
        requires
            self.sample_index < 13,
        ensures
            r == 1024000000int / spec_sample_rate(self.sample_index as int) as int,
            10666 <= r <= 139319,
    {
        let rate = self.get_sample_rate();
        1024000000u64 / rate as u64
    }
}

impl FLVTag {
    /// Sound format code: high nibble of the first payload byte.
    pub fn get_sound_format(&self) -> (r: u8)
        requires
            self.wf(),
            self@[0] == 8,
            spec_data_size(self@) >= 1,
        ensures
            r == self@[11] / 16,
    {
        self.raw()[11] / 16
    }

    /// Sample width flag of the audio header byte: 16 or 8 bits.
    pub fn get_sound_size(&self) -> (r: u8)
        requires
            self.wf(),
            self@[0] == 8,
            spec_data_size(self@) >= 1,
        ensures
            r == (if (self@[11] / 2) % 2 == 1 {
                16u8
            } else {
                8u8
            }),
    {
        if (self.raw()[11] / 2) % 2 == 1 {
            SOUND_SIZE_16BITS
        } else {
            SOUND_SIZE_8BITS
        }
    }

    /// Channel flag of the audio header byte: stereo or mono.
    pub fn get_sound_channels(&self) -> (r: u8)
        requires
            self.wf(),
            self@[0] == 8,
            spec_data_size(self@) >= 1,
        ensures
            r == (if self@[11] % 2 == 1 {
                2u8
            } else {
                1u8
            }),
    {
        if self.raw()[11] % 2 == 1 {
            SOUND_CHANNELS_STEREO
        } else {
            SOUND_CHANNELS_MONO
        }
    }

    /// Whether this audio record is the stream's sequence header (packet
    /// type byte zero) rather than a media frame.
    pub fn is_acc_sequence_header(&self) -> (r: bool)
        requires
            self.wf(),
            self@[0] == 8,
            self@[11] / 16 == 10,
            spec_data_size(self@) >= 2,
        ensures
            r == (self@[12] == 0),
    {
        self.raw()[12] == 0
    }

    /// The audio payload after the two audio header bytes.
    pub fn get_sound_data(&self) -> (r: &[u8])
        requires
            self.wf(),
            spec_data_size(self@) >= 2,
        ensures
            r@ == self@.skip(13),
    {
        let len = self.raw().len();
        let r = vstd::slice::slice_subrange(self.raw().as_slice(), 13, len);
        proof {
            assert(self@.subrange(13, self@.len() as int) =~= self@.skip(13));
        }
        r
    }

    /// Size of the audio payload after the two audio header bytes.
    pub fn get_sound_data_size(&self) -> (r: u32)
        requires
            self.wf(),
            spec_data_size(self@) >= 2,
        ensures
            r == spec_data_size(self@) - 2,
    {
        self.get_data_size() - 2
    }

    /// Decode the in-band audio configuration from the first two payload
    /// bytes: object type, sample-rate index, channel configuration.
    pub fn get_sound_audio_specific_config(&self) -> (r: AudioSpecificConfig)
        requires
            self.wf(),
            spec_data_size(self@) >= 4,
        ensures
            r.original_audio_object_type == self@[13] / 8,
            r.audio_object_type == self@[13] / 8,
            r.sample_index == (self@[13] % 8) * 2 + self@[14] / 128,
            r.channel_config == (self@[14] / 8) % 16,
            r.sample_index < 16,
    {
        let b0 = self.raw()[13];
        let b1 = self.raw()[14];
        let original_audio_object_type: u8 = b0 / 8;
        let audio_object_type: u8 = original_audio_object_type;
        let sample_index: u8 = (b0 % 8) * 2 + b1 / 128;
        let channel_config: u8 = (b1 / 8) % 16;
        AudioSpecificConfig {
            original_audio_object_type,
            audio_object_type,
            sample_index,
            channel_config,
        }
    }

    /// Build the fixed 7-byte frame header that lets a standalone decoder
    /// consume one frame of `frame_len` total bytes: sync word, version and
    /// layer bits, profile from the object type, sample-rate index, channel
    /// configuration split across two bytes, the 13-bit frame length packed
    /// across three bytes, and the constant buffer-fullness filler.
    pub fn get_sound_adts_header_data(asc: &AudioSpecificConfig, frame_len: u32) -> (r: [u8; 7])
        requires
            asc.audio_object_type >= 1,
        ensures
            r@[0] == 0xff,
            r@[1] == 0xf1,
            r@[2] == ((asc.audio_object_type - 1) % 4) * 64 + (asc.sample_index % 16) * 4 + (
            asc.channel_config / 4) % 2,
            r@[3] == (asc.channel_config % 4) * 64 + ((frame_len / 2048) % 4),
            r@[4] == (frame_len / 8) % 256,
            r@[5] == (frame_len % 8) * 32 + 0x1f,
            r@[6] == 0xfc,
    {
        let b2: u8 = ((asc.audio_object_type - 1) % 4) * 64 + (asc.sample_index % 16) * 4 + (
        asc.channel_config / 4) % 2;
        let b3: u8 = (asc.channel_config % 4) * 64 + ((frame_len / 2048) % 4) as u8;
        let b4: u8 = ((frame_len / 8) % 256) as u8;
        let b5: u8 = (frame_len % 8) as u8 * 32 + 0x1f;
        [0xff, 0xf1, b2, b3, b4, b5, 0xfc]
    }
}

} // verus!
