//! Video sample model: keyframe flag, sequence-header flag, the signed
//! composition-time offset that separates presentation from decode time, the
//! contained sub-units ("NAL units") used to classify frame types, and the
//! decoder configuration carried by the video sequence header.
use vstd::prelude::*;

use crate::endian::{spec_u16_be, spec_u32_be};
use crate::tag::{spec_data_size, FLVTag};
use crate::FlvError;

verus! {

/// One contained sub-unit of a video payload: its type (low five bits of the
/// first byte), its slice class tag (the two bits above), and its size.
#[derive(Debug, Clone, Copy, PartialEq, Eq, Structural)]
pub struct NalUnitInfo {
    pub nalu_type: u8,
    pub nalu_tag: u8,
    pub nalu_size: u32,
}

/// The sub-units of one video payload, in order.
#[derive(Debug, Clone)]
pub struct NalUnitInfos(pub Vec<NalUnitInfo>);

/// The decoder configuration record of a video sequence header.
#[derive(Debug, Clone)]
pub struct AvcC {
    pub version: u8,
    pub profile: u8,
    pub compatibility: u8,
    pub level: u8,
    pub nalu_length_size_minus_1: u8,
    pub num_of_sps: u8,
    pub sps: Vec<u8>,
    pub pps_array: Vec<Vec<u8>>,
}

/// The signed 24-bit composition-time offset stored in bytes 2..5 of a video
/// payload, sign-extended from bit 23.
pub open spec fn spec_cts(s: Seq<u8>) -> int
    recommends
        s.len() >= 16,
{
    let v = s[13] * 0x10000 + s[14] * 0x100 + s[15];
    if v >= 0x800000 {
        v - 0x1000000
    } else {
        v
    }
}

/// The sub-units listed in `s` from `pos`: a 4-byte big-endian size, then
/// that many bytes, the first of which is classified; the walk stops cleanly
/// as soon as the remaining bytes cannot hold another unit.
pub open spec fn spec_nal_units(s: Seq<u8>, pos: int) -> Seq<NalUnitInfo>
    recommends
        0 <= pos,
    decreases s.len() - pos,
{
    if pos < 0 || pos + 4 > s.len() {
        Seq::empty()
    } else {
        let size = spec_u32_be(s.subrange(pos, pos + 4));
        if size == 0 || pos + 4 + size > s.len() {
            Seq::empty()
        } else {
            let b = s[pos + 4];
            seq![
                NalUnitInfo { nalu_type: (b % 32) as u8, nalu_tag: ((b / 32) % 4) as u8, nalu_size: size as u32 },
            ] + spec_nal_units(s, pos + 4 + size)
        }
    }
}

/// The raw sub-unit payloads listed in `s` from `pos`, in order.
pub open spec fn spec_nal_payloads(s: Seq<u8>, pos: int) -> Seq<Seq<u8>>
    recommends
        0 <= pos,
    decreases s.len() - pos,
{
    if pos < 0 || pos + 4 > s.len() {
        Seq::empty()
    } else {
        let size = spec_u32_be(s.subrange(pos, pos + 4));
        if size == 0 || pos + 4 + size > s.len() {
            Seq::empty()
        } else {
            seq![s.subrange(pos + 4, pos + 4 + size)] + spec_nal_payloads(s, pos + 4 + size)
        }
    }
}

/// Spec-level image of a parsed decoder configuration.
pub struct AvcCSpec {
    pub version: u8,
    pub profile: u8,
    pub compatibility: u8,
    pub level: u8,
    pub nalu_length_size_minus_1: u8,
    pub sps: Seq<u8>,
    pub pps: Seq<Seq<u8>>,
}

/// Parse `n` length-prefixed picture-parameter sets at `pos`; `None` when the
/// bytes run out first.
pub open spec fn spec_parse_pps(s: Seq<u8>, pos: int, n: nat) -> Option<Seq<Seq<u8>>>
    decreases n,
{
    if n == 0 {
        Some(Seq::empty())
    } else if pos < 0 || pos + 2 > s.len() {
        None
    } else {
        let l = spec_u16_be(s.subrange(pos, pos + 2));
        if pos + 2 + l > s.len() {
            None
        } else {
            match spec_parse_pps(s, pos + 2 + l, (n - 1) as nat) {
                Some(rest) => Some(seq![s.subrange(pos + 2, pos + 2 + l)] + rest),
                None => None,
            }
        }
    }
}

/// Parse the decoder configuration of a video sequence header whose record
/// bytes are `s`: fixed fields, exactly one sequence-parameter set, then the
/// counted picture-parameter sets.
pub open spec fn spec_parse_avcc(s: Seq<u8>) -> Result<AvcCSpec, FlvError> {
    if s.len() < 24 {
        Err(FlvError::Truncated)
    } else if s[21] % 32 != 1 {
        Err(FlvError::BadDecoderConfig)
    } else {
        let sl = spec_u16_be(s.subrange(22, 24));
        if 24 + sl + 1 > s.len() {
            Err(FlvError::Truncated)
        } else {
            match spec_parse_pps(s, 24 + sl + 1, s[24 + sl] as nat) {
                Some(pps) => Ok(
                    AvcCSpec {
                        version: s[16],
                        profile: s[17],
                        compatibility: s[18],
                        level: s[19],
                        nalu_length_size_minus_1: (s[20] % 4) as u8,
                        sps: s.subrange(24, 24 + sl),
                        pps,
                    },
                ),
                None => Err(FlvError::Truncated),
            }
        }
    }
}

impl FLVTag {
    /// Frame type: high nibble of the first payload byte; 1 is a keyframe.
    pub fn get_frame_type(&self) -> (r: u8)
        requires
            self.wf(),
            self@[0] == 9,
            spec_data_size(self@) >= 1,
        ensures
            r == self@[11] / 16,
    {
        self.raw()[11] / 16
    }

    /// Codec id: low nibble of the first payload byte.
    pub fn get_codec_id(&self) -> (r: u8)
        requires
            self.wf(),
            self@[0] == 9,
            spec_data_size(self@) >= 1,
        ensures
            r == self@[11] % 16,
    {
        self.raw()[11] % 16
    }

    /// Packet type of an AVC-family payload: 0 sequence header, 1 media
    /// sample, 2 end of sequence.
    pub fn get_avc_packet_type(&self) -> (r: u8)
        requires
            self.wf(),
            self@[0] == 9,
            spec_data_size(self@) >= 2,
        ensures
            r == self@[12],
    {
        self.raw()[12]
    }

    /// Signed composition-time offset (presentation minus decode time) of a
    /// media sample; zero for sequence headers and end-of-sequence markers.
    pub fn get_avc_composition_time_offset(&self) -> (r: i32)
        requires
            self.wf(),
            self@[0] == 9,
            spec_data_size(self@) >= 2,
            self@[12] == 1 ==> spec_data_size(self@) >= 5,
        ensures
            self@[12] == 1 ==> r == spec_cts(self@),
            self@[12] != 1 ==> r == 0,
            -0x800000 <= r < 0x800000,
    {
        if self.raw()[12] != 1 {
            return 0;
        }
        let v: u32 = (self.raw()[13] as u32) * 0x10000 + (self.raw()[14] as u32) * 0x100 + (
        self.raw()[15] as u32);
        if v >= 0x800000 {
            ((v as i64) - 0x1000000) as i32
        } else {
            v as i32
        }
    }

    /// Walk the contained sub-units for diagnostics, classifying each first
    /// byte into unit type and slice class.
    pub fn get_nal_uints_info(&self) -> (r: NalUnitInfos)
        requires
            self.wf(),
            self@[0] == 9,
        ensures
            r.0@ == spec_nal_units(self@, 16),
    {
        let n = self.raw().len();
        let mut ret: Vec<NalUnitInfo> = Vec::new();
        let mut pos: usize = 16;
        if pos > n {
            proof {
                assert(spec_nal_units(self@, 16) =~= Seq::<NalUnitInfo>::empty());
            }
            return NalUnitInfos(ret);
        }
        while pos + 4 <= n
            invariant
                16 <= pos <= n,
                n == self@.len(),
                self.wf(),
                spec_nal_units(self@, 16) == ret@ + spec_nal_units(self@, pos as int),
            decreases n - pos,
        {
            let size = crate::endian::read_u32_be(self.raw(), pos);
            if size == 0 || n - pos - 4 < size as usize {
                proof {
                    assert(spec_nal_units(self@, pos as int) =~= Seq::<NalUnitInfo>::empty());
                }
                return NalUnitInfos(ret);
            }
            let b = self.raw()[pos + 4];
            ret.push(NalUnitInfo { nalu_type: b % 32, nalu_tag: (b / 32) % 4, nalu_size: size });
            pos = pos + 4 + size as usize;
            proof {
                assert(spec_nal_units(self@, 16) == ret@ + spec_nal_units(self@, pos as int));
            }
        }
        proof {
            assert(spec_nal_units(self@, pos as int) =~= Seq::<NalUnitInfo>::empty());
        }
        NalUnitInfos(ret)
    }

    /// Copy out the contained sub-unit payloads, in order.
    pub fn get_nal_units(&self) -> (r: Vec<Vec<u8>>)
        requires
            self.wf(),
            self@[0] == 9,
        ensures
            r@.len() == spec_nal_payloads(self@, 16).len(),
            forall|k: int| 0 <= k < r@.len() ==> r@[k]@ == spec_nal_payloads(self@, 16)[k],
    {
        let n = self.raw().len();
        let mut ret: Vec<Vec<u8>> = Vec::new();
        let ghost mut acc: Seq<Seq<u8>> = Seq::empty();
        let mut pos: usize = 16;
        if pos > n {
            proof {
                assert(spec_nal_payloads(self@, 16) =~= Seq::<Seq<u8>>::empty());
            }
            return ret;
        }
        while pos + 4 <= n
            invariant
                16 <= pos <= n,
                n == self@.len(),
                self.wf(),
                spec_nal_payloads(self@, 16) == acc + spec_nal_payloads(self@, pos as int),
                acc.len() == ret@.len(),
                forall|k: int| 0 <= k < acc.len() ==> ret@[k]@ == acc[k],
            decreases n - pos,
        {
            let size = crate::endian::read_u32_be(self.raw(), pos);
            if size == 0 || n - pos - 4 < size as usize {
                proof {
                    assert(spec_nal_payloads(self@, pos as int) =~= Seq::<Seq<u8>>::empty());
                    assert(spec_nal_payloads(self@, 16) =~= acc);
                }
                return ret;
            }
            let mut unit: Vec<u8> = Vec::new();
            let mut i: usize = 0;
            while i < size as usize
                invariant
                    i <= size,
                    pos + 4 + size <= n,
                    n == self@.len(),
                    self.wf(),
                    unit@ =~= self@.subrange(pos + 4, pos + 4 + i),
                decreases size - i,
            {
                unit.push(self.raw()[pos + 4 + i]);
                proof {
                    assert(unit@ =~= self@.subrange(pos + 4, pos + 4 + i + 1));
                }
                i = i + 1;
            }
            ret.push(unit);
            proof {
                acc = acc + seq![unit@];
            }
            pos = pos + 4 + size as usize;
            proof {
                assert(spec_nal_payloads(self@, 16) =~= acc + spec_nal_payloads(
                    self@,
                    pos as int,
                ));
            }
        }
        proof {
            assert(spec_nal_payloads(self@, pos as int) =~= Seq::<Seq<u8>>::empty());
            assert(spec_nal_payloads(self@, 16) =~= acc);
        }
        ret
    }

    /// Parse the decoder configuration carried by a video sequence header.
    pub fn get_avcc(&self) -> (r: Result<AvcC, FlvError>)
        requires
            self.wf(),
            self@[0] == 9,
        ensures
            match spec_parse_avcc(self@) {
                Ok(m) => match r {
                    Ok(a) => {
                        &&& a.version == m.version
                        &&& a.profile == m.profile
                        &&& a.compatibility == m.compatibility
                        &&& a.level == m.level
                        &&& a.nalu_length_size_minus_1 == m.nalu_length_size_minus_1
                        &&& a.num_of_sps == 1
                        &&& a.sps@ == m.sps
                        &&& a.pps_array@.len() == m.pps.len()
                        &&& forall|k: int|
                            0 <= k < m.pps.len() ==> a.pps_array@[k]@ == m.pps[k]
                    },
                    Err(_) => false,
                },
                Err(e) => r == Err::<AvcC, FlvError>(e),
            },
    {
        let n = self.raw().len();
        if n < 24 {
            return Err(FlvError::Truncated);
        }
        let version = self.raw()[16];
        let profile = self.raw()[17];
        let compatibility = self.raw()[18];
        let level = self.raw()[19];
        let nalu_length_size_minus_1 = self.raw()[20] % 4;
        let num_of_sps = self.raw()[21] % 32;
        if num_of_sps != 1 {
            return Err(FlvError::BadDecoderConfig);
        }
        let sps_len = crate::endian::read_u16_be(self.raw(), 22) as usize;
        proof {
            assert(spec_u16_be(self@.subrange(22, 24)) == sps_len as int);
        }
        if n - 24 < sps_len {
            proof {
                assert(24 + sps_len as int + 1 > self@.len());
                assert(spec_parse_avcc(self@) == Err::<AvcCSpec, FlvError>(FlvError::Truncated));
            }
            return Err(FlvError::Truncated);
        }
        let mut sps: Vec<u8> = Vec::new();
        let mut i: usize = 0;
        while i < sps_len
            invariant
                i <= sps_len,
                24 + sps_len <= n,
                n == self@.len(),
                sps@ =~= self@.subrange(24, 24 + i),
            decreases sps_len - i,
        {
            sps.push(self.raw()[24 + i]);
            proof {
                assert(sps@ =~= self@.subrange(24, 24 + i + 1));
            }
            i = i + 1;
        }
        if n - 24 - sps_len < 1 {
            return Err(FlvError::Truncated);
        }
        let num_of_pps = self.raw()[24 + sps_len];
        let mut pps_array: Vec<Vec<u8>> = Vec::new();
        let ghost mut acc: Seq<Seq<u8>> = Seq::empty();
        let mut pos: usize = 25 + sps_len;
        let mut j: usize = 0;
        while j < num_of_pps as usize
            invariant
                j <= num_of_pps,
                25 + sps_len <= pos <= n,
                n == self@.len(),
                self@.len() >= 24,
                self@[21] % 32 == 1,
                sps_len as int == spec_u16_be(self@.subrange(22, 24)),
                24 + sps_len + 1 <= n,
                num_of_pps == self@[24 + sps_len],
                acc.len() == pps_array@.len(),
                forall|k: int| 0 <= k < acc.len() ==> pps_array@[k]@ == acc[k],
                spec_parse_pps(self@, (25 + sps_len) as int, num_of_pps as nat) == (
                match spec_parse_pps(self@, pos as int, (num_of_pps - j) as nat) {
                    Some(rest) => Some(acc + rest),
                    None => None::<Seq<Seq<u8>>>,
                }),
            decreases num_of_pps - j,
        {
            if n - pos < 2 {
                return Err(FlvError::Truncated);
            }
            let pps_len = crate::endian::read_u16_be(self.raw(), pos) as usize;
            if n - pos - 2 < pps_len {
                return Err(FlvError::Truncated);
            }
            let mut pps: Vec<u8> = Vec::new();
            let mut i2: usize = 0;
            while i2 < pps_len
                invariant
                    i2 <= pps_len,
                    pos + 2 + pps_len <= n,
                    n == self@.len(),
                    pps@ =~= self@.subrange(pos + 2, pos + 2 + i2),
                decreases pps_len - i2,
            {
                pps.push(self.raw()[pos + 2 + i2]);
                proof {
                    assert(pps@ =~= self@.subrange(pos + 2, pos + 2 + i2 + 1));
                }
                i2 = i2 + 1;
            }
            pps_array.push(pps);
            proof {
                acc = acc + seq![pps@];
            }
            pos = pos + 2 + pps_len;
            j = j + 1;
        }
        Ok(
            AvcC {
                version,
                profile,
                compatibility,
                level,
                nalu_length_size_minus_1,
                num_of_sps,
                sps,
                pps_array,
            },
        )
    }

    /// The decoder-configuration bytes of a video sequence header: the
    /// payload after frame header, packet type, and composition offset.
    pub fn get_avcc_data(&self) -> (r: &[u8])
        requires
            self.wf(),
            spec_data_size(self@) >= 5,
        ensures
            r@ == self@.skip(16),
    {
        let len = self.raw().len();
        let r = vstd::slice::slice_subrange(self.raw().as_slice(), 16, len);
        proof {
            assert(self@.subrange(16, self@.len() as int) =~= self@.skip(16));
        }
        r
    }
}

} // verus!
