//! Byte-exact reader/writer for one container record and for the file header.
//!
//! A record ("tag") owns a byte buffer holding its encoded header and payload,
//! without the trailing 4-byte back-pointer, which is derivable. All fields
//! are views into this buffer; mutating a field rewrites bytes in place, so a
//! read after a write is always consistent.
use vstd::prelude::*;

use crate::endian::{
    lemma_u24_round_trip, push_u32_be, read_u24_be, spec_u24_be, spec_u24_bytes, spec_u32_bytes,
};
use crate::FlvError;

verus! {

/// Size of one record's fixed header.
pub const TAG_HEADER_BYTE_COUNT: u32 = 11;

/// Size of the back-pointer that trails every record in the stream.
pub const PREV_TAG_BYTE_COUNT: u32 = 4;

/// Size of the file header, without the back-pointer that follows it.
pub const MIN_FILE_HEADER_BYTE_COUNT: u32 = 9;

/// The three record types of the container.
#[allow(non_camel_case_types)]
#[derive(Debug, Clone, Copy, PartialEq, Eq, Structural)]
pub enum FLVTagType {
    TAG_TYPE_AUDIO,
    TAG_TYPE_VIDEO,
    TAG_TYPE_SCRIPTDATAOBJECT,
}

/// The type byte that stores each record type.
pub open spec fn spec_tag_type_byte(t: FLVTagType) -> u8 {
    match t {
        FLVTagType::TAG_TYPE_AUDIO => 8,
        FLVTagType::TAG_TYPE_VIDEO => 9,
        FLVTagType::TAG_TYPE_SCRIPTDATAOBJECT => 18,
    }
}

impl FLVTagType {
    /// Checked conversion from the stored type byte; any unrecognized value
    /// is a typed error, never a crash.
    pub fn from_byte(t: u8) -> (r: Result<FLVTagType, FlvError>)
        ensures
            t == 8 ==> r == Ok::<FLVTagType, FlvError>(FLVTagType::TAG_TYPE_AUDIO),
            t == 9 ==> r == Ok::<FLVTagType, FlvError>(FLVTagType::TAG_TYPE_VIDEO),
            t == 18 ==> r == Ok::<FLVTagType, FlvError>(FLVTagType::TAG_TYPE_SCRIPTDATAOBJECT),
            t != 8 && t != 9 && t != 18 ==> r == Err::<FLVTagType, FlvError>(
                FlvError::UnknownTagType,
            ),
    {
        if t == 8 {
            Ok(FLVTagType::TAG_TYPE_AUDIO)
        } else if t == 9 {
            Ok(FLVTagType::TAG_TYPE_VIDEO)
        } else if t == 18 {
            Ok(FLVTagType::TAG_TYPE_SCRIPTDATAOBJECT)
        } else {
            Err(FlvError::UnknownTagType)
        }
    }

    /// The stored type byte of this record type.
    pub fn to_byte(&self) -> (r: u8)
        ensures
            r == spec_tag_type_byte(*self),
    {
        match self {
            FLVTagType::TAG_TYPE_AUDIO => 8,
            FLVTagType::TAG_TYPE_VIDEO => 9,
            FLVTagType::TAG_TYPE_SCRIPTDATAOBJECT => 18,
        }
    }
}

/// The file header: two flags saying which streams are present.
#[allow(non_snake_case)]
#[derive(Debug, Clone, Copy, PartialEq, Eq, Structural)]
pub struct FLVHeader {
    pub hasAudioTags: bool,
    pub hasVideoTags: bool,
}

/// The 13 bytes that store the file header: magic, version, flags, header
/// size, and the zero back-pointer that precedes the first record.
pub open spec fn spec_header_bytes(h: FLVHeader) -> Seq<u8> {
    seq![
        70u8,
        76u8,
        86u8,
        1u8,
        ((if h.hasAudioTags {
            4u8
        } else {
            0u8
        }) + (if h.hasVideoTags {
            1u8
        } else {
            0u8
        })) as u8,
        0u8,
        0u8,
        0u8,
        9u8,
        0u8,
        0u8,
        0u8,
        0u8,
    ]
}

/// Whether `s` begins with a well-formed file header at position 0:
/// magic "FLV", version 1, declared header size 9. The flags byte and the
/// back-pointer are read but not constrained.
pub open spec fn spec_header_ok(s: Seq<u8>) -> bool {
    &&& s.len() >= 13
    &&& s[0] == 70
    &&& s[1] == 76
    &&& s[2] == 86
    &&& s[3] == 1
    &&& s[5] == 0
    &&& s[6] == 0
    &&& s[7] == 0
    &&& s[8] == 9
}

impl FLVHeader {
    /// Parse the file header from the first 13 bytes of `data`.
    pub fn read(data: &Vec<u8>) -> (r: Result<FLVHeader, FlvError>)
        ensures
            data@.len() < 13 ==> r == Err::<FLVHeader, FlvError>(FlvError::Truncated),
            data@.len() >= 13 && !spec_header_ok(data@) ==> r == Err::<FLVHeader, FlvError>(
                FlvError::BadFileHeader,
            ),
            spec_header_ok(data@) ==> r == Ok::<FLVHeader, FlvError>(
                FLVHeader {
                    hasAudioTags: data@[4] & 0x04 > 0,
                    hasVideoTags: data@[4] & 0x01 > 0,
                },
            ),
    {
        if data.len() < 13 {
            return Err(FlvError::Truncated);
        }
        if data[0] != 70 || data[1] != 76 || data[2] != 86 || data[3] != 1 {
            return Err(FlvError::BadFileHeader);
        }
        if data[5] != 0 || data[6] != 0 || data[7] != 0 || data[8] != 9 {
            return Err(FlvError::BadFileHeader);
        }
        let flags = data[4];
        Ok(FLVHeader { hasAudioTags: flags & 0x04 > 0, hasVideoTags: flags & 0x01 > 0 })
    }

    /// Append the 13 header bytes, flags built from the two booleans.
    pub fn write(&self, out: &mut Vec<u8>)
        ensures
            final(out)@ == old(out)@ + spec_header_bytes(*self),
    {
        out.push(70);
        out.push(76);
        out.push(86);
        out.push(1);
        let mut flags: u8 = 0;
        if self.hasAudioTags {
            flags = flags + 0x04;
        }
        if self.hasVideoTags {
            flags = flags + 0x01;
        }
        out.push(flags);
        out.push(0);
        out.push(0);
        out.push(0);
        out.push(9);
        out.push(0);
        out.push(0);
        out.push(0);
        out.push(0);
        proof {
            assert(final(out)@ =~= old(out)@ + spec_header_bytes(*self));
        }
    }
}

/// Writing a file header and parsing the bytes back yields the same flags.
pub proof fn lemma_header_round_trip(h: FLVHeader)
    ensures
        spec_header_ok(spec_header_bytes(h)),
        spec_header_bytes(h)[4] & 0x04 > 0 <==> h.hasAudioTags,
        spec_header_bytes(h)[4] & 0x01 > 0 <==> h.hasVideoTags,
{
    let f = spec_header_bytes(h)[4];
    assert(f == 0 || f == 1 || f == 4 || f == 5);
    assert(0u8 & 0x04 == 0 && 1u8 & 0x04 == 0 && 4u8 & 0x04 == 4 && 5u8 & 0x04 == 4)
        by (bit_vector);
    assert(0u8 & 0x01 == 0 && 1u8 & 0x01 == 1 && 4u8 & 0x01 == 0 && 5u8 & 0x01 == 1)
        by (bit_vector);
}

/// Declared payload size of the record whose bytes are `s`: a 3-byte
/// big-endian field right after the type byte.
pub open spec fn spec_data_size(s: Seq<u8>) -> int
    recommends
        s.len() >= 4,
{
    spec_u24_be(s.subrange(1, 4))
}

/// The record's 32-bit timestamp: 3 low-order bytes in header order plus one
/// extended high byte stored after them, out of natural order.
pub open spec fn spec_timestamp(s: Seq<u8>) -> int
    recommends
        s.len() >= 8,
{
    s[7] * 0x1000000 + s[4] * 0x10000 + s[5] * 0x100 + s[6]
}

/// Well-formedness of one record's owned buffer: the buffer holds exactly the
/// 11 header bytes plus the declared payload, and the type byte is one of the
/// three known record types.
pub open spec fn spec_wf_tag(s: Seq<u8>) -> bool {
    &&& s.len() == 11 + spec_data_size(s)
    &&& (s[0] == 8 || s[0] == 9 || s[0] == 18)
}

/// Result of parsing one record at `pos`: `Ok(None)` at clean end of stream,
/// the record's own bytes (without the back-pointer) on success, and a typed
/// error on truncation or an unknown type byte.
pub open spec fn spec_read_tag(s: Seq<u8>, pos: int) -> Result<Option<Seq<u8>>, FlvError>
    recommends
        0 <= pos <= s.len(),
{
    if pos == s.len() {
        Ok(None)
    } else if pos + 4 > s.len() {
        Err(FlvError::Truncated)
    } else {
        let ds = spec_u24_be(s.subrange(pos + 1, pos + 4));
        if pos + 15 + ds > s.len() {
            Err(FlvError::Truncated)
        } else if s[pos] != 8 && s[pos] != 9 && s[pos] != 18 {
            Err(FlvError::UnknownTagType)
        } else {
            Ok(Some(s.subrange(pos, pos + 11 + ds)))
        }
    }
}

/// One container record, owning its encoded bytes.
#[derive(Debug, Clone)]
pub struct FLVTag {
    data: Vec<u8>,
}

impl View for FLVTag {
    type V = Seq<u8>;

    closed spec fn view(&self) -> Seq<u8> {
        self.data@
    }
}

impl FLVTag {
    /// The buffer is well formed; established by every constructor and kept
    /// by every mutator.
    pub open spec fn wf(&self) -> bool {
        spec_wf_tag(self@)
    }

    /// Take ownership of an already well-formed record buffer.
    pub fn from_bytes(data: Vec<u8>) -> (r: FLVTag)
        requires
            spec_wf_tag(data@),
        ensures
            r@ == data@,
            r.wf(),
    {
        FLVTag { data }
    }

    /// Replace the owned record buffer; used by the metadata editor, which
    /// re-establishes well-formedness by rewriting the size field.
    pub(crate) fn set_raw(&mut self, data: Vec<u8>)
        ensures
            final(self)@ == data@,
    {
        self.data = data;
    }

    /// The owned record buffer, for the field accessors of the media models.
    pub(crate) fn raw(&self) -> (r: &Vec<u8>)
        ensures
            r@ == self@,
    {
        &self.data
    }

    /// The record's type, decoded from the type byte.
    pub fn get_tag_type(&self) -> (r: FLVTagType)
        requires
            self.wf(),
        ensures
            spec_tag_type_byte(r) == self@[0],
    {
        match FLVTagType::from_byte(self.data[0]) {
            Ok(t) => t,
            Err(_) => FLVTagType::TAG_TYPE_SCRIPTDATAOBJECT,
        }
    }

    /// Declared payload size.
    pub fn get_data_size(&self) -> (r: u32)
        requires
            self.wf(),
        ensures
            r == spec_data_size(self@),
            11 + r == self@.len(),
    {
        let r = read_u24_be(&self.data, 1);
        proof {
            assert(self@.subrange(1, 4) =~= self@.subrange(1, 1 + 3int));
        }
        r
    }

    /// Total record size: fixed header plus payload, without the back-pointer.
    pub fn get_tag_size(&self) -> (r: u32)
        requires
            self.wf(),
        ensures
            r == 11 + spec_data_size(self@),
            r == self@.len(),
    {
        TAG_HEADER_BYTE_COUNT + self.get_data_size()
    }

    /// Rewrite the payload-size field in place. The buffer length is not
    /// changed, so the buffer is well formed again only when `value` matches
    /// the actual payload length.
    pub fn set_data_size(&mut self, value: u32)
        requires
            old(self)@.len() >= 11,
            value < 0x1000000,
        ensures
            final(self)@ =~= old(self)@.update(1, spec_u24_bytes(value as int)[0]).update(
                2,
                spec_u24_bytes(value as int)[1],
            ).update(3, spec_u24_bytes(value as int)[2]),
            spec_data_size(final(self)@) == value,
    {
        self.data.set(1, (value / 0x10000) as u8);
        self.data.set(2, ((value / 0x100) % 0x100) as u8);
        self.data.set(3, (value % 0x100) as u8);
        proof {
            assert(final(self)@.subrange(1, 4) =~= spec_u24_bytes(value as int));
            lemma_u24_round_trip(value as int);
        }
    }

    /// The 32-bit timestamp, rebuilt from its non-contiguous byte layout.
    pub fn get_timestamp(&self) -> (r: u64)
        requires
            self.wf(),
        ensures
            r == spec_timestamp(self@),
            r < 0x100000000,
    {
        (self.data[7] as u64) * 0x1000000 + (self.data[4] as u64) * 0x10000 + (self.data[5]
            as u64) * 0x100 + (self.data[6] as u64)
    }

    /// Rewrite the timestamp bytes in place, reproducing the non-contiguous
    /// layout exactly. Only the four timestamp bytes change, so the buffer
    /// length (and hence the serialized size) is preserved.
    pub fn set_timestamp(&mut self, value: u64)
        requires
            old(self).wf(),
            value < 0x100000000,
        ensures
            final(self).wf(),
            final(self)@.len() == old(self)@.len(),
            spec_timestamp(final(self)@) == value,
            final(self)@[7] == ((value as int / 0x1000000) % 0x100) as u8,
            final(self)@[4] == ((value as int / 0x10000) % 0x100) as u8,
            final(self)@[5] == ((value as int / 0x100) % 0x100) as u8,
            final(self)@[6] == (value as int % 0x100) as u8,
            forall|i: int|
                0 <= i < old(self)@.len() && i != 4 && i != 5 && i != 6 && i != 7
                    ==> final(self)@[i] == old(self)@[i],
    {
        self.data.set(7, (value / 0x1000000) as u8);
        self.data.set(4, ((value / 0x10000) % 0x100) as u8);
        self.data.set(5, ((value / 0x100) % 0x100) as u8);
        self.data.set(6, (value % 0x100) as u8);
        proof {
            assert(final(self)@.subrange(1, 4) =~= old(self)@.subrange(1, 4));
            let w = value as u32;
            assert((w / 0x1000000) * 0x1000000 + ((w / 0x10000) % 0x100) * 0x10000 + ((w / 0x100)
                % 0x100) * 0x100 + (w % 0x100) == w) by (bit_vector);
        }
    }

    /// Parse one record from `data` at `pos`. Returns `Ok(None)` only at the
    /// clean end of the stream; any mid-record truncation is a fatal error.
    pub fn read(data: &Vec<u8>, pos: usize) -> (r: Result<Option<FLVTag>, FlvError>)
        requires
            pos <= data@.len(),
        ensures
            match spec_read_tag(data@, pos as int) {
                Ok(Some(b)) => match r {
                    Ok(Some(tag)) => tag@ == b && tag.wf(),
                    _ => false,
                },
                Ok(None) => r == Ok::<Option<FLVTag>, FlvError>(None),
                Err(e) => r == Err::<Option<FLVTag>, FlvError>(e),
            },
    {
        if pos == data.len() {
            return Ok(None);
        }
        if data.len() - pos < 4 {
            return Err(FlvError::Truncated);
        }
        let ds = read_u24_be(data, pos + 1);
        proof {
            assert(data@.subrange(pos + 1, pos + 1 + 3) =~= data@.subrange(pos + 1, pos + 4));
        }
        if data.len() - pos < 15 || ((data.len() - pos) as u64) - 15 < ds as u64 {
            return Err(FlvError::Truncated);
        }
        let tb = data[pos];
        if tb != 8 && tb != 9 && tb != 18 {
            return Err(FlvError::UnknownTagType);
        }
        let total: usize = 11 + ds as usize;
        let dlen: usize = data.len();
        let mut buf: Vec<u8> = Vec::new();
        let mut i: usize = 0;
        while i < total
            invariant
                i <= total,
                pos + total <= dlen,
                dlen == data@.len(),
                buf@ =~= data@.subrange(pos as int, pos + i),
            decreases total - i,
        {
            buf.push(data[pos + i]);
            proof {
                assert(buf@ =~= data@.subrange(pos as int, pos + i + 1));
            }
            i = i + 1;
        }
        let tag = FLVTag { data: buf };
        proof {
            assert(tag@.subrange(1, 4) =~= data@.subrange(pos + 1, pos + 4));
        }
        Ok(Some(tag))
    }

    /// Append the record's bytes followed by the recomputed 4-byte big-endian
    /// back-pointer.
    pub fn write(&self, out: &mut Vec<u8>)
        requires
            self.wf(),
        ensures
            final(out)@ == old(out)@ + self@ + spec_u32_bytes(self@.len() as int),
    {
        let n = self.data.len();
        let mut i: usize = 0;
        while i < n
            invariant
                i <= n,
                n == self@.len(),
                self.wf(),
                out@ =~= old(out)@ + self@.subrange(0, i as int),
            decreases n - i,
        {
            out.push(self.data[i]);
            proof {
                assert(out@ =~= old(out)@ + self@.subrange(0, i + 1));
            }
            i = i + 1;
        }
        proof {
            assert(self@.subrange(0, n as int) =~= self@);
        }
        let size = self.get_tag_size();
        push_u32_be(out, size);
    }
}

/// Forward scanner over a record stream held in memory: parses the file
/// header once, then yields one record at a time, tracking the byte position
/// of the next record.
pub struct FLVTagRead {
    pub header: FLVHeader,
    position: usize,
    finished: bool,
}

impl FLVTagRead {
    /// Byte position of the next unread record.
    pub closed spec fn spec_position(&self) -> int {
        self.position as int
    }

    /// Whether the scanner has seen the clean end of the stream.
    pub closed spec fn spec_finished(&self) -> bool {
        self.finished
    }

    /// The file header parsed when the scan began.
    pub closed spec fn spec_header(&self) -> FLVHeader {
        self.header
    }

    /// Start a scan: parse the file header and stand at the first record.
    pub fn new(data: &Vec<u8>) -> (r: Result<FLVTagRead, FlvError>)
        ensures
            match FLVHeader::read_spec(data@) {
                Ok(h) => match r {
                    Ok(p) => p.spec_header() == h && p.spec_position() == 13 && !p.spec_finished(),
                    Err(_) => false,
                },
                Err(e) => r == Err::<FLVTagRead, FlvError>(e),
            },
    {
        let header = FLVHeader::read(data)?;
        Ok(FLVTagRead { header, position: 13, finished: false })
    }

    /// Byte position of the next unread record.
    pub fn get_position(&self) -> (r: usize)
        ensures
            r == self.spec_position(),
    {
        self.position
    }

    /// The file header parsed when the scan began.
    pub fn get_header(&self) -> (r: FLVHeader)
        ensures
            r == self.spec_header(),
    {
        self.header
    }

    /// Parse the next record and advance past it and its back-pointer.
    /// After a clean end of stream every further call returns `Ok(None)`.
    pub fn next(&mut self, data: &Vec<u8>) -> (r: Result<Option<FLVTag>, FlvError>)
        requires
            old(self).spec_position() <= data@.len(),
        ensures
            old(self).spec_finished() ==> r == Ok::<Option<FLVTag>, FlvError>(None)
                && *final(self) == *old(self),
            !old(self).spec_finished() ==> match spec_read_tag(data@, old(self).spec_position()) {
                Ok(Some(b)) => match r {
                    Ok(Some(tag)) => tag@ == b && tag.wf()
                        && final(self).spec_position() == old(self).spec_position() + b.len() + 4
                        && !final(self).spec_finished()
                        && final(self).spec_header() == old(self).spec_header(),
                    _ => false,
                },
                Ok(None) => r == Ok::<Option<FLVTag>, FlvError>(None)
                    && final(self).spec_finished()
                    && final(self).spec_position() == old(self).spec_position()
                    && final(self).spec_header() == old(self).spec_header(),
                Err(e) => r == Err::<Option<FLVTag>, FlvError>(e)
                    && final(self).spec_finished()
                    && final(self).spec_position() == old(self).spec_position()
                    && final(self).spec_header() == old(self).spec_header(),
            },
    {
        if self.finished {
            return Ok(None);
        }
        let dlen: usize = data.len();
        match FLVTag::read(data, self.position) {
            Ok(Some(tag)) => {
                let sz = tag.get_tag_size();
                proof {
                    assert(self.position + sz + 4 <= dlen);
                }
                self.position = self.position + sz as usize + 4;
                Ok(Some(tag))
            },
            Ok(None) => {
                self.finished = true;
                Ok(None)
            },
            Err(e) => {
                self.finished = true;
                Err(e)
            },
        }
    }
}

impl FLVHeader {
    /// What `read` returns on `data`, as a spec-level function.
    pub open spec fn read_spec(s: Seq<u8>) -> Result<FLVHeader, FlvError> {
        if s.len() < 13 {
            Err(FlvError::Truncated)
        } else if !spec_header_ok(s) {
            Err(FlvError::BadFileHeader)
        } else {
            Ok(FLVHeader { hasAudioTags: s[4] & 0x04 > 0, hasVideoTags: s[4] & 0x01 > 0 })
        }
    }
}

/// Sequential writer of a record stream into an owned byte buffer, with the
/// one controlled rewrite that the two-phase metadata patch needs.
pub struct FLVTagWrite {
    stream: Vec<u8>,
}

impl View for FLVTagWrite {
    type V = Seq<u8>;

    closed spec fn view(&self) -> Seq<u8> {
        self.stream@
    }
}

impl FLVTagWrite {
    /// An empty output stream.
    pub fn new() -> (r: FLVTagWrite)
        ensures
            r@ == Seq::<u8>::empty(),
    {
        FLVTagWrite { stream: Vec::new() }
    }

    /// Append the 13 file-header bytes.
    pub fn write_header(&mut self, header: &FLVHeader)
        ensures
            final(self)@ == old(self)@ + spec_header_bytes(*header),
    {
        header.write(&mut self.stream);
    }

    /// Append one record and its back-pointer.
    pub fn write_tag(&mut self, tag: &FLVTag)
        requires
            tag.wf(),
        ensures
            final(self)@ == old(self)@ + tag@ + spec_u32_bytes(tag@.len() as int),
    {
        tag.write(&mut self.stream);
    }

    /// Write the metadata record at its fixed position right after the file
    /// header, overwriting whatever stands there, then stand at the end of
    /// the stream again. When the record reaches past the current end the
    /// stream grows; otherwise its length is unchanged.
    pub fn write_meta_tag(&mut self, tag: &FLVTag)
        requires
            tag.wf(),
            old(self)@.len() >= 13,
        ensures
            ({
                let env = tag@ + spec_u32_bytes(tag@.len() as int);
                if 13 + env.len() <= old(self)@.len() {
                    final(self)@ == old(self)@.subrange(0, 13) + env + old(self)@.skip(
                        13 + env.len() as int,
                    )
                } else {
                    final(self)@ == old(self)@.subrange(0, 13) + env
                }
            }),
    {
        let mut env: Vec<u8> = Vec::new();
        tag.write(&mut env);
        let n = env.len();
        let ghost envs = env@;
        proof {
            assert(spec_data_size(tag@) <= 0xFFFFFF);
            assert(n <= 11 + 0xFFFFFF + 4);
        }
        let mut i: usize = 0;
        while i < n
            invariant
                i <= n,
                n <= 0x1000010,
                n == envs.len(),
                env@ == envs,
                self@.len() >= 13 + i,
                old(self)@.len() >= 13,
                13 + i <= old(self)@.len() ==> self@ =~= old(self)@.subrange(0, 13)
                    + envs.subrange(0, i as int) + old(self)@.skip(13 + i),
                13 + i > old(self)@.len() ==> self@ =~= old(self)@.subrange(0, 13)
                    + envs.subrange(0, i as int),
            decreases n - i,
        {
            if 13 + i < self.stream.len() {
                self.stream.set(13 + i, env[i]);
            } else {
                self.stream.push(env[i]);
            }
            proof {
                if 13 + i + 1 <= old(self)@.len() {
                    assert(self@ =~= old(self)@.subrange(0, 13) + envs.subrange(0, i + 1) + old(
                        self,
                    )@.skip(13 + i + 1));
                } else {
                    assert(self@ =~= old(self)@.subrange(0, 13) + envs.subrange(0, i + 1));
                }
            }
            i = i + 1;
        }
        proof {
            assert(envs.subrange(0, envs.len() as int) =~= envs);
        }
    }

    /// Byte position of the end of the stream, where the next record goes.
    pub fn get_position(&self) -> (r: usize)
        ensures
            r == self@.len(),
    {
        self.stream.len()
    }

    /// Hand out the finished stream.
    pub fn into_bytes(self) -> (r: Vec<u8>)
        ensures
            r@ == self@,
    {
        self.stream
    }
}

/// Round trip of the record codec: a well-formed record's serialized bytes,
/// placed after any prefix and before any suffix, parse back to exactly the
/// record's own bytes.
pub proof fn lemma_tag_round_trip(prefix: Seq<u8>, t: Seq<u8>, rest: Seq<u8>)
    requires
        spec_wf_tag(t),
    ensures
        spec_read_tag(prefix + t + spec_u32_bytes(t.len() as int) + rest, prefix.len() as int)
            == Ok::<Option<Seq<u8>>, FlvError>(Some(t)),
{
    let s = prefix + t + spec_u32_bytes(t.len() as int) + rest;
    let pos = prefix.len() as int;
    assert(s.len() == prefix.len() + t.len() + 4 + rest.len());
    assert(forall|i: int| 0 <= i < t.len() ==> s[pos + i] == t[i]);
    assert(s.subrange(pos + 1, pos + 4) =~= t.subrange(1, 4));
    let ds = spec_u24_be(s.subrange(pos + 1, pos + 4));
    assert(ds == spec_data_size(t));
    assert(pos + 15 + ds <= s.len());
    assert(s[pos] == t[0]);
    assert(s.subrange(pos, pos + 11 + ds) =~= t);
}

} // verus!
