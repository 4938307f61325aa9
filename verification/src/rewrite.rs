//! Container rewriter: re-reads original record bytes by stored offset,
//! applies each record's time shift, writes the planned stream behind a
//! placeholder metadata record, and patches that record in place once the
//! final keyframe positions are known.
use vstd::prelude::*;

use crate::amf0::{
    is_valid_value, obj_find, obj_insert, spec_dec_value, spec_obj_insert, spec_obj_lookup,
    spec_ser_value, spec_valid_value, Amf0Val, Amf0Value,
};
use crate::endian::{spec_u24_bytes, spec_u32_bytes};
use crate::fbits::{f64_bits_of_ratio, spec_f64_bits};
use crate::num::{sat_add, sat_add_i64};
use crate::profile::{spec_mute_tag_bytes, TagProfile, MAX_ID};
use crate::tag::{
    spec_read_tag, spec_wf_tag, FLVHeader, FLVTag, FLVTagType, FLVTagWrite,
};
use crate::FlvError;

verus! {


/// The bytes of the metadata key or marker text.
pub open spec fn spec_key_duration() -> Seq<u8> {
    seq![100u8, 117u8, 114u8, 97u8, 116u8, 105u8, 111u8, 110u8]
}

fn key_duration() -> (v: Vec<u8>)
    ensures
        v@ == spec_key_duration(),
{
    let mut v: Vec<u8> = Vec::new();
    v.push(100);
    v.push(117);
    v.push(114);
    v.push(97);
    v.push(116);
    v.push(105);
    v.push(111);
    v.push(110);
    proof {
        assert(v@ =~= spec_key_duration());
    }
    v
}


/// The bytes of the metadata key or marker text.
pub open spec fn spec_key_gapfixedby() -> Seq<u8> {
    seq![103u8, 97u8, 112u8, 102u8, 105u8, 120u8, 101u8, 100u8, 98u8, 121u8]
}

fn key_gapfixedby() -> (v: Vec<u8>)
    ensures
        v@ == spec_key_gapfixedby(),
{
    let mut v: Vec<u8> = Vec::new();
    v.push(103);
    v.push(97);
    v.push(112);
    v.push(102);
    v.push(105);
    v.push(120);
    v.push(101);
    v.push(100);
    v.push(98);
    v.push(121);
    proof {
        assert(v@ =~= spec_key_gapfixedby());
    }
    v
}


/// The bytes of the metadata key or marker text.
pub open spec fn spec_key_keyframes() -> Seq<u8> {
    seq![107u8, 101u8, 121u8, 102u8, 114u8, 97u8, 109u8, 101u8, 115u8]
}

fn key_keyframes() -> (v: Vec<u8>)
    ensures
        v@ == spec_key_keyframes(),
{
    let mut v: Vec<u8> = Vec::new();
    v.push(107);
    v.push(101);
    v.push(121);
    v.push(102);
    v.push(114);
    v.push(97);
    v.push(109);
    v.push(101);
    v.push(115);
    proof {
        assert(v@ =~= spec_key_keyframes());
    }
    v
}


/// The bytes of the metadata key or marker text.
pub open spec fn spec_key_times() -> Seq<u8> {
    seq![116u8, 105u8, 109u8, 101u8, 115u8]
}

fn key_times() -> (v: Vec<u8>)
    ensures
        v@ == spec_key_times(),
{
    let mut v: Vec<u8> = Vec::new();
    v.push(116);
    v.push(105);
    v.push(109);
    v.push(101);
    v.push(115);
    proof {
        assert(v@ =~= spec_key_times());
    }
    v
}


/// The bytes of the metadata key or marker text.
pub open spec fn spec_key_filepositions() -> Seq<u8> {
    seq![102u8, 105u8, 108u8, 101u8, 112u8, 111u8, 115u8, 105u8, 116u8, 105u8, 111u8, 110u8, 115u8]
}

fn key_filepositions() -> (v: Vec<u8>)
    ensures
        v@ == spec_key_filepositions(),
{
    let mut v: Vec<u8> = Vec::new();
    v.push(102);
    v.push(105);
    v.push(108);
    v.push(101);
    v.push(112);
    v.push(111);
    v.push(115);
    v.push(105);
    v.push(116);
    v.push(105);
    v.push(111);
    v.push(110);
    v.push(115);
    proof {
        assert(v@ =~= spec_key_filepositions());
    }
    v
}


/// The bytes of the metadata key or marker text.
pub open spec fn spec_key_sign() -> Seq<u8> {
    seq![103u8, 97u8, 112u8, 32u8, 102u8, 105u8, 120u8, 101u8, 100u8, 32u8, 98u8, 121u8, 32u8, 102u8, 108u8, 118u8, 95u8, 116u8, 111u8, 111u8, 108u8, 98u8, 111u8, 120u8]
}

fn key_sign() -> (v: Vec<u8>)
    ensures
        v@ == spec_key_sign(),
{
    let mut v: Vec<u8> = Vec::new();
    v.push(103);
    v.push(97);
    v.push(112);
    v.push(32);
    v.push(102);
    v.push(105);
    v.push(120);
    v.push(101);
    v.push(100);
    v.push(32);
    v.push(98);
    v.push(121);
    v.push(32);
    v.push(102);
    v.push(108);
    v.push(118);
    v.push(95);
    v.push(116);
    v.push(111);
    v.push(111);
    v.push(108);
    v.push(98);
    v.push(111);
    v.push(120);
    proof {
        assert(v@ =~= spec_key_sign());
    }
    v
}

/// Number of audio sequence headers among the descriptors from `i`.
pub open spec fn spec_count_a_sh(s: Seq<TagProfile>, i: int) -> int
    decreases s.len() - i,
{
    if i < 0 || i >= s.len() {
        0
    } else {
        (if s[i].tag_type == FLVTagType::TAG_TYPE_AUDIO && s[i].sequence_header {
            1int
        } else {
            0int
        }) + spec_count_a_sh(s, i + 1)
    }
}

/// Number of video sequence headers among the descriptors from `i`.
pub open spec fn spec_count_v_sh(s: Seq<TagProfile>, i: int) -> int
    decreases s.len() - i,
{
    if i < 0 || i >= s.len() {
        0
    } else {
        (if s[i].tag_type == FLVTagType::TAG_TYPE_VIDEO && s[i].sequence_header {
            1int
        } else {
            0int
        }) + spec_count_v_sh(s, i + 1)
    }
}

/// Number of metadata records among the descriptors from `i`.
pub open spec fn spec_count_meta(s: Seq<TagProfile>, i: int) -> int
    decreases s.len() - i,
{
    if i < 0 || i >= s.len() {
        0
    } else {
        (if s[i].tag_type == FLVTagType::TAG_TYPE_SCRIPTDATAOBJECT {
            1int
        } else {
            0int
        }) + spec_count_meta(s, i + 1)
    }
}

/// The keyframe timestamps of the plan, in milliseconds, in order.
pub open spec fn spec_kf_times(s: Seq<TagProfile>, i: int) -> Seq<u64>
    decreases s.len() - i,
{
    if i < 0 || i >= s.len() {
        Seq::empty()
    } else if s[i].tag_type == FLVTagType::TAG_TYPE_VIDEO && s[i].keyframe {
        seq![((s[i].timestamp_us as u64) / 1000) as u64] + spec_kf_times(s, i + 1)
    } else {
        spec_kf_times(s, i + 1)
    }
}

/// The first metadata descriptor of the plan.
pub open spec fn spec_find_meta(s: Seq<TagProfile>, i: int) -> Option<TagProfile>
    decreases s.len() - i,
{
    if i < 0 || i >= s.len() {
        None
    } else if s[i].tag_type == FLVTagType::TAG_TYPE_SCRIPTDATAOBJECT {
        Some(s[i])
    } else {
        spec_find_meta(s, i + 1)
    }
}

/// The last audio descriptor of the plan, searching down from `i`.
pub open spec fn spec_last_audio(s: Seq<TagProfile>, i: int) -> Option<TagProfile>
    decreases i + 1,
{
    if i < 0 || i >= s.len() {
        None
    } else if s[i].tag_type == FLVTagType::TAG_TYPE_AUDIO {
        Some(s[i])
    } else {
        spec_last_audio(s, i - 1)
    }
}

/// A record's bytes with the timestamp field rewritten to `v`, in the
/// non-contiguous layout.
pub open spec fn spec_set_ts(b: Seq<u8>, v: int) -> Seq<u8> {
    b.update(7, ((v / 0x1000000) % 0x100) as u8).update(4, ((v / 0x10000) % 0x100) as u8).update(
        5,
        ((v / 0x100) % 0x100) as u8,
    ).update(6, (v % 0x100) as u8)
}

/// The array of numbers that a metadata list stores: each value divided by
/// `den`, encoded as float bits.
pub open spec fn spec_num_array(vals: Seq<u64>, den: int) -> Amf0Val {
    Amf0Val::Array(
        Seq::new(vals.len(), |i: int| Amf0Val::Number(spec_f64_bits(vals[i] as int, den) as u64)),
    )
}

/// The metadata information record after the repair's update: the duration
/// and the tool marker always land in it; the keyframe index is replaced
/// only when a well-formed one was present, otherwise the rest of the record
/// is kept and the index left alone.
pub open spec fn spec_update_meta(
    m1: Amf0Val,
    dur_bits: u64,
    times: Seq<u64>,
    positions: Seq<u64>,
) -> Amf0Val {
    match m1 {
        Amf0Val::Object(es) => {
            let es1 = spec_obj_insert(es, spec_key_duration(), Amf0Val::Number(dur_bits));
            let es2 = spec_obj_insert(es1, spec_key_gapfixedby(), Amf0Val::Str(spec_key_sign()));
            match spec_obj_lookup(es2, spec_key_keyframes()) {
                Some(kv) => match kv {
                    Amf0Val::Object(ke) => {
                        let ke1 = spec_obj_insert(ke, spec_key_times(), spec_num_array(times, 1000));
                        let ke2 = spec_obj_insert(
                            ke1,
                            spec_key_filepositions(),
                            spec_num_array(positions, 1),
                        );
                        Amf0Val::Object(
                            spec_obj_insert(es2, spec_key_keyframes(), Amf0Val::Object(ke2)),
                        )
                    },
                    _ => Amf0Val::Object(es2),
                },
                None => Amf0Val::Object(es2),
            }
        },
        _ => m1,
    }
}

/// One two-phase metadata write: decode the record's two values, update the
/// information record, re-encode in place, and splice the record over its
/// fixed position in the output stream.
#[verifier::opaque]
pub open spec fn spec_write_back(
    mb: Seq<u8>,
    duration_ms: u64,
    times: Seq<u64>,
    positions: Seq<u64>,
    w: Seq<u8>,
) -> Result<(Seq<u8>, Seq<u8>), FlvError> {
    match spec_dec_value(mb.skip(11)) {
        Err(e) => Err(e),
        Ok((m0, n0)) => match spec_dec_value(mb.skip(11 + n0)) {
            Err(e) => Err(e),
            Ok((m1, _n1)) => {
                let dur_bits = spec_f64_bits(duration_ms as int, 1000) as u64;
                let m1p = spec_update_meta(m1, dur_bits, times, positions);
                if !spec_valid_value(m0) || !spec_valid_value(m1p) {
                    Err(FlvError::BadPlan)
                } else {
                    let ser0 = spec_ser_value(m0);
                    let ser1 = spec_ser_value(m1p);
                    if ser0.len() + ser1.len() > 0xFFFFFF {
                        Err(FlvError::BadPlan)
                    } else {
                        let nb = mb.subrange(0, 1) + spec_u24_bytes(
                            ser0.len() + ser1.len() as int,
                        ) + mb.subrange(4, 11) + ser0 + ser1;
                        let env = nb + spec_u32_bytes(nb.len() as int);
                        let nw = if 13 + env.len() <= w.len() {
                            w.subrange(0, 13) + env + w.skip(13 + env.len() as int)
                        } else {
                            w.subrange(0, 13) + env
                        };
                        Ok((nb, nw))
                    }
                }
            },
        },
    }
}

/// Stream the planned records from index `i`: every record except metadata
/// is re-read (or synthesized), re-timestamped by its shift, and appended
/// with its back-pointer; the output offset of every video keyframe is
/// recorded in order.
pub open spec fn spec_stream(
    s: Seq<u8>,
    info: Seq<TagProfile>,
    i: int,
    w: Seq<u8>,
    positions: Seq<u64>,
    fi: int,
) -> Result<(Seq<u8>, Seq<u64>), FlvError>
    decreases info.len() - i,
{
    if i < 0 || i >= info.len() {
        Ok((w, positions))
    } else {
        let p = info[i];
        if p.tag_type == FLVTagType::TAG_TYPE_SCRIPTDATAOBJECT {
            spec_stream(s, info, i + 1, w, positions, fi)
        } else {
            let kf = p.tag_type == FLVTagType::TAG_TYPE_VIDEO && p.keyframe;
            if kf && (fi >= positions.len() || w.len() >= 0x4000000000000000) {
                Err(FlvError::BadPlan)
            } else {
                let positions2 = if kf {
                    positions.update(fi, w.len() as u64)
                } else {
                    positions
                };
                let fi2 = if kf {
                    fi + 1
                } else {
                    fi
                };
                if p.id == MAX_ID {
                    if !(0 <= p.timestamp_us && p.timestamp_us / 1000 < 0x100000000 && 1
                        <= p.position <= 2) {
                        Err(FlvError::BadPlan)
                    } else {
                        let tb = spec_mute_tag_bytes(p.timestamp_us, p.position as u8);
                        let ts = ((sat_add(p.timestamp_us as int, p.offset_us as int) as i64
                            as u64) as int / 1000) % 0x100000000;
                        let nb = spec_set_ts(tb, ts);
                        spec_stream(
                            s,
                            info,
                            i + 1,
                            w + nb + spec_u32_bytes(nb.len() as int),
                            positions2,
                            fi2,
                        )
                    }
                } else {
                    if p.position > s.len() {
                        Err(FlvError::Truncated)
                    } else {
                        match spec_read_tag(s, p.position as int) {
                            Ok(Some(tb)) => {
                                let ts = ((sat_add(p.timestamp_us as int, p.offset_us as int)
                                    as i64 as u64) as int / 1000) % 0x100000000;
                                let nb = spec_set_ts(tb, ts);
                                spec_stream(
                                    s,
                                    info,
                                    i + 1,
                                    w + nb + spec_u32_bytes(nb.len() as int),
                                    positions2,
                                    fi2,
                                )
                            },
                            _ => Err(FlvError::Truncated),
                        }
                    }
                }
            }
        }
    }
}

/// The whole rewrite: guard the plan, write the header and a placeholder
/// metadata record, stream every planned record while collecting keyframe
/// positions, then patch the metadata record in place with the final
/// duration and index.
pub open spec fn spec_fix_meta(
    s: Seq<u8>,
    info: Seq<TagProfile>,
    mp: TagProfile,
    w0: Seq<u8>,
    times: Seq<u64>,
    positions0: Seq<u64>,
    duration: u64,
) -> Result<Seq<u8>, FlvError> {
    if mp.id == MAX_ID || mp.position > s.len() {
        Err(FlvError::BadPlan)
    } else {
        match spec_read_tag(s, mp.position as int) {
            Ok(Some(mb0)) => {
                if mb0[0] != 18 {
                    Err(FlvError::BadPlan)
                } else {
                    match spec_write_back(mb0, duration, times, positions0, w0) {
                        Err(e) => Err(e),
                        Ok((mb1, w1)) => match spec_stream(s, info, 0, w1, positions0, 0) {
                            Err(e) => Err(e),
                            Ok((w2, positions2)) => match spec_write_back(
                                mb1,
                                duration,
                                times,
                                positions2,
                                w2,
                            ) {
                                Err(e) => Err(e),
                                Ok((_mb2, w3)) => Ok(w3),
                            },
                        },
                    }
                }
            },
            _ => Err(FlvError::Truncated),
        }
    }
}

/// The rewrite after the plan guards: header, keyframe index, duration, the
/// stream, and the two-phase metadata patch when a metadata record exists.
pub open spec fn spec_fix_tail(s: Seq<u8>, info: Seq<TagProfile>) -> Result<Seq<u8>, FlvError> {
    match FLVHeader::read_spec(s) {
        Err(e) => Err(e),
        Ok(h) => {
            let w0 = crate::tag::spec_header_bytes(h);
            let times = spec_kf_times(info, 0);
            if times.len() > 0xFFFFFFFF {
                Err(FlvError::BadPlan)
            } else {
                match spec_last_audio(info, info.len() - 1) {
                    None => Err(FlvError::NoAudioTags),
                    Some(la) => {
                        let duration = ((sat_add(
                            la.timestamp_us as int,
                            la.decode_duration_us as int,
                        ) as i64 as u64) as int / 1000) as u64;
                        let positions0 = Seq::new(times.len(), |k: int| 0u64);
                        match spec_find_meta(info, 0) {
                            None => match spec_stream(s, info, 0, w0, positions0, 0) {
                                Ok((w1, _)) => Ok(w1),
                                Err(e) => Err(e),
                            },
                            Some(mp) => spec_fix_meta(
                                s,
                                info,
                                mp,
                                w0,
                                times,
                                positions0,
                                duration,
                            ),
                        }
                    },
                }
            }
        },
    }
}

/// The whole rewrite: guard the plan, write the header and a placeholder
/// metadata record, stream every planned record while collecting keyframe
/// positions, then patch the metadata record in place with the final
/// duration and index.
pub open spec fn spec_fix_file(s: Seq<u8>, info: Seq<TagProfile>) -> Result<Seq<u8>, FlvError> {
    if spec_count_a_sh(info, 0) != 1 {
        Err(FlvError::BadAudioSequenceHeaderCount)
    } else if spec_count_v_sh(info, 0) != 1 {
        Err(FlvError::BadVideoSequenceHeaderCount)
    } else if spec_count_meta(info, 0) > 1 {
        Err(FlvError::BadMetadataCount)
    } else {
        spec_fix_tail(s, info)
    }
}

/// Build the array-of-numbers value a metadata list stores.
fn build_num_array(vals: &Vec<u64>, den: u64) -> (r: Amf0Value)
    requires
        1 <= den <= 1000,
        forall|k: int| 0 <= k < vals@.len() ==> vals@[k] < 0x4000000000000000,
    ensures
        r@ == spec_num_array(vals@, den as int),
{
    let n = vals.len();
    let mut items: Vec<Amf0Value> = Vec::new();
    let mut i: usize = 0;
    while i < n
        invariant
            i <= n,
            n == vals@.len(),
            1 <= den <= 1000,
            forall|k: int| 0 <= k < n ==> vals@[k] < 0x4000000000000000,
            crate::amf0::spec_view_items(items@) =~= Seq::new(
                i as nat,
                |k: int| Amf0Val::Number(spec_f64_bits(vals@[k] as int, den as int) as u64),
            ),
        decreases n - i,
    {
        let bits = f64_bits_of_ratio(vals[i], den);
        let ghost oldi = items@;
        items.push(Amf0Value::Number(bits));
        proof {
            assert(items@ =~= oldi.push(items@[oldi.len() as int]));
            crate::amf0::lemma_view_items_push(oldi, items@[oldi.len() as int]);
            assert(crate::amf0::spec_view_items(items@) =~= Seq::new(
                (i + 1) as nat,
                |k: int| Amf0Val::Number(spec_f64_bits(vals@[k] as int, den as int) as u64),
            ));
        }
        i = i + 1;
    }
    proof {
        assert(crate::amf0::spec_view_items(items@) =~= Seq::new(
            vals@.len(),
            |k: int| Amf0Val::Number(spec_f64_bits(vals@[k] as int, den as int) as u64),
        ));
    }
    Amf0Value::Array(items)
}

/// Rewrite the metadata record from the given duration and keyframe index
/// and splice it over its fixed position in the output stream; on a record
/// whose information part cannot hold the index, the rest of the record is
/// still written back.
pub fn write_back_meta_tag(
    duration: u64,
    metatag: &mut FLVTag,
    times: &Vec<u64>,
    filepositions: &Vec<u64>,
    tag_write: &mut FLVTagWrite,
) -> (r: Result<(), FlvError>)
    requires
        old(metatag).wf(),
        old(metatag)@[0] == 18,
        old(tag_write)@.len() >= 13,
        duration < 0x4000000000000000,
        forall|k: int| 0 <= k < times@.len() ==> times@[k] < 0x4000000000000000,
        forall|k: int| 0 <= k < filepositions@.len() ==> filepositions@[k] < 0x4000000000000000,
    ensures
        match spec_write_back(old(metatag)@, duration, times@, filepositions@, old(tag_write)@) {
            Ok((nb, nw)) => r == Ok::<(), FlvError>(())
                && final(metatag)@ == nb
                && final(tag_write)@ == nw,
            Err(e) => r == Err::<(), FlvError>(e),
        },
        r is Ok ==> final(metatag).wf() && final(metatag)@[0] == old(metatag)@[0]
            && final(tag_write)@.len() >= 13,
{
    proof {
        reveal(spec_write_back);
    }
    let mut metas = match metatag.get_objects() {
        Ok(v) => v,
        Err(e) => {
            return Err(e);
        },
    };
    let dur_bits = f64_bits_of_ratio(duration, 1000);
    let m1 = match metas.pop() {
        Some(v) => v,
        None => {
            return Err(FlvError::BadPlan);
        },
    };
    let ghost m1v = m1@;
    let updated: Amf0Value = match m1 {
        Amf0Value::Object(mut es) => {
            obj_insert(&mut es, key_duration(), Amf0Value::Number(dur_bits));
            obj_insert(&mut es, key_gapfixedby(), Amf0Value::Str(key_sign()));
            let ghost es2v = crate::amf0::spec_view_entries(es@);
            match obj_find(&es, &key_keyframes()) {
                Some(idx) => {
                    proof {
                        crate::amf0::lemma_view_entries_index(es@);
                    }
                    let (kk, kv) = es.remove(idx);
                    let ghost kvv = kv@;
                    match kv {
                        Amf0Value::Object(mut ke) => {
                            obj_insert(&mut ke, key_times(), build_num_array(times, 1000));
                            obj_insert(
                                &mut ke,
                                key_filepositions(),
                                build_num_array(filepositions, 1),
                            );
                            es.insert(idx, (kk, Amf0Value::Object(ke)));
                            proof {
                                crate::amf0::lemma_view_entries_index(es@);
                                lemma_view_entries_remove_insert(es@, es2v, idx as int);
                                crate::amf0::lemma_obj_insert_at(
                                    es2v,
                                    spec_key_keyframes(),
                                    es@[idx as int].1@,
                                    idx as int,
                                );
                            }
                            Amf0Value::Object(es)
                        },
                        other => {
                            es.insert(idx, (kk, other));
                            proof {
                                crate::amf0::lemma_view_entries_index(es@);
                                assert(crate::amf0::spec_view_entries(es@) =~= es2v);
                            }
                            Amf0Value::Object(es)
                        },
                    }
                },
                None => { Amf0Value::Object(es) },
            }
        },
        other => other,
    };
    proof {
        assert(updated@ == spec_update_meta(
            m1v,
            dur_bits,
            times@,
            filepositions@,
        ));
    }
    if !is_valid_value(&metas[0]) {
        return Err(FlvError::BadPlan);
    }
    metas.push(updated);
    if !is_valid_value(&metas[1]) {
        return Err(FlvError::BadPlan);
    }
    match metatag.set_objects(&metas) {
        Ok(()) => {},
        Err(e) => {
            return Err(e);
        },
    }
    tag_write.write_meta_tag(metatag);
    Ok(())
}

proof fn lemma_view_entries_remove_insert(
    es_new: Seq<(Vec<u8>, Amf0Value)>,
    old_view: Seq<(Seq<u8>, Amf0Val)>,
    idx: int,
)
    requires
        0 <= idx < es_new.len(),
        crate::amf0::spec_view_entries(es_new).len() == es_new.len(),
        old_view.len() == es_new.len(),
        forall|k: int|
            0 <= k < es_new.len() ==> #[trigger] crate::amf0::spec_view_entries(es_new)[k] == (
            es_new[k].0@,
            es_new[k].1@,
            ),
        forall|k: int|
            0 <= k < es_new.len() && k != idx ==> crate::amf0::spec_view_entries(es_new)[k]
                == old_view[k],
    ensures
        crate::amf0::spec_view_entries(es_new) =~= old_view.update(
            idx,
            (es_new[idx].0@, es_new[idx].1@),
        ),
{
}

/// Stream every planned record into the output, collecting the output
/// offset of each video keyframe.
fn stream_records(
    data: &Vec<u8>,
    info: &Vec<TagProfile>,
    tag_write: &mut FLVTagWrite,
    positions: &mut Vec<u64>,
) -> (r: Result<(), FlvError>)
    ensures
        match spec_stream(data@, info@, 0, old(tag_write)@, old(positions)@, 0) {
            Ok((w2, p2)) => r == Ok::<(), FlvError>(())
                && final(tag_write)@ == w2
                && final(positions)@ == p2,
            Err(e) => r == Err::<(), FlvError>(e),
        },
        forall|k: int|
            0 <= k < final(positions)@.len() ==> (final(positions)@[k] < 0x4000000000000000
                || final(positions)@[k] == old(positions)@[k]),
        final(positions)@.len() == old(positions)@.len(),
        final(tag_write)@.len() >= old(tag_write)@.len(),
{
    let n = info.len();
    let mut i: usize = 0;
    let mut frame_index: usize = 0;
    while i < n
        invariant
            i <= n,
            n == info@.len(),
            positions@.len() == old(positions)@.len(),
            forall|k: int|
                0 <= k < positions@.len() ==> (positions@[k] < 0x4000000000000000 || positions@[k]
                    == old(positions)@[k]),
            tag_write@.len() >= old(tag_write)@.len(),
            spec_stream(data@, info@, 0, old(tag_write)@, old(positions)@, 0) == spec_stream(
                data@,
                info@,
                i as int,
                tag_write@,
                positions@,
                frame_index as int,
            ),
        decreases n - i,
    {
        let item = info[i];
        if item.tag_type == FLVTagType::TAG_TYPE_SCRIPTDATAOBJECT {
            i = i + 1;
            continue ;
        }
        let kf = item.tag_type == FLVTagType::TAG_TYPE_VIDEO && item.keyframe;
        if kf {
            let p = tag_write.get_position();
            if frame_index >= positions.len() || p as u64 >= 0x4000000000000000u64 {
                return Err(FlvError::BadPlan);
            }
            positions.set(frame_index, p as u64);
            frame_index = frame_index + 1;
        }
        let mut tag: FLVTag;
        if item.id == MAX_ID {
            if !(0 <= item.timestamp_us && item.timestamp_us / 1000 < 0x100000000 && 1
                <= item.position && item.position <= 2) {
                return Err(FlvError::BadPlan);
            }
            tag = match item.tag(data) {
                Ok(t) => t,
                Err(e) => {
                    return Err(e);
                },
            };
        } else {
            if item.position > data.len() as u64 {
                return Err(FlvError::Truncated);
            }
            tag = match item.tag(data) {
                Ok(t) => t,
                Err(e) => {
                    return Err(e);
                },
            };
        }
        let ghost tb = tag@;
        let shifted = sat_add_i64(item.timestamp_us, item.offset_us);
        let ts_all = (#[verifier::truncate] (shifted as u64)) / 1000;
        let ts = ts_all % 0x100000000;
        tag.set_timestamp(ts);
        proof {
            assert(tag@ =~= spec_set_ts(tb, ts as int));
        }
        tag_write.write_tag(&tag);
        i = i + 1;
    }
    Ok(())
}

/// The two-phase metadata path: write the placeholder record, stream, then
/// patch the record in place with the collected positions.
#[verifier::rlimit(100)]
fn fix_with_meta(
    data: &Vec<u8>,
    info: &Vec<TagProfile>,
    mprof: TagProfile,
    tag_write: FLVTagWrite,
    times: &Vec<u64>,
    positions: Vec<u64>,
    duration: u64,
) -> (r: Result<Vec<u8>, FlvError>)
    requires
        tag_write@.len() >= 13,
        duration < 0x4000000000000000,
        times@.len() <= 0xFFFFFFFF,
        forall|k: int| 0 <= k < times@.len() ==> times@[k] < 0x4000000000000000,
        forall|k: int| 0 <= k < positions@.len() ==> positions@[k] == 0u64,
    ensures
        match spec_fix_meta(data@, info@, mprof, tag_write@, times@, positions@, duration) {
            Ok(w) => r matches Ok(v) && v@ == w,
            Err(e) => r == Err::<Vec<u8>, FlvError>(e),
        },
{
    let mut tag_write = tag_write;
    let mut positions = positions;
    if mprof.id == MAX_ID || mprof.position > data.len() as u64 {
        return Err(FlvError::BadPlan);
    }
    let mut metatag = match FLVTag::read(data, mprof.position as usize) {
        Ok(Some(t)) => t,
        Ok(None) => {
            return Err(FlvError::Truncated);
        },
        Err(_) => {
            return Err(FlvError::Truncated);
        },
    };
    if metatag.raw()[0] != 18 {
        return Err(FlvError::BadPlan);
    }
    match write_back_meta_tag(duration, &mut metatag, times, &positions, &mut tag_write) {
        Ok(()) => {},
        Err(e) => {
            return Err(e);
        },
    }
    match stream_records(data, info, &mut tag_write, &mut positions) {
        Ok(()) => {},
        Err(e) => {
            return Err(e);
        },
    }
    match write_back_meta_tag(duration, &mut metatag, times, &positions, &mut tag_write) {
        Ok(()) => {},
        Err(e) => {
            return Err(e);
        },
    }
    Ok(tag_write.into_bytes())
}

/// The rewrite after the plan guards.
fn fix_tail(data: &Vec<u8>, info: &Vec<TagProfile>) -> (r: Result<Vec<u8>, FlvError>)
    ensures
        match spec_fix_tail(data@, info@) {
            Ok(w) => r matches Ok(v) && v@ == w,
            Err(e) => r == Err::<Vec<u8>, FlvError>(e),
        },
{
    let n = info.len();
    let header = match FLVHeader::read(data) {
        Ok(h) => h,
        Err(e) => {
            return Err(e);
        },
    };
    let mut tag_write = FLVTagWrite::new();
    tag_write.write_header(&header);
    proof {
        assert(tag_write@ =~= crate::tag::spec_header_bytes(header));
    }
    let mut times: Vec<u64> = Vec::new();
    let mut i2: usize = 0;
    while i2 < n
        invariant
            i2 <= n,
            n == info@.len(),
            spec_kf_times(info@, 0) == times@ + spec_kf_times(info@, i2 as int),
            forall|k: int| 0 <= k < times@.len() ==> times@[k] < 0x4000000000000000,
        decreases n - i2,
    {
        let item = info[i2];
        if item.tag_type == FLVTagType::TAG_TYPE_VIDEO && item.keyframe {
            let t = (#[verifier::truncate] (item.timestamp_us as u64)) / 1000;
            proof {
                vstd::arithmetic::div_mod::lemma_div_is_ordered(
                    ((item.timestamp_us as u64) as int),
                    0xFFFFFFFFFFFFFFFF,
                    1000,
                );
            }
            let ghost oldt = times@;
            times.push(t);
            proof {
                assert(oldt + (seq![t] + spec_kf_times(info@, i2 + 1)) =~= times@ + spec_kf_times(
                    info@,
                    i2 + 1,
                ));
            }
        }
        i2 = i2 + 1;
    }
    proof {
        assert(times@ + Seq::<u64>::empty() =~= times@);
    }
    if times.len() > 0xFFFFFFFFusize {
        return Err(FlvError::BadPlan);
    }
    let mut la: Option<TagProfile> = None;
    let mut i3: usize = 0;
    while i3 < n
        invariant
            i3 <= n,
            n == info@.len(),
            la == spec_last_audio(info@, i3 as int - 1),
        decreases n - i3,
    {
        let item = info[i3];
        if item.tag_type == FLVTagType::TAG_TYPE_AUDIO {
            la = Some(item);
        }
        i3 = i3 + 1;
    }
    let lap = match la {
        Some(p) => p,
        None => {
            return Err(FlvError::NoAudioTags);
        },
    };
    let duration: u64 = (#[verifier::truncate] (sat_add_i64(
        lap.timestamp_us,
        lap.decode_duration_us,
    ) as u64)) / 1000;
    proof {
        vstd::arithmetic::div_mod::lemma_div_is_ordered(
            ((sat_add(lap.timestamp_us as int, lap.decode_duration_us as int) as i64 as u64)
                as int),
            0xFFFFFFFFFFFFFFFF,
            1000,
        );
        assert(duration < 0x4000000000000000);
    }
    let mut positions: Vec<u64> = Vec::new();
    let tn = times.len();
    let mut i4: usize = 0;
    while i4 < tn
        invariant
            i4 <= tn,
            positions@.len() == i4,
            forall|k: int| 0 <= k < i4 ==> positions@[k] == 0u64,
        decreases tn - i4,
    {
        positions.push(0);
        i4 = i4 + 1;
    }
    proof {
        assert(positions@ =~= Seq::new(times@.len(), |k: int| 0u64));
    }
    let mut mp: Option<usize> = None;
    let mut i5: usize = 0;
    while i5 < n && mp.is_none()
        invariant
            i5 <= n,
            n == info@.len(),
            match mp {
                None => spec_find_meta(info@, 0) == spec_find_meta(info@, i5 as int),
                Some(ix) => ix < n && spec_find_meta(info@, 0) == Some(info@[ix as int]),
            },
        decreases n - i5 + (if mp is None {
            1int
        } else {
            0int
        }),
    {
        if info[i5].tag_type == FLVTagType::TAG_TYPE_SCRIPTDATAOBJECT {
            mp = Some(i5);
        } else {
            i5 = i5 + 1;
        }
    }
    match mp {
        None => {
            match stream_records(data, info, &mut tag_write, &mut positions) {
                Ok(()) => {},
                Err(e) => {
                    return Err(e);
                },
            }
            Ok(tag_write.into_bytes())
        },
        Some(ix) => {
            let mprof = info[ix];
            fix_with_meta(data, info, mprof, tag_write, &times, positions, duration)
        },
    }
}

/// Rewrite the container from the plan: guard the stream invariants, write
/// the file header and a placeholder metadata record, stream every planned
/// record from the original bytes (or synthesize silent frames), then patch
/// the metadata record in place with the final duration and keyframe index.
/// Any guard violation or malformed input aborts before or during the write;
/// the caller receives either the whole new stream or an error.
pub fn fix_file(data: &Vec<u8>, info: &Vec<TagProfile>) -> (r: Result<Vec<u8>, FlvError>)
    ensures
        match spec_fix_file(data@, info@) {
            Ok(w) => r matches Ok(v) && v@ == w,
            Err(e) => r == Err::<Vec<u8>, FlvError>(e),
        },
{
    let n = info.len();
    let mut ca: usize = 0;
    let mut cv: usize = 0;
    let mut cm: usize = 0;
    let mut i: usize = 0;
    while i < n
        invariant
            i <= n,
            n == info@.len(),
            ca <= i && cv <= i && cm <= i,
            spec_count_a_sh(info@, 0) == ca + spec_count_a_sh(info@, i as int),
            spec_count_v_sh(info@, 0) == cv + spec_count_v_sh(info@, i as int),
            spec_count_meta(info@, 0) == cm + spec_count_meta(info@, i as int),
        decreases n - i,
    {
        let item = info[i];
        if item.tag_type == FLVTagType::TAG_TYPE_AUDIO && item.sequence_header {
            ca = ca + 1;
        }
        if item.tag_type == FLVTagType::TAG_TYPE_VIDEO && item.sequence_header {
            cv = cv + 1;
        }
        if item.tag_type == FLVTagType::TAG_TYPE_SCRIPTDATAOBJECT {
            cm = cm + 1;
        }
        i = i + 1;
    }
    if ca != 1 {
        return Err(FlvError::BadAudioSequenceHeaderCount);
    }
    if cv != 1 {
        return Err(FlvError::BadVideoSequenceHeaderCount);
    }
    if cm > 1 {
        return Err(FlvError::BadMetadataCount);
    }
    fix_tail(data, info)
}
} // verus!
