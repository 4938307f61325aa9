//! Drift detector: walks the audio descriptors in scan order, comparing each
//! actual timestamp to the ideal timeline accumulated from nominal frame
//! durations, and emits one event per local discontinuity beyond a fixed
//! one-millisecond jitter allowance.
use vstd::prelude::*;

use crate::num::{sat_abs, sat_abs_i64, sat_add, sat_add_i64, sat_sub, sat_sub_i64};
use crate::profile::TagProfile;
use crate::tag::FLVTagType;

verus! {

/// One detected discontinuity: the records on both sides, the local jump,
/// and the absolute drift against the ideal timeline.
#[derive(Debug, Clone, Copy, PartialEq, Eq, Structural)]
pub struct OffsetInfo {
    pub id_from: u64,
    pub tm_from: i64,
    pub id_to: u64,
    pub tm_to: i64,
    /// The local jump: actual timestamp minus predicted end of the previous
    /// frame.
    pub current_offset: i64,
    /// Drift against the timeline built purely from nominal durations.
    pub total_offset: i64,
}

/// Whether a descriptor takes part in drift detection: an audio record that
/// is not the sequence header.
pub open spec fn spec_is_drift_audio(p: TagProfile) -> bool {
    p.tag_type == FLVTagType::TAG_TYPE_AUDIO && !p.sequence_header
}

/// The detector's running state.
pub struct DriftState {
    pub last_id: u64,
    pub last_tm_us: i64,
    pub last_dd_us: i64,
    pub audio_duration_us: i64,
    pub events: Seq<OffsetInfo>,
    pub audio_tag_count: i64,
}

/// The state before the first audio frame.
pub open spec fn spec_drift_init() -> DriftState {
    DriftState {
        last_id: 0,
        last_tm_us: 0,
        last_dd_us: 0,
        audio_duration_us: 0,
        events: Seq::empty(),
        audio_tag_count: 0,
    }
}

/// The local jump an audio frame shows against the running state.
pub open spec fn spec_drift_delta(st: DriftState, p: TagProfile) -> int {
    sat_sub(p.timestamp_us as int, sat_add(st.last_tm_us as int, st.last_dd_us as int))
}

/// One detector step: emit an event when the local jump exceeds the jitter
/// allowance, then advance the accumulator and the last-seen state either
/// way.
pub open spec fn spec_drift_step(st: DriftState, p: TagProfile) -> DriftState {
    let delta = spec_drift_delta(st, p);
    let events = if sat_abs(delta) > 1000 {
        st.events.push(
            OffsetInfo {
                id_from: st.last_id,
                tm_from: st.last_tm_us,
                id_to: p.id,
                tm_to: p.timestamp_us,
                current_offset: delta as i64,
                total_offset: sat_sub(
                    p.timestamp_us as int,
                    st.audio_duration_us as int,
                ) as i64,
            },
        )
    } else {
        st.events
    };
    DriftState {
        last_id: p.id,
        last_tm_us: p.timestamp_us,
        last_dd_us: p.decode_duration_us,
        audio_duration_us: sat_add(st.audio_duration_us as int, p.decode_duration_us as int) as i64,
        events,
        audio_tag_count: sat_add(st.audio_tag_count as int, 1) as i64,
    }
}

/// Run the detector over the descriptors from index `i` in state `st`.
pub open spec fn spec_check_offset(s: Seq<TagProfile>, i: int, st: DriftState) -> DriftState
    decreases s.len() - i,
{
    if i < 0 || i >= s.len() {
        st
    } else if spec_is_drift_audio(s[i]) {
        spec_check_offset(s, i + 1, spec_drift_step(st, s[i]))
    } else {
        spec_check_offset(s, i + 1, st)
    }
}

/// Count clamped into the signed 64-bit range.
pub open spec fn spec_count_i64(n: nat) -> int {
    if n > 0x7fffffffffffffff {
        0x7fffffffffffffff
    } else {
        n as int
    }
}

/// Walk the audio descriptors and report every local discontinuity, the
/// number of events, and the number of audio frames seen.
pub fn check_offset(info: &Vec<TagProfile>) -> (r: (Vec<OffsetInfo>, i64, i64))
    ensures
        ({
            let st = spec_check_offset(info@, 0, spec_drift_init());
            r.0@ == st.events && r.1 == spec_count_i64(st.events.len()) && r.2
                == st.audio_tag_count
        }),
{
    let mut last_id: u64 = 0;
    let mut last_tm_us: i64 = 0;
    let mut last_dd_us: i64 = 0;
    let mut audio_duration_us: i64 = 0;
    let mut offset_infos: Vec<OffsetInfo> = Vec::new();
    let mut audio_tag_count: i64 = 0;
    let n = info.len();
    let mut i: usize = 0;
    while i < n
        invariant
            i <= n,
            n == info@.len(),
            spec_check_offset(info@, 0, spec_drift_init()) == spec_check_offset(
                info@,
                i as int,
                DriftState {
                    last_id,
                    last_tm_us,
                    last_dd_us,
                    audio_duration_us,
                    events: offset_infos@,
                    audio_tag_count,
                },
            ),
        decreases n - i,
    {
        let item = info[i];
        if item.tag_type == FLVTagType::TAG_TYPE_AUDIO && !item.sequence_header {
            let delta = sat_sub_i64(item.timestamp_us, sat_add_i64(last_tm_us, last_dd_us));
            if sat_abs_i64(delta) > 1000 {
                offset_infos.push(
                    OffsetInfo {
                        id_from: last_id,
                        tm_from: last_tm_us,
                        id_to: item.id,
                        tm_to: item.timestamp_us,
                        current_offset: delta,
                        total_offset: sat_sub_i64(item.timestamp_us, audio_duration_us),
                    },
                );
            }
            audio_duration_us = sat_add_i64(audio_duration_us, item.decode_duration_us);
            last_id = item.id;
            last_dd_us = item.decode_duration_us;
            last_tm_us = item.timestamp_us;
            audio_tag_count = sat_add_i64(audio_tag_count, 1);
        }
        i = i + 1;
    }
    let count: i64 = if offset_infos.len() as u64 > 0x7fffffffffffffff {
        i64::MAX
    } else {
        offset_infos.len() as i64
    };
    (offset_infos, count, audio_tag_count)
}

/// The summary fold over the events: the drift of greatest magnitude, sign
/// preserved, and the sum of the local jumps' magnitudes.
pub open spec fn spec_offset_analysis(events: Seq<OffsetInfo>, i: int, max_offset: int, sum_offset: int) -> (
    int,
    int,
)
    decreases events.len() - i,
{
    if i < 0 || i >= events.len() {
        (max_offset, sum_offset)
    } else {
        let e = events[i];
        let new_max = if sat_abs(max_offset) < sat_abs(e.total_offset as int) {
            e.total_offset as int
        } else {
            max_offset
        };
        spec_offset_analysis(events, i + 1, new_max, sat_add(sum_offset, sat_abs(e.current_offset as int)))
    }
}

/// Summarize the events: `max_offset` is the `total_offset` of greatest
/// magnitude with its sign, `sum_offset` the sum of `|current_offset|`.
pub fn offset_analysis(offset_infos: &Vec<OffsetInfo>) -> (r: (i64, i64))
    ensures
        (r.0 as int, r.1 as int) == spec_offset_analysis(offset_infos@, 0, 0, 0),
{
    let n = offset_infos.len();
    let mut max_offset: i64 = 0;
    let mut sum_offset: i64 = 0;
    let mut i: usize = 0;
    while i < n
        invariant
            i <= n,
            n == offset_infos@.len(),
            spec_offset_analysis(offset_infos@, 0, 0, 0) == spec_offset_analysis(
                offset_infos@,
                i as int,
                max_offset as int,
                sum_offset as int,
            ),
        decreases n - i,
    {
        let e = offset_infos[i];
        if sat_abs_i64(max_offset) < sat_abs_i64(e.total_offset) {
            max_offset = e.total_offset;
        }
        sum_offset = sat_add_i64(sum_offset, sat_abs_i64(e.current_offset));
        i = i + 1;
    }
    (max_offset, sum_offset)
}

/// The three possible outcomes of the pre-repair policy check.
#[derive(Debug, Clone, Copy, PartialEq, Eq, Structural)]
pub enum FixDecision {
    /// The measured drift is below the caller's threshold: no repair.
    BelowThreshold,
    /// Too large a fraction of audio frames drifts: repairing is unsafe.
    RateTooHigh,
    /// Repair may proceed.
    Fix,
}

/// Whether the event rate exceeds the allowed fraction, given in parts per
/// million; an empty stream exceeds nothing.
pub open spec fn spec_rate_exceeds(offset_tag_count: int, audio_tag_count: int, rate_ppm: int) -> bool {
    audio_tag_count > 0 && offset_tag_count * 1000000 > rate_ppm * audio_tag_count
}

/// Whether a repair is worth performing: the largest drift magnitude clears
/// the threshold and the event rate stays within the allowed fraction.
pub open spec fn spec_need_fix(
    max_offset: int,
    threshold: int,
    offset_tag_count: int,
    audio_tag_count: int,
    rate_ppm: int,
) -> bool {
    sat_abs(max_offset) > threshold && audio_tag_count > 0 && offset_tag_count * 1000000
        <= rate_ppm * audio_tag_count
}

/// Whether a repair is worth performing, with the rate threshold in parts
/// per million.
pub fn need_fix(
    max_offset: i64,
    threshold: i64,
    offset_tag_count: i64,
    audio_tag_count: i64,
    rate_ppm: i64,
) -> (r: bool)
    requires
        offset_tag_count >= 0,
        audio_tag_count >= 0,
        rate_ppm >= 0,
    ensures
        r == spec_need_fix(
            max_offset as int,
            threshold as int,
            offset_tag_count as int,
            audio_tag_count as int,
            rate_ppm as int,
        ),
{
    proof {
        vstd::arithmetic::mul::lemma_mul_upper_bound(
            rate_ppm as int,
            0x7fffffffffffffff,
            audio_tag_count as int,
            0x7fffffffffffffff,
        );
    }
    sat_abs_i64(max_offset) > threshold && audio_tag_count > 0 && (offset_tag_count as u128)
        * 1000000 <= (rate_ppm as u128) * (audio_tag_count as u128)
}

/// Decide the pre-repair policy: refuse when the largest drift magnitude is
/// below the threshold, refuse when the event rate is above the allowed
/// fraction, allow otherwise.
pub fn fix_decision(
    max_offset: i64,
    threshold: i64,
    offset_tag_count: i64,
    audio_tag_count: i64,
    rate_ppm: i64,
) -> (r: FixDecision)
    requires
        offset_tag_count >= 0,
        audio_tag_count >= 0,
        rate_ppm >= 0,
    ensures
        r == FixDecision::BelowThreshold <==> sat_abs(max_offset as int) < threshold,
        sat_abs(max_offset as int) >= threshold ==> (r == FixDecision::RateTooHigh
            <==> spec_rate_exceeds(offset_tag_count as int, audio_tag_count as int, rate_ppm as int)),
        r == FixDecision::Fix <==> (sat_abs(max_offset as int) >= threshold && !spec_rate_exceeds(
            offset_tag_count as int,
            audio_tag_count as int,
            rate_ppm as int,
        )),
{
    proof {
        vstd::arithmetic::mul::lemma_mul_upper_bound(
            rate_ppm as int,
            0x7fffffffffffffff,
            audio_tag_count as int,
            0x7fffffffffffffff,
        );
    }
    if sat_abs_i64(max_offset) < threshold {
        FixDecision::BelowThreshold
    } else if audio_tag_count > 0 && (offset_tag_count as u128) * 1000000 > (rate_ppm as u128) * (
    audio_tag_count as u128) {
        FixDecision::RateTooHigh
    } else {
        FixDecision::Fix
    }
}

/// Bounds under which the detector's saturating arithmetic is exact: what
/// the profiler guarantees of every descriptor it emits.
pub open spec fn spec_wf_drift_profile(p: TagProfile) -> bool {
    &&& 0 <= p.timestamp_us < 0x40000000000
    &&& 0 <= p.decode_duration_us <= 0x200000
}

/// Whether, from index `i` with ideal accumulator `acc`, every audio frame's
/// timestamp lies exactly on the ideal timeline.
pub open spec fn spec_matches_ideal(s: Seq<TagProfile>, i: int, acc: int) -> bool
    decreases s.len() - i,
{
    if i < 0 || i >= s.len() {
        true
    } else if spec_is_drift_audio(s[i]) {
        s[i].timestamp_us == acc && spec_matches_ideal(s, i + 1, acc + s[i].decode_duration_us)
    } else {
        spec_matches_ideal(s, i + 1, acc)
    }
}

proof fn lemma_no_events_step(s: Seq<TagProfile>, i: int, st: DriftState)
    requires
        0 <= i <= s.len(),
        forall|k: int| 0 <= k < s.len() ==> spec_wf_drift_profile(#[trigger] s[k]),
        spec_matches_ideal(s, i, st.audio_duration_us as int),
        st.audio_duration_us == sat_add(st.last_tm_us as int, st.last_dd_us as int),
        0 <= st.audio_duration_us < 0x7fffffffffffff,
        0 <= st.last_tm_us,
        0 <= st.last_dd_us <= 0x200000,
    ensures
        spec_check_offset(s, i, st).events == st.events,
    decreases s.len() - i,
{
    if i < s.len() {
        if spec_is_drift_audio(s[i]) {
            let p = s[i];
            let st2 = spec_drift_step(st, p);
            assert(spec_drift_delta(st, p) == 0);
            lemma_no_events_step(s, i + 1, st2);
        } else {
            lemma_no_events_step(s, i + 1, st);
        }
    }
}

/// Audio frames that lie exactly on the ideal timeline raise no event: when
/// every audio frame's timestamp equals the sum of the nominal durations
/// before it, the detector stays silent.
pub proof fn lemma_no_events_on_ideal_timeline(s: Seq<TagProfile>)
    requires
        forall|k: int| 0 <= k < s.len() ==> spec_wf_drift_profile(#[trigger] s[k]),
        spec_matches_ideal(s, 0, 0),
    ensures
        spec_check_offset(s, 0, spec_drift_init()).events == Seq::<OffsetInfo>::empty(),
{
    lemma_no_events_step(s, 0, spec_drift_init());
}

} // verus!
