//! Repair planners: two mutually exclusive strategies that assign each
//! record a time shift and, for the frame-drop strategy, a deletion flag,
//! while keeping deletion atomic over keyframe-delimited runs.
use vstd::prelude::*;

use crate::num::{sat_abs, sat_abs_i64, sat_add, sat_add_i64, sat_sub, sat_sub_i64};
use crate::profile::TagProfile;
use crate::tag::FLVTagType;

verus! {

/// Records kept verbatim and moved to the front: stream sequence headers
/// and the metadata record.
pub open spec fn spec_is_verbatim(p: TagProfile) -> bool {
    match p.tag_type {
        FLVTagType::TAG_TYPE_AUDIO => p.sequence_header,
        FLVTagType::TAG_TYPE_VIDEO => p.sequence_header,
        FLVTagType::TAG_TYPE_SCRIPTDATAOBJECT => true,
    }
}

/// An ordinary video frame.
pub open spec fn spec_is_video_frame(p: TagProfile) -> bool {
    p.tag_type == FLVTagType::TAG_TYPE_VIDEO && !p.sequence_header
}

/// An ordinary audio frame.
pub open spec fn spec_is_audio_frame(p: TagProfile) -> bool {
    p.tag_type == FLVTagType::TAG_TYPE_AUDIO && !p.sequence_header
}

/// Split the descriptors, in order, into the verbatim records, the video
/// frames, and the audio frames.
pub open spec fn spec_partition(s: Seq<TagProfile>, i: int) -> (
    Seq<TagProfile>,
    Seq<TagProfile>,
    Seq<TagProfile>,
)
    decreases s.len() - i,
{
    if i < 0 || i >= s.len() {
        (Seq::empty(), Seq::empty(), Seq::empty())
    } else {
        let (c, v, a) = spec_partition(s, i + 1);
        if spec_is_verbatim(s[i]) {
            (seq![s[i]] + c, v, a)
        } else if spec_is_video_frame(s[i]) {
            (c, seq![s[i]] + v, a)
        } else {
            (c, v, seq![s[i]] + a)
        }
    }
}

/// Partition the descriptors into verbatim records, video frames, and audio
/// frames, keeping the scan order inside each class.
fn partition_tags(info: &Vec<TagProfile>) -> (r: (Vec<TagProfile>, Vec<TagProfile>, Vec<
    TagProfile,
>))
    ensures
        (r.0@, r.1@, r.2@) == spec_partition(info@, 0),
{
    let mut c_tags: Vec<TagProfile> = Vec::new();
    let mut v_tags: Vec<TagProfile> = Vec::new();
    let mut a_tags: Vec<TagProfile> = Vec::new();
    let n = info.len();
    let mut i: usize = n;
    while i > 0
        invariant
            i <= n,
            n == info@.len(),
            (c_tags@, v_tags@, a_tags@) == spec_partition(info@, i as int),
        decreases i,
    {
        i = i - 1;
        let item = info[i];
        if (item.tag_type == FLVTagType::TAG_TYPE_AUDIO && item.sequence_header) || (item.tag_type
            == FLVTagType::TAG_TYPE_VIDEO && item.sequence_header) || item.tag_type
            == FLVTagType::TAG_TYPE_SCRIPTDATAOBJECT {
            c_tags.insert(0, item);
        } else if item.tag_type == FLVTagType::TAG_TYPE_VIDEO {
            v_tags.insert(0, item);
        } else {
            a_tags.insert(0, item);
        }
        proof {
            let (c, v, a) = spec_partition(info@, i + 1);
            if spec_is_verbatim(info@[i as int]) {
                assert(c_tags@ =~= seq![info@[i as int]] + c);
            } else if spec_is_video_frame(info@[i as int]) {
                assert(v_tags@ =~= seq![info@[i as int]] + v);
            } else {
                assert(a_tags@ =~= seq![info@[i as int]] + a);
            }
        }
    }
    (c_tags, v_tags, a_tags)
}

/// The shifted timestamp a record sorts by.
pub open spec fn spec_shifted(p: TagProfile) -> int {
    sat_add(p.timestamp_us as int, p.offset_us as int)
}

/// Insert one record into an already ordered sequence, after every record
/// of equal or smaller shifted timestamp, so that sorting stays stable.
pub open spec fn spec_sort_insert(s: Seq<TagProfile>, x: TagProfile) -> Seq<TagProfile>
    decreases s.len(),
{
    if s.len() == 0 {
        seq![x]
    } else if spec_shifted(s.last()) <= spec_shifted(x) {
        s.push(x)
    } else {
        spec_sort_insert(s.drop_last(), x).push(s.last())
    }
}

/// Stable left-to-right insertion sort by shifted timestamp: each record is
/// inserted after every already placed record of equal or smaller key, so
/// records with equal keys keep their relative order.
pub open spec fn spec_sort_run(acc: Seq<TagProfile>, s: Seq<TagProfile>, i: int) -> Seq<TagProfile>
    decreases s.len() - i,
{
    if i < 0 || i >= s.len() {
        acc
    } else {
        spec_sort_run(spec_sort_insert(acc, s[i]), s, i + 1)
    }
}

/// An ordered sequence: shifted timestamps never decrease.
pub open spec fn spec_sorted_by_shifted(s: Seq<TagProfile>) -> bool {
    forall|i: int, j: int|
        0 <= i < j < s.len() ==> spec_shifted(#[trigger] s[i]) <= spec_shifted(#[trigger] s[j])
}

proof fn lemma_sort_insert_sorted(s: Seq<TagProfile>, x: TagProfile)
    requires
        spec_sorted_by_shifted(s),
    ensures
        spec_sorted_by_shifted(spec_sort_insert(s, x)),
        spec_sort_insert(s, x).len() == s.len() + 1,
        forall|k: int|
            0 <= k < spec_sort_insert(s, x).len() ==> (#[trigger] spec_sort_insert(s, x)[k] == x
                || s.contains(spec_sort_insert(s, x)[k])),
    decreases s.len(),
{
    let r = spec_sort_insert(s, x);
    if s.len() == 0 {
    } else if spec_shifted(s.last()) <= spec_shifted(x) {
        assert(forall|i: int|
            0 <= i < s.len() ==> spec_shifted(#[trigger] s[i]) <= spec_shifted(s[s.len() - 1]));
        assert(spec_sorted_by_shifted(s.push(x)));
    } else {
        let d = s.drop_last();
        assert(spec_sorted_by_shifted(d)) by {
            assert(forall|i: int, j: int|
                0 <= i < j < d.len() ==> spec_shifted(#[trigger] d[i]) <= spec_shifted(
                    #[trigger] d[j],
                ));
        }
        lemma_sort_insert_sorted(d, x);
        let ri = spec_sort_insert(d, x);
        assert(forall|i: int|
            0 <= i < ri.len() ==> spec_shifted(#[trigger] ri[i]) <= spec_shifted(s.last())) by {
            assert(forall|p: TagProfile|
                #[trigger] d.contains(p) ==> spec_shifted(p) <= spec_shifted(s.last())) by {
                assert(forall|i: int|
                    0 <= i < d.len() ==> spec_shifted(#[trigger] d[i]) <= spec_shifted(
                        s[s.len() - 1],
                    ));
            }
        }
        assert(spec_sorted_by_shifted(ri.push(s.last())));
        assert(forall|k: int|
            0 <= k < r.len() ==> (#[trigger] r[k] == x || s.contains(r[k]))) by {
            assert(forall|k: int|
                0 <= k < ri.len() ==> (#[trigger] ri[k] == x || d.contains(ri[k])));
            assert(forall|p: TagProfile| #[trigger] d.contains(p) ==> s.contains(p));
            assert(s.contains(s.last()));
        }
    }
}

proof fn lemma_sort_insert_position(s: Seq<TagProfile>, x: TagProfile, p: int)
    requires
        spec_sorted_by_shifted(s),
        0 <= p <= s.len(),
        forall|k: int| 0 <= k < p ==> spec_shifted(#[trigger] s[k]) <= spec_shifted(x),
        forall|k: int| p <= k < s.len() ==> spec_shifted(#[trigger] s[k]) > spec_shifted(x),
    ensures
        spec_sort_insert(s, x) == s.subrange(0, p) + seq![x] + s.subrange(p, s.len() as int),
    decreases s.len(),
{
    if s.len() == 0 {
        assert(spec_sort_insert(s, x) =~= s.subrange(0, p) + seq![x] + s.subrange(
            p,
            s.len() as int,
        ));
    } else if spec_shifted(s.last()) <= spec_shifted(x) {
        assert(p == s.len());
        assert(s.push(x) =~= s.subrange(0, p) + seq![x] + s.subrange(p, s.len() as int));
    } else {
        let d = s.drop_last();
        assert(p <= d.len());
        assert(spec_sorted_by_shifted(d)) by {
            assert(forall|i: int, j: int|
                0 <= i < j < d.len() ==> spec_shifted(#[trigger] d[i]) <= spec_shifted(
                    #[trigger] d[j],
                ));
        }
        lemma_sort_insert_position(d, x, p);
        assert(d.subrange(0, p) =~= s.subrange(0, p));
        assert((d.subrange(0, p) + seq![x] + d.subrange(p, d.len() as int)).push(s.last())
            =~= s.subrange(0, p) + seq![x] + s.subrange(p, s.len() as int));
    }
}

/// Sort records by shifted timestamp with a stable insertion sort.
fn sort_by_shifted(v: &mut Vec<TagProfile>)
    ensures
        final(v)@ == spec_sort_run(Seq::empty(), old(v)@, 0),
        spec_sorted_by_shifted(final(v)@),
{
    let n = v.len();
    let mut out: Vec<TagProfile> = Vec::new();
    let mut i: usize = 0;
    proof {
        assert(spec_sort_run(Seq::empty(), v@, 0) == spec_sort_run(out@, v@, 0));
    }
    while i < n
        invariant
            i <= n,
            n == v@.len(),
            v@ == old(v)@,
            spec_sorted_by_shifted(out@),
            spec_sort_run(Seq::empty(), v@, 0) == spec_sort_run(out@, v@, i as int),
        decreases n - i,
    {
        let x = v[i];
        let mut p: usize = out.len();
        while p > 0 && sat_add_i64(out[p - 1].timestamp_us, out[p - 1].offset_us) > sat_add_i64(
            x.timestamp_us,
            x.offset_us,
        )
            invariant
                p <= out@.len(),
                spec_sorted_by_shifted(out@),
                forall|k: int|
                    p <= k < out@.len() ==> spec_shifted(#[trigger] out@[k]) > spec_shifted(x),
            decreases p,
        {
            p = p - 1;
        }
        proof {
            if p > 0 {
                assert(spec_shifted(out@[p - 1]) <= spec_shifted(x));
                assert(forall|k: int|
                    0 <= k < p ==> spec_shifted(#[trigger] out@[k]) <= spec_shifted(out@[p - 1]));
            }
            assert(forall|k: int|
                0 <= k < p ==> spec_shifted(#[trigger] out@[k]) <= spec_shifted(x));
            lemma_sort_insert_position(out@, x, p as int);
            lemma_sort_insert_sorted(out@, x);
        }
        let ghost oldout = out@;
        out.insert(p, x);
        proof {
            assert(out@ =~= oldout.subrange(0, p as int) + seq![x] + oldout.subrange(
                p as int,
                oldout.len() as int,
            ));
            assert(out@ == spec_sort_insert(oldout, x));
        }
        i = i + 1;
    }
    *v = out;
}


/// Start of the keyframe-delimited run that position `i` belongs to: the
/// nearest keyframe at or before `i`, or the start of the list.
pub open spec fn spec_run_start(v: Seq<TagProfile>, i: int) -> int
    decreases i,
{
    if i <= 0 {
        0
    } else if v[i].keyframe {
        i
    } else {
        spec_run_start(v, i - 1)
    }
}

/// Deletion closed over keyframe-delimited runs: a frame ends up deleted
/// exactly when some frame of its run was marked deleted.
pub open spec fn spec_gop_close(v: Seq<TagProfile>) -> Seq<TagProfile> {
    Seq::new(
        v.len(),
        |i: int|
            TagProfile {
                deleted: exists|k: int|
                    0 <= k < v.len() && spec_run_start(v, k) == spec_run_start(v, i)
                        && v[k].deleted,
                ..v[i]
            },
    )
}

proof fn lemma_run_start_le(v: Seq<TagProfile>, i: int)
    requires
        0 <= i,
    ensures
        0 <= spec_run_start(v, i) <= i,
    decreases i,
{
    if i > 0 && !v[i].keyframe {
        lemma_run_start_le(v, i - 1);
    }
}

proof fn lemma_run_start_between(v: Seq<TagProfile>, i: int, k: int)
    requires
        0 <= i,
        spec_run_start(v, i) <= k <= i,
    ensures
        spec_run_start(v, k) == spec_run_start(v, i),
    decreases i,
{
    lemma_run_start_le(v, i);
    if i > 0 && !v[i].keyframe && k < i {
        lemma_run_start_between(v, i - 1, k);
    }
}

/// Whether some frame of `i`'s run at or before `i` is deleted.
pub open spec fn spec_fwd_del(v: Seq<TagProfile>, i: int) -> bool {
    exists|k: int| spec_run_start(v, i) <= k <= i && v[k].deleted
}

/// Whether some frame of `i`'s run at or after `i` is deleted.
pub open spec fn spec_bwd_del(v: Seq<TagProfile>, i: int) -> bool {
    exists|k: int| i <= k < v.len() && spec_run_start(v, k) == spec_run_start(v, i) && v[k].deleted
}

proof fn lemma_fwd_char(v: Seq<TagProfile>, i: int)
    requires
        0 <= i < v.len(),
    ensures
        spec_fwd_del(v, i) == (v[i].deleted || (i > 0 && !v[i].keyframe && spec_fwd_del(v, i - 1))),
{
    lemma_run_start_le(v, i);
    if i > 0 && !v[i].keyframe {
        assert(spec_run_start(v, i) == spec_run_start(v, i - 1));
        if spec_fwd_del(v, i - 1) {
            let k = choose|k: int| spec_run_start(v, i - 1) <= k <= i - 1 && v[k].deleted;
            assert(spec_run_start(v, i) <= k <= i && v[k].deleted);
        }
        if v[i].deleted {
            assert(spec_run_start(v, i) <= i <= i && v[i].deleted);
        }
        if spec_fwd_del(v, i) {
            let k = choose|k: int| spec_run_start(v, i) <= k <= i && v[k].deleted;
            if k < i {
                assert(spec_run_start(v, i - 1) <= k <= i - 1 && v[k].deleted);
            }
        }
    } else {
        assert(spec_run_start(v, i) == i || i == 0);
        if v[i].deleted {
            assert(spec_run_start(v, i) <= i <= i && v[i].deleted);
        }
        if i > 0 && v[i].keyframe {
            if spec_fwd_del(v, i) {
                let k = choose|k: int| spec_run_start(v, i) <= k <= i && v[k].deleted;
                assert(k == i);
            }
        }
    }
}

proof fn lemma_run_start_ge_kf(v: Seq<TagProfile>, j: int, k: int)
    requires
        0 <= j <= k,
        v[j].keyframe || j == 0,
    ensures
        spec_run_start(v, k) >= j,
    decreases k,
{
    if k > j && !v[k].keyframe {
        lemma_run_start_ge_kf(v, j, k - 1);
    }
}

proof fn lemma_bwd_char(v: Seq<TagProfile>, i: int)
    requires
        0 <= i < v.len(),
    ensures
        spec_bwd_del(v, i) == (v[i].deleted || (i + 1 < v.len() && !v[i + 1].keyframe
            && spec_bwd_del(v, i + 1))),
{
    lemma_run_start_le(v, i);
    if v[i].deleted {
        assert(spec_run_start(v, i) == spec_run_start(v, i));
        assert(i <= i < v.len() && spec_run_start(v, i) == spec_run_start(v, i) && v[i].deleted);
    }
    if i + 1 < v.len() && !v[i + 1].keyframe {
        assert(spec_run_start(v, i + 1) == spec_run_start(v, i));
        if spec_bwd_del(v, i + 1) {
            let k = choose|k: int|
                i + 1 <= k < v.len() && spec_run_start(v, k) == spec_run_start(v, i + 1)
                    && v[k].deleted;
            assert(i <= k < v.len() && spec_run_start(v, k) == spec_run_start(v, i)
                && v[k].deleted);
        }
        if spec_bwd_del(v, i) {
            let k = choose|k: int|
                i <= k < v.len() && spec_run_start(v, k) == spec_run_start(v, i) && v[k].deleted;
            if k > i {
                assert(i + 1 <= k < v.len() && spec_run_start(v, k) == spec_run_start(v, i + 1)
                    && v[k].deleted);
            }
        }
    } else if i + 1 < v.len() && v[i + 1].keyframe {
        if spec_bwd_del(v, i) {
            let k = choose|k: int|
                i <= k < v.len() && spec_run_start(v, k) == spec_run_start(v, i) && v[k].deleted;
            if k > i {
                lemma_run_start_ge_kf(v, i + 1, k);
                assert(false);
            }
        }
    }
}

proof fn lemma_del_split(v: Seq<TagProfile>, i: int)
    requires
        0 <= i < v.len(),
    ensures
        (exists|k: int|
            0 <= k < v.len() && spec_run_start(v, k) == spec_run_start(v, i) && v[k].deleted)
            == (spec_fwd_del(v, i) || spec_bwd_del(v, i)),
{
    lemma_run_start_le(v, i);
    if spec_fwd_del(v, i) {
        let k = choose|k: int| spec_run_start(v, i) <= k <= i && v[k].deleted;
        lemma_run_start_between(v, i, k);
        assert(0 <= k < v.len() && spec_run_start(v, k) == spec_run_start(v, i) && v[k].deleted);
    }
    if exists|k: int|
        0 <= k < v.len() && spec_run_start(v, k) == spec_run_start(v, i) && v[k].deleted {
        let k = choose|k: int|
            0 <= k < v.len() && spec_run_start(v, k) == spec_run_start(v, i) && v[k].deleted;
        if k <= i {
            lemma_run_start_le(v, k);
            assert(spec_run_start(v, i) <= k <= i && v[k].deleted);
        } else {
            assert(i <= k < v.len() && spec_run_start(v, k) == spec_run_start(v, i)
                && v[k].deleted);
        }
    }
}

/// Close deletion over keyframe-delimited runs: when any frame of a run is
/// marked deleted, every frame of that run ends up deleted; no other frame
/// changes, and nothing but the deletion flag changes anywhere.
pub fn mark_gop_deletions(v_tags: &mut Vec<TagProfile>)
    ensures
        final(v_tags)@ == spec_gop_close(old(v_tags)@),
{
    let n = v_tags.len();
    let ghost v0 = v_tags@;
    let mut fwd: Vec<bool> = Vec::new();
    let mut i: usize = 0;
    while i < n
        invariant
            i <= n,
            n == v_tags@.len(),
            v_tags@ == v0,
            fwd@.len() == i,
            forall|k: int| 0 <= k < i ==> fwd@[k] == spec_fwd_del(v0, k),
        decreases n - i,
    {
        let item = v_tags[i];
        let prev: bool = if i > 0 && !item.keyframe {
            fwd[i - 1]
        } else {
            false
        };
        fwd.push(item.deleted || prev);
        proof {
            lemma_fwd_char(v0, i as int);
        }
        i = i + 1;
    }
    let mut bwd: Vec<bool> = Vec::new();
    let mut f: usize = 0;
    while f < n
        invariant
            f <= n,
            bwd@.len() == f,
        decreases n - f,
    {
        bwd.push(false);
        f = f + 1;
    }
    let mut c: usize = 0;
    while c < n
        invariant
            c <= n,
            n == v_tags@.len(),
            v_tags@ == v0,
            bwd@.len() == n,
            forall|k: int| n - c <= k < n ==> bwd@[k] == spec_bwd_del(v0, k),
        decreases n - c,
    {
        let i2 = n - 1 - c;
        let item = v_tags[i2];
        let nxt: bool = if i2 + 1 < n && !v_tags[i2 + 1].keyframe {
            bwd[i2 + 1]
        } else {
            false
        };
        bwd.set(i2, item.deleted || nxt);
        proof {
            lemma_bwd_char(v0, i2 as int);
        }
        c = c + 1;
    }
    let mut k: usize = 0;
    while k < n
        invariant
            k <= n,
            n == v_tags@.len(),
            n == v0.len(),
            fwd@.len() == n,
            bwd@.len() == n,
            forall|t: int| 0 <= t < n ==> fwd@[t] == spec_fwd_del(v0, t),
            forall|t: int| 0 <= t < n ==> bwd@[t] == spec_bwd_del(v0, t),
            forall|t: int| k <= t < n ==> v_tags@[t] == v0[t],
            forall|t: int| 0 <= t < k ==> v_tags@[t] == spec_gop_close(v0)[t],
        decreases n - k,
    {
        let mut item = v_tags[k];
        item.deleted = fwd[k] || bwd[k];
        v_tags.set(k, item);
        proof {
            lemma_del_split(v0, k as int);
        }
        k = k + 1;
    }
    proof {
        assert(final(v_tags)@ =~= spec_gop_close(v0));
    }
}

/// Deletion is atomic over keyframe-delimited runs: after the closing pass,
/// two frames of the same run always carry the same deletion flag, and a
/// frame marked deleted beforehand stays deleted.
pub proof fn lemma_gop_atomicity(v: Seq<TagProfile>, i: int, j: int)
    requires
        0 <= i < v.len(),
        0 <= j < v.len(),
        spec_run_start(v, i) == spec_run_start(v, j),
    ensures
        spec_gop_close(v)[i].deleted == spec_gop_close(v)[j].deleted,
        v[i].deleted ==> spec_gop_close(v)[i].deleted,
{
    assert(spec_gop_close(v)[i].deleted == (exists|k: int|
        0 <= k < v.len() && spec_run_start(v, k) == spec_run_start(v, i) && v[k].deleted));
    assert(spec_gop_close(v)[j].deleted == (exists|k: int|
        0 <= k < v.len() && spec_run_start(v, k) == spec_run_start(v, j) && v[k].deleted));
    if v[i].deleted {
        assert(0 <= i < v.len() && spec_run_start(v, i) == spec_run_start(v, i) && v[i].deleted);
    }
}

/// One bad frame fails its whole run: if any frame of a keyframe-delimited
/// run is marked deleted, every frame of that run ends up deleted.
pub proof fn lemma_gop_run_all_deleted(v: Seq<TagProfile>, i: int, j: int)
    requires
        0 <= i < v.len(),
        0 <= j < v.len(),
        spec_run_start(v, i) == spec_run_start(v, j),
        v[i].deleted,
    ensures
        spec_gop_close(v)[j].deleted,
{
    assert(0 <= i < v.len() && spec_run_start(v, i) == spec_run_start(v, j) && v[i].deleted);
}


/// A video-frame descriptor with the given shift recorded.
pub open spec fn spec_with_offset(p: TagProfile, off: int) -> TagProfile {
    TagProfile { offset_us: off as i64, ..p }
}

/// A descriptor marked deleted.
pub open spec fn spec_with_deleted(p: TagProfile) -> TagProfile {
    TagProfile { deleted: true, ..p }
}

/// Walk the shared video cursor over one audio gap: frames at or before the
/// gap's left edge keep the current shift, frames strictly inside the gap
/// are marked deleted, and the walk stops at the first frame at or past the
/// right edge.
pub open spec fn spec_gap_videos(v: Seq<TagProfile>, j: int, off: int, gl: int, gr: int) -> (
    Seq<TagProfile>,
    int,
)
    decreases v.len() - j,
{
    if j < 0 || j >= v.len() {
        (v, j)
    } else {
        let sh = sat_add(v[j].timestamp_us as int, off);
        if sh <= gl {
            spec_gap_videos(v.update(j, spec_with_offset(v[j], off)), j + 1, off, gl, gr)
        } else if sh < gr {
            spec_gap_videos(v.update(j, spec_with_deleted(v[j])), j + 1, off, gl, gr)
        } else {
            (v, j)
        }
    }
}

/// The frame-drop planning walk over the audio frames: on each gap beyond
/// the jitter allowance, place or delete video frames against the gap and
/// absorb the gap into the running shift; every audio frame records the
/// shift current after its step.
pub open spec fn spec_drop_scan(
    a: Seq<TagProfile>,
    v: Seq<TagProfile>,
    i: int,
    j: int,
    off: int,
    tm: int,
    dd: int,
) -> (Seq<TagProfile>, Seq<TagProfile>, int, int)
    decreases a.len() - i,
{
    if i < 0 || i >= a.len() {
        (a, v, j, off)
    } else {
        let at = a[i];
        let delta = sat_sub(sat_add(sat_add(tm, off), dd), sat_add(at.timestamp_us as int, off));
        if sat_abs(delta) > 1000 {
            let gl = sat_add(sat_add(tm, off), dd);
            let gr = sat_add(at.timestamp_us as int, off);
            let (v2, j2) = spec_gap_videos(v, j, off, gl, gr);
            let off2 = sat_add(off, delta);
            spec_drop_scan(
                a.update(i, spec_with_offset(at, off2)),
                v2,
                i + 1,
                j2,
                off2,
                at.timestamp_us as int,
                at.decode_duration_us as int,
            )
        } else {
            spec_drop_scan(
                a.update(i, spec_with_offset(at, off)),
                v,
                i + 1,
                j,
                off,
                at.timestamp_us as int,
                at.decode_duration_us as int,
            )
        }
    }
}

/// Give every video frame from `j` on the final shift.
pub open spec fn spec_tail_offsets(v: Seq<TagProfile>, j: int, off: int) -> Seq<TagProfile>
    decreases v.len() - j,
{
    if j < 0 || j >= v.len() {
        v
    } else {
        spec_tail_offsets(v.update(j, spec_with_offset(v[j], off)), j + 1, off)
    }
}

/// The frames that survive deletion, in order.
pub open spec fn spec_kept(v: Seq<TagProfile>, i: int) -> Seq<TagProfile>
    decreases v.len() - i,
{
    if i < 0 || i >= v.len() {
        Seq::empty()
    } else if v[i].deleted {
        spec_kept(v, i + 1)
    } else {
        seq![v[i]] + spec_kept(v, i + 1)
    }
}

/// The whole frame-drop plan: partition, the planning walk, the final shift
/// for the remaining video frames, deletion closed over runs, the surviving
/// frames re-ordered by shifted timestamp behind the verbatim records.
pub open spec fn spec_get_fix_info(s: Seq<TagProfile>) -> Seq<TagProfile> {
    let (c, v, a) = spec_partition(s, 0);
    let scan = spec_drop_scan(a, v, 0, 0, 0, 0, 0);
    let v3 = spec_tail_offsets(scan.1, scan.2, scan.3);
    let v4 = spec_gop_close(v3);
    let kept = spec_kept(v4, 0);
    let sorted = spec_sort_run(Seq::empty(), scan.0 + kept, 0);
    c + sorted
}

/// Plan the frame-drop repair: compute each record's shift, delete the video
/// frames that fall inside audio gaps (whole keyframe-delimited runs at a
/// time), and lay the stream out again in shifted-timestamp order behind the
/// verbatim records.
pub fn get_fix_info(info: Vec<TagProfile>) -> (r: Vec<TagProfile>)
    ensures
        r@ == spec_get_fix_info(info@),
{
    let (mut c_tags, mut v_tags, mut a_tags) = partition_tags(&info);
    let ghost a0 = a_tags@;
    let ghost v0 = v_tags@;
    let mut j: usize = 0;
    let mut timeline_offset: i64 = 0;
    let mut timeline_timestamp: i64 = 0;
    let mut timeline_decode_duration: i64 = 0;
    let an = a_tags.len();
    let mut i: usize = 0;
    while i < an
        invariant
            i <= an,
            an == a_tags@.len(),
            j <= v_tags@.len(),
            spec_drop_scan(a0, v0, 0, 0, 0, 0, 0) == spec_drop_scan(
                a_tags@,
                v_tags@,
                i as int,
                j as int,
                timeline_offset as int,
                timeline_timestamp as int,
                timeline_decode_duration as int,
            ),
        decreases an - i,
    {
        let at = a_tags[i];
        let delta = sat_sub_i64(
            sat_add_i64(sat_add_i64(timeline_timestamp, timeline_offset), timeline_decode_duration),
            sat_add_i64(at.timestamp_us, timeline_offset),
        );
        if sat_abs_i64(delta) > 1000 {
            let gap_left = sat_add_i64(
                sat_add_i64(timeline_timestamp, timeline_offset),
                timeline_decode_duration,
            );
            let gap_right = sat_add_i64(at.timestamp_us, timeline_offset);
            let ghost vg = v_tags@;
            let ghost jg = j as int;
            while j < v_tags.len()
                invariant_except_break
                    jg <= j as int <= v_tags@.len(),
                    v_tags@.len() == vg.len(),
                    spec_gap_videos(vg, jg, timeline_offset as int, gap_left as int, gap_right as int)
                        == spec_gap_videos(
                        v_tags@,
                        j as int,
                        timeline_offset as int,
                        gap_left as int,
                        gap_right as int,
                    ),
                ensures
                    spec_gap_videos(vg, jg, timeline_offset as int, gap_left as int, gap_right as int)
                        == (v_tags@, j as int),
                    j <= v_tags@.len(),
                    v_tags@.len() == vg.len(),
                decreases v_tags@.len() - j,
            {
                let vt = v_tags[j];
                let sh = sat_add_i64(vt.timestamp_us, timeline_offset);
                if sh <= gap_left {
                    let mut it = vt;
                    it.offset_us = timeline_offset;
                    v_tags.set(j, it);
                    j = j + 1;
                } else if sh < gap_right {
                    let mut it = vt;
                    it.deleted = true;
                    v_tags.set(j, it);
                    j = j + 1;
                } else {
                    break ;
                }
            }
            timeline_offset = sat_add_i64(timeline_offset, delta);
        }
        timeline_decode_duration = at.decode_duration_us;
        timeline_timestamp = at.timestamp_us;
        let mut it = at;
        it.offset_us = timeline_offset;
        a_tags.set(i, it);
        i = i + 1;
    }
    let ghost vt0 = v_tags@;
    let ghost jt0 = j as int;
    while j < v_tags.len()
        invariant
            jt0 <= j as int <= v_tags@.len(),
            v_tags@.len() == vt0.len(),
            spec_tail_offsets(vt0, jt0, timeline_offset as int) == spec_tail_offsets(
                v_tags@,
                j as int,
                timeline_offset as int,
            ),
        decreases v_tags@.len() - j,
    {
        let vt = v_tags[j];
        let mut it = vt;
        it.offset_us = timeline_offset;
        v_tags.set(j, it);
        j = j + 1;
    }
    mark_gop_deletions(&mut v_tags);
    let mut new_profiles: Vec<TagProfile> = Vec::new();
    let mut k: usize = 0;
    let aln = a_tags.len();
    while k < aln
        invariant
            k <= aln,
            aln == a_tags@.len(),
            new_profiles@ =~= a_tags@.subrange(0, k as int),
        decreases aln - k,
    {
        new_profiles.push(a_tags[k]);
        proof {
            assert(new_profiles@ =~= a_tags@.subrange(0, k + 1));
        }
        k = k + 1;
    }
    proof {
        assert(a_tags@.subrange(0, aln as int) =~= a_tags@);
    }
    let ghost vk = v_tags@;
    let vn = v_tags.len();
    let mut k2: usize = 0;
    while k2 < vn
        invariant
            k2 <= vn,
            vn == v_tags@.len(),
            v_tags@ == vk,
            new_profiles@ == a_tags@ + spec_kept_prefix(vk, k2 as int),
            spec_kept(vk, 0) == spec_kept_prefix(vk, k2 as int) + spec_kept(vk, k2 as int),
        decreases vn - k2,
    {
        let vt = v_tags[k2];
        if !vt.deleted {
            new_profiles.push(vt);
        }
        proof {
            lemma_kept_prefix_step(vk, k2 as int);
            if !vk[k2 as int].deleted {
                assert(a_tags@ + spec_kept_prefix(vk, k2 as int) + seq![vk[k2 as int]] =~= a_tags@
                    + spec_kept_prefix(vk, k2 + 1));
            }
        }
        k2 = k2 + 1;
    }
    proof {
        assert(spec_kept(vk, vn as int) =~= Seq::<TagProfile>::empty());
        assert(spec_kept_prefix(vk, vn as int) + Seq::<TagProfile>::empty() =~= spec_kept_prefix(
            vk,
            vn as int,
        ));
        assert(new_profiles@ == a_tags@ + spec_kept(vk, 0));
    }
    sort_by_shifted(&mut new_profiles);
    let mut result = c_tags;
    let ghost c0 = result@;
    let ghost np0 = new_profiles@;
    let npn = new_profiles.len();
    let mut k3: usize = 0;
    while k3 < npn
        invariant
            k3 <= npn,
            npn == new_profiles@.len(),
            new_profiles@ == np0,
            result@ =~= c0 + np0.subrange(0, k3 as int),
        decreases npn - k3,
    {
        result.push(new_profiles[k3]);
        proof {
            assert(result@ =~= c0 + np0.subrange(0, k3 + 1));
        }
        k3 = k3 + 1;
    }
    proof {
        assert(np0.subrange(0, npn as int) =~= np0);
    }
    result
}

/// The surviving frames among the first `i`.
pub open spec fn spec_kept_prefix(v: Seq<TagProfile>, i: int) -> Seq<TagProfile>
    decreases i,
{
    if i <= 0 || i > v.len() {
        Seq::empty()
    } else if v[i - 1].deleted {
        spec_kept_prefix(v, i - 1)
    } else {
        spec_kept_prefix(v, i - 1).push(v[i - 1])
    }
}

proof fn lemma_kept_prefix_step(v: Seq<TagProfile>, i: int)
    requires
        0 <= i < v.len(),
        spec_kept(v, 0) == spec_kept_prefix(v, i) + spec_kept(v, i),
    ensures
        spec_kept(v, 0) == spec_kept_prefix(v, i + 1) + spec_kept(v, i + 1),
{
    if v[i].deleted {
        assert(spec_kept(v, i) == spec_kept(v, i + 1));
        assert(spec_kept_prefix(v, i + 1) == spec_kept_prefix(v, i));
    } else {
        assert(spec_kept(v, i) == seq![v[i]] + spec_kept(v, i + 1));
        assert(spec_kept_prefix(v, i + 1) == spec_kept_prefix(v, i).push(v[i]));
        assert(spec_kept_prefix(v, i) + (seq![v[i]] + spec_kept(v, i + 1)) =~= spec_kept_prefix(
            v,
            i,
        ).push(v[i]) + spec_kept(v, i + 1));
    }
}


/// Clamped gap width, the termination measure of the fill walks.
pub open spec fn spec_gap_measure(gl: int, gr: int) -> int {
    if gr - gl > 0 {
        gr - gl
    } else {
        0
    }
}

/// Fill silence until the left edge reaches or passes the right edge.
pub open spec fn spec_fill_until(b: Seq<TagProfile>, gl: int, gr: int, mute: TagProfile) -> (
    Seq<TagProfile>,
    int,
)
    decreases spec_gap_measure(gl, gr),
{
    let dd = mute.decode_duration_us as int;
    if dd < 1 || gr <= gl || gr > 0x7fffffffffffffff {
        (b, gl)
    } else {
        spec_fill_until(
            b.push(TagProfile { timestamp_us: gl as i64, ..mute }),
            sat_add(gl, dd),
            gr,
            mute,
        )
    }
}

/// Fill whole silent frames while they fit into the gap; a remainder smaller
/// than one frame stays unresolved.
pub open spec fn spec_fill_gap(b: Seq<TagProfile>, gl: int, gr: int, mute: TagProfile) -> (
    Seq<TagProfile>,
    int,
)
    decreases spec_gap_measure(gl, gr),
{
    let dd = mute.decode_duration_us as int;
    if dd < 1 || gr - gl < dd || gr > 0x7fffffffffffffff {
        (b, gl)
    } else {
        spec_fill_gap(
            b.push(TagProfile { timestamp_us: gl as i64, ..mute }),
            sat_add(gl, dd),
            gr,
            mute,
        )
    }
}

/// Let accumulated small overlaps pay for whole silent frames.
pub open spec fn spec_fill_acc(b: Seq<TagProfile>, gl: int, acc: int, mute: TagProfile) -> (
    Seq<TagProfile>,
    int,
    int,
)
    decreases
            (if acc > 0 {
                acc
            } else {
                0
            }),
{
    let dd = mute.decode_duration_us as int;
    if dd < 1 || acc < dd {
        (b, gl, acc)
    } else {
        spec_fill_acc(
            b.push(TagProfile { timestamp_us: gl as i64, ..mute }),
            sat_add(gl, dd),
            sat_sub(acc, dd),
            mute,
        )
    }
}

/// Advance the video cursor, tagging frames up to the filled left edge with
/// the current shift.
pub open spec fn spec_offset_videos(v: Seq<TagProfile>, j: int, off: int, gl: int) -> (
    Seq<TagProfile>,
    int,
)
    decreases v.len() - j,
{
    if j < 0 || j >= v.len() {
        (v, j)
    } else if sat_add(v[j].timestamp_us as int, off) <= gl {
        spec_offset_videos(v.update(j, spec_with_offset(v[j], off)), j + 1, off, gl)
    } else {
        (v, j)
    }
}

/// The silence-insertion planning walk over the audio frames.
pub open spec fn spec_fill_scan(
    a: Seq<TagProfile>,
    v: Seq<TagProfile>,
    b: Seq<TagProfile>,
    i: int,
    j: int,
    off: int,
    tm: int,
    dd: int,
    acc: int,
    mute: TagProfile,
    offset_mode: bool,
) -> (Seq<TagProfile>, Seq<TagProfile>, Seq<TagProfile>, int, int)
    decreases a.len() - i,
{
    if i < 0 || i >= a.len() {
        (a, v, b, j, off)
    } else {
        let at = a[i];
        let delta = sat_sub(sat_add(sat_add(tm, off), dd), sat_add(at.timestamp_us as int, off));
        if sat_abs(delta) > 1000 {
            let gl = sat_add(sat_add(tm, off), dd);
            let gr = sat_add(at.timestamp_us as int, off);
            if offset_mode {
                let (b2, gl2) = spec_fill_until(b, gl, gr, mute);
                let (v2, j2) = spec_offset_videos(v, j, off, gl2);
                let off2 = sat_add(off, sat_sub(gl2, gr));
                spec_fill_scan(
                    a.update(i, spec_with_offset(at, off2)),
                    v2,
                    b2,
                    i + 1,
                    j2,
                    off2,
                    at.timestamp_us as int,
                    at.decode_duration_us as int,
                    acc,
                    mute,
                    offset_mode,
                )
            } else {
                let (b2, gl2) = if gr > gl {
                    spec_fill_gap(b, gl, gr, mute)
                } else {
                    (b, gl)
                };
                let acc2 = sat_add(acc, sat_sub(gr, gl2));
                let (b3, gl3, acc3) = spec_fill_acc(b2, gl2, acc2, mute);
                spec_fill_scan(
                    a.update(i, spec_with_offset(at, off)),
                    v,
                    b3,
                    i + 1,
                    j,
                    off,
                    at.timestamp_us as int,
                    at.decode_duration_us as int,
                    acc3,
                    mute,
                    offset_mode,
                )
            }
        } else {
            spec_fill_scan(
                a.update(i, spec_with_offset(at, off)),
                v,
                b,
                i + 1,
                j,
                off,
                at.timestamp_us as int,
                at.decode_duration_us as int,
                acc,
                mute,
                offset_mode,
            )
        }
    }
}

/// Mark the re-anchor points: each video frame whose presentation timestamp
/// is the largest seen so far; the mark is carried in the deletion flag,
/// which this strategy never uses for deletion.
pub open spec fn spec_mark_anchors(v: Seq<TagProfile>, i: int, max_pts: int) -> Seq<TagProfile>
    decreases v.len() - i,
{
    if i < 0 || i >= v.len() {
        v
    } else if v[i].decode_duration_us > max_pts {
        spec_mark_anchors(
            v.update(i, spec_with_deleted(v[i])),
            i + 1,
            v[i].decode_duration_us as int,
        )
    } else {
        spec_mark_anchors(v, i + 1, max_pts)
    }
}

/// Hold every shift change back until the next re-anchor point, so a change
/// never lands inside an out-of-order prediction window.
pub open spec fn spec_apply_delay(
    v: Seq<TagProfile>,
    i: int,
    last_offset: int,
    delay: Option<int>,
) -> Seq<TagProfile>
    decreases v.len() - i,
{
    if i < 0 || i >= v.len() {
        v
    } else {
        let it = v[i];
        let delay2 = if it.offset_us as int != last_offset {
            Some(it.offset_us as int)
        } else {
            delay
        };
        if it.deleted {
            match delay2 {
                Some(d) => spec_apply_delay(
                    v.update(i, spec_with_offset(it, d)),
                    i + 1,
                    d,
                    None,
                ),
                None => spec_apply_delay(v, i + 1, last_offset, None),
            }
        } else {
            match delay2 {
                Some(d) => spec_apply_delay(
                    v.update(i, spec_with_offset(it, last_offset)),
                    i + 1,
                    last_offset,
                    Some(d),
                ),
                None => spec_apply_delay(v, i + 1, last_offset, None),
            }
        }
    }
}

/// The whole silence-insertion plan.
pub open spec fn spec_get_fix_info2(s: Seq<TagProfile>, mute: TagProfile, offset_mode: bool) -> Seq<
    TagProfile,
> {
    let (c, v, a) = spec_partition(s, 0);
    let scan = spec_fill_scan(a, v, Seq::empty(), 0, 0, 0, 0, 0, 0, mute, offset_mode);
    let v3 = spec_tail_offsets(scan.1, scan.3, scan.4);
    let v4 = if offset_mode {
        spec_apply_delay(spec_mark_anchors(v3, 0, -1), 0, 0, None)
    } else {
        v3
    };
    let sorted = spec_sort_run(Seq::empty(), scan.0 + scan.2 + v4, 0);
    c + sorted
}

/// Plan the silence-insertion repair: synthesize silent audio frames into
/// gaps (and, in offset mode, absorb the residual shortfall into a permanent
/// shift applied from the next safe re-anchor point on), then lay the stream
/// out again in shifted-timestamp order behind the verbatim records.
pub fn get_fix_info2(info: Vec<TagProfile>, mute_tag: TagProfile, offset_mode: bool) -> (r: Vec<
    TagProfile,
>)
    requires
        mute_tag.decode_duration_us >= 1,
    ensures
        r@ == spec_get_fix_info2(info@, mute_tag, offset_mode),
{
    let (mut c_tags, mut v_tags, mut a_tags) = partition_tags(&info);
    let ghost a0 = a_tags@;
    let ghost v0 = v_tags@;
    let mut b_tags: Vec<TagProfile> = Vec::new();
    let mute_tag_dd_us: i64 = mute_tag.decode_duration_us;
    let mut j: usize = 0;
    let mut timeline_offset_us: i64 = 0;
    let mut timeline_timestamp_us: i64 = 0;
    let mut timeline_decode_duration_us: i64 = 0;
    let mut delta_acc: i64 = 0;
    let an = a_tags.len();
    let mut i: usize = 0;
    while i < an
        invariant
            i <= an,
            an == a_tags@.len(),
            j <= v_tags@.len(),
            mute_tag.decode_duration_us >= 1,
            mute_tag_dd_us == mute_tag.decode_duration_us,
            spec_fill_scan(a0, v0, Seq::empty(), 0, 0, 0, 0, 0, 0, mute_tag, offset_mode)
                == spec_fill_scan(
                a_tags@,
                v_tags@,
                b_tags@,
                i as int,
                j as int,
                timeline_offset_us as int,
                timeline_timestamp_us as int,
                timeline_decode_duration_us as int,
                delta_acc as int,
                mute_tag,
                offset_mode,
            ),
        decreases an - i,
    {
        let at = a_tags[i];
        let delta = sat_sub_i64(
            sat_add_i64(
                sat_add_i64(timeline_timestamp_us, timeline_offset_us),
                timeline_decode_duration_us,
            ),
            sat_add_i64(at.timestamp_us, timeline_offset_us),
        );
        if sat_abs_i64(delta) > 1000 {
            let mut gap_left_us = sat_add_i64(
                sat_add_i64(timeline_timestamp_us, timeline_offset_us),
                timeline_decode_duration_us,
            );
            let gap_right_us = sat_add_i64(at.timestamp_us, timeline_offset_us);
            if offset_mode {
                let ghost bg = b_tags@;
                let ghost glg = gap_left_us as int;
                while gap_right_us > gap_left_us
                    invariant
                        mute_tag_dd_us == mute_tag.decode_duration_us,
                        mute_tag.decode_duration_us >= 1,
                        spec_fill_until(bg, glg, gap_right_us as int, mute_tag) == spec_fill_until(
                            b_tags@,
                            gap_left_us as int,
                            gap_right_us as int,
                            mute_tag,
                        ),
                    decreases spec_gap_measure(gap_left_us as int, gap_right_us as int),
                {
                    let mut m = mute_tag;
                    m.timestamp_us = gap_left_us;
                    b_tags.push(m);
                    let old_gl = gap_left_us;
                    gap_left_us = sat_add_i64(gap_left_us, mute_tag_dd_us);
                    proof {
                        if gap_left_us == old_gl {
                            assert(old_gl == i64::MAX);
                            assert(false);
                        }
                    }
                }
                let ghost vg = v_tags@;
                let ghost jg = j as int;
                while j < v_tags.len() && sat_add_i64(v_tags[j].timestamp_us, timeline_offset_us)
                    <= gap_left_us
                    invariant
                        jg <= j as int <= v_tags@.len(),
                        v_tags@.len() == vg.len(),
                        spec_offset_videos(vg, jg, timeline_offset_us as int, gap_left_us as int)
                            == spec_offset_videos(
                            v_tags@,
                            j as int,
                            timeline_offset_us as int,
                            gap_left_us as int,
                        ),
                    decreases v_tags@.len() - j,
                {
                    let vt = v_tags[j];
                    let mut it = vt;
                    it.offset_us = timeline_offset_us;
                    v_tags.set(j, it);
                    j = j + 1;
                }
                timeline_offset_us = sat_add_i64(
                    timeline_offset_us,
                    sat_sub_i64(gap_left_us, gap_right_us),
                );
            } else {
                if gap_right_us > gap_left_us {
                    let ghost bg = b_tags@;
                    let ghost glg = gap_left_us as int;
                    while sat_sub_i64(gap_right_us, gap_left_us) >= mute_tag_dd_us
                        invariant
                            mute_tag_dd_us == mute_tag.decode_duration_us,
                            mute_tag.decode_duration_us >= 1,
                            gap_left_us <= gap_right_us,
                            spec_fill_gap(bg, glg, gap_right_us as int, mute_tag)
                                == spec_fill_gap(
                                b_tags@,
                                gap_left_us as int,
                                gap_right_us as int,
                                mute_tag,
                            ),
                        decreases spec_gap_measure(gap_left_us as int, gap_right_us as int),
                    {
                        let mut m = mute_tag;
                        m.timestamp_us = gap_left_us;
                        b_tags.push(m);
                        let old_gl = gap_left_us;
                        gap_left_us = sat_add_i64(gap_left_us, mute_tag_dd_us);
                        proof {
                            if gap_left_us == old_gl {
                                assert(old_gl == i64::MAX);
                                assert(false);
                            }
                        }
                    }
                }
                delta_acc = sat_add_i64(delta_acc, sat_sub_i64(gap_right_us, gap_left_us));
                let ghost bg2 = b_tags@;
                let ghost glg2 = gap_left_us as int;
                let ghost accg = delta_acc as int;
                while delta_acc >= mute_tag_dd_us
                    invariant
                        mute_tag_dd_us == mute_tag.decode_duration_us,
                        mute_tag.decode_duration_us >= 1,
                        spec_fill_acc(bg2, glg2, accg, mute_tag) == spec_fill_acc(
                            b_tags@,
                            gap_left_us as int,
                            delta_acc as int,
                            mute_tag,
                        ),
                    decreases delta_acc,
                {
                    let mut m = mute_tag;
                    m.timestamp_us = gap_left_us;
                    b_tags.push(m);
                    gap_left_us = sat_add_i64(gap_left_us, mute_tag_dd_us);
                    delta_acc = sat_sub_i64(delta_acc, mute_tag_dd_us);
                }
            }
        }
        timeline_decode_duration_us = at.decode_duration_us;
        timeline_timestamp_us = at.timestamp_us;
        let mut it = at;
        it.offset_us = timeline_offset_us;
        a_tags.set(i, it);
        i = i + 1;
    }
    let ghost vt0 = v_tags@;
    let ghost jt0 = j as int;
    while j < v_tags.len()
        invariant
            jt0 <= j as int <= v_tags@.len(),
            v_tags@.len() == vt0.len(),
            spec_tail_offsets(vt0, jt0, timeline_offset_us as int) == spec_tail_offsets(
                v_tags@,
                j as int,
                timeline_offset_us as int,
            ),
        decreases v_tags@.len() - j,
    {
        let vt = v_tags[j];
        let mut it = vt;
        it.offset_us = timeline_offset_us;
        v_tags.set(j, it);
        j = j + 1;
    }
    if offset_mode {
        let ghost va0 = v_tags@;
        let mut max_pts: i64 = -1;
        let vn = v_tags.len();
        let mut k: usize = 0;
        while k < vn
            invariant
                k <= vn,
                vn == v_tags@.len(),
                spec_mark_anchors(va0, 0, -1) == spec_mark_anchors(
                    v_tags@,
                    k as int,
                    max_pts as int,
                ),
            decreases vn - k,
        {
            let it = v_tags[k];
            if it.decode_duration_us > max_pts {
                let mut m = it;
                m.deleted = true;
                v_tags.set(k, m);
                max_pts = it.decode_duration_us;
            }
            k = k + 1;
        }
        let ghost vb0 = v_tags@;
        let mut last_offset: i64 = 0;
        let mut delay_offset: Option<i64> = None;
        let mut k2: usize = 0;
        while k2 < vn
            invariant
                k2 <= vn,
                vn == v_tags@.len(),
                spec_apply_delay(vb0, 0, 0, None) == spec_apply_delay(
                    v_tags@,
                    k2 as int,
                    last_offset as int,
                    match delay_offset {
                        Some(d) => Some(d as int),
                        None => None,
                    },
                ),
            decreases vn - k2,
        {
            let it = v_tags[k2];
            if it.offset_us != last_offset {
                delay_offset = Some(it.offset_us);
            }
            if it.deleted {
                match delay_offset {
                    Some(d) => {
                        let mut m = it;
                        m.offset_us = d;
                        v_tags.set(k2, m);
                        last_offset = d;
                        delay_offset = None;
                    },
                    None => {},
                }
            } else {
                match delay_offset {
                    Some(_) => {
                        let mut m = it;
                        m.offset_us = last_offset;
                        v_tags.set(k2, m);
                    },
                    None => {},
                }
            }
            k2 = k2 + 1;
        }
    }
    let mut new_profiles: Vec<TagProfile> = Vec::new();
    append_all(&mut new_profiles, &a_tags);
    append_all(&mut new_profiles, &b_tags);
    append_all(&mut new_profiles, &v_tags);
    sort_by_shifted(&mut new_profiles);
    let mut result = c_tags;
    append_all(&mut result, &new_profiles);
    result
}

/// Append a copy of every record of `src` to `dst`.
fn append_all(dst: &mut Vec<TagProfile>, src: &Vec<TagProfile>)
    ensures
        final(dst)@ == old(dst)@ + src@,
{
    let n = src.len();
    let mut i: usize = 0;
    while i < n
        invariant
            i <= n,
            n == src@.len(),
            dst@ =~= old(dst)@ + src@.subrange(0, i as int),
        decreases n - i,
    {
        dst.push(src[i]);
        proof {
            assert(dst@ =~= old(dst)@ + src@.subrange(0, i + 1));
        }
        i = i + 1;
    }
    proof {
        assert(src@.subrange(0, n as int) =~= src@);
        assert(final(dst)@ =~= old(dst)@ + src@);
    }
}

} // verus!
