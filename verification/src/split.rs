//! Segment-point computation for splitting a recording into parts of a
//! given length: walk the keyframe index, and at each elapsed segment pick
//! the nearby keyframe whose audio is closest, searching a bounded window.
use vstd::prelude::*;

verus! {

/// Distance between two unsigned values.
pub open spec fn spec_delta(v1: u64, v2: u64) -> int {
    if v1 >= v2 {
        v1 - v2
    } else {
        v2 - v1
    }
}

/// Distance between two unsigned values.
pub fn delta(v1: u64, v2: u64) -> (r: u64)
    ensures
        r == spec_delta(v1, v2),
{
    if v1 >= v2 {
        v1 - v2
    } else {
        v2 - v1
    }
}

/// A 64-bit wrap of a value known to be within one period.
pub open spec fn spec_wrap64(x: int) -> u64
    recommends
        -0x10000000000000000 < x < 0x10000000000000000,
{
    if x >= 0 {
        (x % 0x10000000000000000) as u64
    } else {
        (x + 0x10000000000000000) as u64
    }
}

/// Search the window from `j`: the smallest audio distance seen and the
/// index carrying it. The walk stops at the end of the index, at a perfect
/// match, or at the first keyframe past the window.
pub open spec fn spec_split_window(
    infos: Seq<(u64, u64, u64)>,
    t: u64,
    win_seconds: u64,
    j: int,
    cd: u64,
    ci: int,
) -> (u64, int)
    decreases infos.len() - j,
{
    if j < 0 || j >= infos.len() || cd == 0 || infos[j].0 - t > win_seconds * 1000 {
        (cd, ci)
    } else if infos[j].1 < cd {
        spec_split_window(infos, t, win_seconds, j + 1, infos[j].1, j)
    } else {
        spec_split_window(infos, t, win_seconds, j + 1, cd, ci)
    }
}

/// The main walk: at each keyframe past the next segment boundary, pick the
/// best split point in the window, close the running part's record count,
/// and open the next part.
pub open spec fn spec_split_loop(
    infos: Seq<(u64, u64, u64)>,
    min: u64,
    win_seconds: u64,
    i: int,
    vec: Seq<(u64, u64, u64, u64)>,
    acc: int,
    item_acc: int,
) -> (Seq<(u64, u64, u64, u64)>, int, int)
    decreases infos.len() - i,
{
    if i < 0 || i >= infos.len() || acc < 1 || acc > vec.len() {
        (vec, acc, item_acc)
    } else {
        let t = infos[i].0;
        if t > acc * (min * 60 * 1000) {
            let (cd, ci) = spec_split_window(infos, t, win_seconds, i, infos[i].1, i);
            let vec2 = vec.push((infos[ci].0, infos[ci].2, 0u64, cd));
            let closed = vec2[acc - 1];
            let vec3 = vec2.update(
                acc - 1,
                (closed.0, closed.1, spec_wrap64(item_acc + (ci - i)), closed.3),
            );
            spec_split_loop(infos, min, win_seconds, i + 1, vec3, acc + 1, 0 - (ci - i) + 1)
        } else {
            spec_split_loop(infos, min, win_seconds, i + 1, vec, acc, item_acc + 1)
        }
    }
}

/// The split points of a recording: timestamp, byte position, number of
/// index records in the part, and the audio distance at the cut. A final
/// part shorter than half a segment is merged into the one before it.
pub open spec fn spec_split_flv_by_min(
    infos: Seq<(u64, u64, u64)>,
    min: u64,
    win_seconds: u64,
) -> Seq<(u64, u64, u64, u64)> {
    let init = seq![(infos[1].0, infos[1].2, 0u64, 0u64)];
    let (vec, acc, item_acc) = spec_split_loop(infos, min, win_seconds, 0, init, 1, -1);
    let closed = vec[acc - 1];
    let vec2 = vec.update(acc - 1, (closed.0, closed.1, spec_wrap64(item_acc), closed.3));
    let last_t = infos[infos.len() - 1].0;
    let last_result_t = vec2[vec2.len() - 1].0;
    if last_t - last_result_t < min * 60 * 1000 / 2 {
        let n = vec2[vec2.len() - 1].2;
        let dropped = vec2.drop_last();
        let kept = dropped[acc - 2];
        dropped.update(acc - 2, (kept.0, kept.1, spec_wrap64(kept.2 + n), kept.3))
    } else {
        vec2
    }
}

/// Compute the split points of a recording from its keyframe index
/// (timestamp, audio distance, byte position), one part per `min` minutes,
/// searching up to `win_seconds` past each boundary for the cut whose audio
/// lies closest to its keyframe.
pub fn split_flv_by_min(infos: &Vec<(u64, u64, u64)>, min: u64, win_seconds: u64) -> (r: Vec<
    (u64, u64, u64, u64),
>)
    requires
        infos@.len() >= 2,
        infos@.len() < 0x40000000,
        infos@[0].0 == 0,
        infos@[1].0 == 0,
        forall|a: int, b: int|
            0 <= a < b < infos@.len() ==> (#[trigger] infos@[a]).0 <= (#[trigger] infos@[b]).0,
        (infos@.len() + 1) * ((min as int) * 60 * 1000) < 0x10000000000000000,
        (win_seconds as int) * 1000 < 0x10000000000000000,
        infos@[infos@.len() - 1].0 >= (min as int) * 60 * 1000 / 2,
    ensures
        r@ == spec_split_flv_by_min(infos@, min, win_seconds),
{
    let n = infos.len();
    let mut vec: Vec<(u64, u64, u64, u64)> = Vec::new();
    let mut acc: usize = 1;
    let mut item_acc: i64 = -1;
    let f_time = infos[1].0;
    let f_pos = infos[1].2;
    vec.push((f_time, f_pos, 0, 0));
    let ghost init = vec@;
    proof {
        vstd::arithmetic::mul::lemma_mul_inequality(3, n as int + 1, (min as int) * 60 * 1000);
        assert((n as int + 1) * ((min as int) * 60 * 1000) >= 3 * ((min as int) * 60 * 1000));
    }
    let seg: u64 = min * 60 * 1000;
    let last_time = infos[n - 1].0;
    let mut i: usize = 0;
    while i < n
        invariant
            i <= n,
            n == infos@.len(),
            n >= 2,
            n < 0x40000000,
            forall|a: int, b: int|
                0 <= a < b < n ==> (#[trigger] infos@[a]).0 <= (#[trigger] infos@[b]).0,
            (n + 1) * ((min as int) * 60 * 1000) < 0x10000000000000000,
            (win_seconds as int) * 1000 < 0x10000000000000000,
            seg == (min as int) * 60 * 1000,
            last_time == infos@[n - 1].0,
            1 <= acc <= i + 1,
            acc == vec@.len(),
            -(n as int) <= item_acc <= i + 1,
            forall|k: int| 0 <= k < vec@.len() ==> (#[trigger] vec@[k]).0 <= last_time,
            vec@[0].0 == infos@[1].0,
            spec_split_loop(infos@, min, win_seconds, 0, init, 1, -1) == spec_split_loop(
                infos@,
                min,
                win_seconds,
                i as int,
                vec@,
                acc as int,
                item_acc as int,
            ),
        decreases n - i,
    {
        let t = infos[i].0;
        proof {
            vstd::arithmetic::mul::lemma_mul_inequality(acc as int, n as int + 1, seg as int);
        }
        if t > (acc as u64) * seg {
            let mut current_delta = infos[i].1;
            let mut current_index: usize = i;
            let mut j: usize = i;
            while j < n && current_delta != 0 && infos[j].0 - t <= win_seconds * 1000
                invariant
                    i <= j <= n,
                    i < n,
                    i <= current_index < n,
                    n == infos@.len(),
                    t == infos@[i as int].0,
                    forall|a: int, b: int|
                        0 <= a < b < n ==> (#[trigger] infos@[a]).0 <= (#[trigger] infos@[b]).0,
                    (win_seconds as int) * 1000 < 0x10000000000000000,
                    spec_split_window(
                        infos@,
                        t,
                        win_seconds,
                        i as int,
                        infos@[i as int].1,
                        i as int,
                    ) == spec_split_window(
                        infos@,
                        t,
                        win_seconds,
                        j as int,
                        current_delta,
                        current_index as int,
                    ),
                decreases n - j,
            {
                if infos[j].1 < current_delta {
                    current_delta = infos[j].1;
                    current_index = j;
                }
                j = j + 1;
            }
            let (t2, _, p) = infos[current_index];
            let ghost oldvec = vec@;
            vec.push((t2, p, 0, current_delta));
            let closed = vec[acc - 1];
            let stored = (#[verifier::truncate] (item_acc as u64)).wrapping_add(
                (current_index - i) as u64,
            );
            proof {
                let x = item_acc + (current_index - i) as int;
                let a = (#[verifier::truncate] (item_acc as u64)) as int;
                let d = (current_index - i) as int;
                if item_acc >= 0 {
                    assert(a == item_acc);
                    assert(a + d < 0x10000000000000000);
                    assert(stored == spec_wrap64(x));
                } else {
                    let ia = item_acc;
                    assert((ia as u64) as int == ia + 0x10000000000000000) by (bit_vector)
                        requires
                            ia < 0,
                    ;
                    assert(a == item_acc + 0x10000000000000000);
                    if x >= 0 {
                        assert(stored == spec_wrap64(x));
                    } else {
                        assert(a + d < 0x10000000000000000);
                        assert(stored == spec_wrap64(x));
                    }
                }
            }
            vec.set(acc - 1, (closed.0, closed.1, stored, closed.3));
            acc = acc + 1;
            item_acc = 0 - ((current_index - i) as i64);
        }
        item_acc = item_acc + 1;
        i = i + 1;
    }
    let closed = vec[acc - 1];
    let stored = #[verifier::truncate] (item_acc as u64);
    proof {
        if item_acc >= 0 {
            assert(stored == spec_wrap64(item_acc as int));
        } else {
            let ia = item_acc;
            assert((ia as u64) as int == ia + 0x10000000000000000) by (bit_vector)
                requires
                    ia < 0,
            ;
            assert(stored == spec_wrap64(item_acc as int));
        }
    }
    vec.set(acc - 1, (closed.0, closed.1, stored, closed.3));
    let last_result_t = vec[vec.len() - 1].0;
    if last_time - last_result_t < min * 60 * 1000 / 2 {
        let popped = match vec.pop() {
            Some(e) => e,
            None => {
                return vec;
            },
        };
        proof {
            if acc < 2 {
                assert(vec@.len() == 0);
                assert(false);
            }
        }
        let kept = vec[acc - 2];
        vec.set(acc - 2, (kept.0, kept.1, kept.2.wrapping_add(popped.2), kept.3));
    }
    vec
}

} // verus!
