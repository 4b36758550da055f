//! The timeline: tracks of clips, a playhead, and the editing operations on them.
use vstd::prelude::*;
use crate::time::TimeCode;
use crate::clip::Clip;
use crate::track::{
    Track, TrackKind, clips_fit, clips_split_ready, latest_end, split_step_by, lemma_split_step_next,
};
use crate::sorting::{by_time, sort_by_key};

verus! {

/// The clip with its selection flag cleared.
pub open spec fn deselected<X>(c: Clip<X>) -> Clip<X> {
    Clip { is_selected: false, ..c }
}

/// `t` is a new empty track with the given id, name and kind.
pub open spec fn is_new_track<X>(t: Track<X>, id: u64, name: String, kind: TrackKind) -> bool {
    &&& t.id == id
    &&& t.name == name
    &&& t.kind == kind
    &&& t.clips@ == Seq::<Clip<X>>::empty()
    &&& !t.is_muted
    &&& !t.is_solo
    &&& !t.is_locked
    &&& t.volume == crate::envelope::UNITY_GAIN
}

/// `i` is the first track of `s` with id `id`.
pub open spec fn first_track_with_id<X>(s: Seq<Track<X>>, id: u64, i: int) -> bool {
    &&& 0 <= i < s.len()
    &&& s[i].id == id
    &&& forall|j: int| 0 <= j < i ==> (#[trigger] s[j]).id != id
}

/// No track of `s` has id `id`.
pub open spec fn no_track_with_id<X>(s: Seq<Track<X>>, id: u64) -> bool {
    forall|j: int| 0 <= j < s.len() ==> (#[trigger] s[j]).id != id
}

/// Every clip on every track of `s` has a trim length and an end that fit in an `i64`.
pub open spec fn tracks_fit<X>(s: Seq<Track<X>>) -> bool {
    forall|k: int| 0 <= k < s.len() ==> clips_fit((#[trigger] s[k]).clips@)
}

/// The latest clip end over all tracks of `s` (zero when there are no tracks).
pub open spec fn longest_track<X>(s: Seq<Track<X>>) -> int
    decreases s.len(),
{
    if s.len() == 0 {
        0
    } else if s.len() == 1 {
        latest_end(s[0].clips@)
    } else {
        let rest = longest_track(s.drop_last());
        let last = latest_end(s.last().clips@);
        if last > rest {
            last
        } else {
            rest
        }
    }
}

/// `(k, j)` names a clip of the tracks `s`: clip `j` of track `k`.
pub open spec fn clip_pos<X>(s: Seq<Track<X>>, k: int, j: int) -> bool {
    0 <= k < s.len() && 0 <= j < s[k].clips@.len()
}

/// Clip `j` of track `k` is the first clip of `s` (track by track, each from its start)
/// for which `p` holds.
pub open spec fn first_clip_where<X>(s: Seq<Track<X>>, p: spec_fn(Clip<X>) -> bool, k: int, j: int) -> bool {
    &&& clip_pos(s, k, j)
    &&& p(s[k].clips@[j])
    &&& forall|a: int, b: int| 0 <= a < k && 0 <= b < s[a].clips@.len() ==> !p(#[trigger] s[a].clips@[b])
    &&& forall|b: int| 0 <= b < j ==> !p(#[trigger] s[k].clips@[b])
}

/// `p` holds for no clip of `s`.
pub open spec fn no_clip_where<X>(s: Seq<Track<X>>, p: spec_fn(Clip<X>) -> bool) -> bool {
    forall|a: int, b: int| clip_pos(s, a, b) ==> !p(#[trigger] s[a].clips@[b])
}

/// The clip has id `id`.
pub open spec fn has_clip_id<X>(id: u64) -> spec_fn(Clip<X>) -> bool {
    |c: Clip<X>| c.id == id
}

/// The clip is selected.
pub open spec fn is_selected_clip<X>() -> spec_fn(Clip<X>) -> bool {
    |c: Clip<X>| c.is_selected
}

/// The clips of track `m` after clip `j` of track `k` is taken out of the tracks `s` and
/// `moved` is added to track `d` (no track takes it when `d` names none).
pub open spec fn clips_after_move<X>(
    s: Seq<Track<X>>,
    k: int,
    j: int,
    d: int,
    m: int,
    moved: Clip<X>,
) -> Seq<Clip<X>> {
    let base = if m == k { s[m].clips@.remove(j) } else { s[m].clips@ };
    if m == d { sort_by_key(base.push(moved), by_time::<Clip<X>>()) } else { base }
}

/// The start and end of each clip of `s` other than the one with id `exclude`, in order.
pub open spec fn clip_bounds<X>(s: Seq<Clip<X>>, exclude: Option<u64>) -> Seq<TimeCode>
    decreases s.len(),
{
    if s.len() == 0 {
        Seq::empty()
    } else {
        let rest = clip_bounds(s.drop_last(), exclude);
        let c = s.last();
        if exclude == Some(c.id) {
            rest
        } else {
            rest + seq![c.timeline_start, TimeCode { micros: c.end_spec() as i64 }]
        }
    }
}

/// The clip bounds of every track of `s`, track by track.
pub open spec fn track_bounds<X>(s: Seq<Track<X>>, exclude: Option<u64>) -> Seq<TimeCode>
    decreases s.len(),
{
    if s.len() == 0 {
        Seq::empty()
    } else {
        track_bounds(s.drop_last(), exclude) + clip_bounds(s.last().clips@, exclude)
    }
}

/// Distance between two time codes, in microseconds.
pub open spec fn gap(a: TimeCode, b: TimeCode) -> int {
    if a.micros >= b.micros { a.micros - b.micros } else { b.micros - a.micros }
}

/// Going through `cands` in order, the candidate strictly closer to `target` than every
/// one before it and than `threshold` (and its distance); `target` itself (and
/// `threshold`) when none is.
pub open spec fn nearest_within(cands: Seq<TimeCode>, target: TimeCode, threshold: int) -> (TimeCode, int)
    decreases cands.len(),
{
    if cands.len() == 0 {
        (target, threshold)
    } else {
        let (best, best_gap) = nearest_within(cands.drop_last(), target, threshold);
        let d = gap(cands.last(), target);
        if d < best_gap {
            (cands.last(), d)
        } else {
            (best, best_gap)
        }
    }
}

/// `cands[i]` is nearest to `target` and strictly within `threshold` of it, and no
/// earlier candidate is as near.
pub open spec fn nearest_at(cands: Seq<TimeCode>, target: TimeCode, threshold: int, i: int) -> bool {
    &&& 0 <= i < cands.len()
    &&& gap(cands[i], target) < threshold
    &&& forall|j: int| 0 <= j < cands.len() ==> gap(cands[i], target) <= gap(#[trigger] cands[j], target)
    &&& forall|j: int| 0 <= j < i ==> gap(cands[i], target) < gap(#[trigger] cands[j], target)
}

/// What `nearest_within` picks, stated directly: the nearest candidate strictly within
/// the threshold, the earliest on ties; `target` itself when no candidate is that close.
pub proof fn lemma_nearest_within(cands: Seq<TimeCode>, target: TimeCode, threshold: int)
    ensures
        nearest_within(cands, target, threshold).1 <= threshold,
        forall|j: int| 0 <= j < cands.len() ==> nearest_within(cands, target, threshold).1 <= gap(#[trigger] cands[j], target),
        (forall|j: int| 0 <= j < cands.len() ==> gap(#[trigger] cands[j], target) >= threshold) ==> nearest_within(
            cands,
            target,
            threshold,
        ) == (target, threshold),
        (exists|j: int| 0 <= j < cands.len() && gap(#[trigger] cands[j], target) < threshold) ==> exists|i: int|
            #[trigger] nearest_at(cands, target, threshold, i),
        forall|i: int| #[trigger] nearest_at(cands, target, threshold, i) ==> nearest_within(cands, target, threshold) == (
            cands[i],
            gap(cands[i], target),
        ),
    decreases cands.len(),
{
    if cands.len() > 0 {
        let d_s = cands.drop_last();
        lemma_nearest_within(d_s, target, threshold);
        let n = cands.len() - 1;
        let (b, g) = nearest_within(d_s, target, threshold);
        let d = gap(cands[n], target);
        assert forall|j: int| 0 <= j < n implies cands[j] == d_s[j] by {}
        if d < g {
            assert(nearest_at(cands, target, threshold, n)) by {
                assert forall|j: int| 0 <= j < cands.len() implies d <= gap(#[trigger] cands[j], target) by {
                    if j < n {
                        assert(g <= gap(d_s[j], target));
                    }
                }
                assert forall|j: int| 0 <= j < n implies d < gap(#[trigger] cands[j], target) by {
                    assert(g <= gap(d_s[j], target));
                }
            }
            assert forall|i: int| #[trigger] nearest_at(cands, target, threshold, i) implies i == n by {
                if i < n {
                    assert(gap(cands[i], target) <= gap(cands[n], target));
                    assert(g <= gap(d_s[i], target));
                }
            }
        } else {
            assert forall|j: int| 0 <= j < cands.len() implies g <= gap(#[trigger] cands[j], target) by {
                if j < n {
                    assert(g <= gap(d_s[j], target));
                }
            }
            if exists|j: int| 0 <= j < n && gap(#[trigger] d_s[j], target) < threshold {
                let i0 = choose|i: int| #[trigger] nearest_at(d_s, target, threshold, i);
                assert(nearest_at(cands, target, threshold, i0)) by {
                    assert forall|j: int| 0 <= j < cands.len() implies gap(cands[i0], target) <= gap(#[trigger] cands[j], target) by {
                        if j < n {
                            assert(gap(d_s[i0], target) <= gap(d_s[j], target));
                        }
                    }
                    assert forall|j: int| 0 <= j < i0 implies gap(cands[i0], target) < gap(#[trigger] cands[j], target) by {
                        assert(gap(d_s[i0], target) < gap(d_s[j], target));
                    }
                }
                assert forall|i: int| #[trigger] nearest_at(cands, target, threshold, i) implies i == i0 by {
                    if i < i0 {
                        assert(gap(cands[i0], target) < gap(cands[i], target));
                    } else if i > i0 {
                        assert(gap(cands[i], target) < gap(cands[i0], target));
                    }
                }
            } else {
                assert forall|j: int| 0 <= j < cands.len() implies gap(#[trigger] cands[j], target) >= threshold by {
                    if j < n {
                        assert(gap(d_s[j], target) >= threshold);
                    }
                }
            }
        }
    }
}

/// Some selected clip of `s` lies on `time`.
pub open spec fn selection_on<X>(s: Seq<Track<X>>, time: TimeCode) -> bool {
    exists|k: int, j: int|
        clip_pos(s, k, j) && (#[trigger] s[k].clips@[j]).is_selected && s[k].clips@[j].contains_spec(
            time,
        )
}

/// Track `k` of `new` is what splitting at the playhead `time` leaves of track `k` of
/// `old` (see `split_run`): when a selected clip lies on the playhead, only the first
/// selected clip on the playhead of each track is split; otherwise the first clip on the
/// playhead of each track is.
pub open spec fn run_step<X: Clone>(
    old: Seq<Track<X>>,
    time: TimeCode,
    new: Seq<Track<X>>,
    nexts: Seq<u64>,
    splits: Seq<bool>,
    k: int,
) -> bool {
    split_step_by(old[k], time, selection_on(old, time), nexts[k], new[k], nexts[k + 1], splits[k])
}

/// `new` is what splitting at the playhead `time` leaves of the tracks `old`: the next
/// id goes from `nexts[0]` to `nexts.last()`, track `k` is split as `run_step` says
/// (with next id `nexts[k]`, result `splits[k]`); `any` says whether any track was split.
pub open spec fn split_run<X: Clone>(
    old: Seq<Track<X>>,
    time: TimeCode,
    new: Seq<Track<X>>,
    nexts: Seq<u64>,
    splits: Seq<bool>,
    any: bool,
) -> bool {
    &&& nexts.len() == old.len() + 1
    &&& splits.len() == old.len()
    &&& new.len() == old.len()
    &&& any == splits.contains(true)
    &&& forall|k: int| 0 <= k < old.len() ==> #[trigger] run_step(old, time, new, nexts, splits, k)
}

/// Keeps the clips that are not selected; also says whether any was selected.
fn drop_selected<X>(clips: Vec<Clip<X>>) -> (r: (Vec<Clip<X>>, bool))
    ensures
        r.0@ == clips@.filter(|c: Clip<X>| !c.is_selected),
        r.1 == exists|j: int| 0 <= j < clips@.len() && (#[trigger] clips@[j]).is_selected,
{
    let ghost s = clips@;
    let ghost keep = |c: Clip<X>| !c.is_selected;
    let mut rest = clips;
    let n = rest.len();
    let mut kept: Vec<Clip<X>> = Vec::new();
    let mut any = false;
    let mut i: usize = 0;
    proof {
        reveal(Seq::filter);
        assert(s.take(0) =~= Seq::<Clip<X>>::empty());
    }
    while i < n
        invariant
            n == s.len(),
            i <= n,
            rest@ == s.skip(i as int),
            keep == (|c: Clip<X>| !c.is_selected),
            kept@ == s.take(i as int).filter(keep),
            any == exists|j: int| 0 <= j < i && (#[trigger] s[j]).is_selected,
        decreases n - i,
    {
        proof {
            reveal(Seq::filter);
            assert(s.take(i as int + 1).drop_last() =~= s.take(i as int));
            assert(s.take(i as int + 1).last() == s[i as int]);
        }
        let c = rest.remove(0);
        assert(c == s[i as int]);
        assert(rest@ =~= s.skip(i as int + 1));
        if c.is_selected {
            any = true;
        } else {
            kept.push(c);
        }
        i = i + 1;
    }
    assert(s.take(n as int) =~= s);
    (kept, any)
}

/// The latest end among the clips of a track is the end of one of them (zero for an
/// empty track), and no clip ends later.
proof fn lemma_latest_end_bounds<X>(cs: Seq<Clip<X>>)
    ensures
        forall|j: int| 0 <= j < cs.len() ==> (#[trigger] cs[j]).end_spec() <= latest_end(cs),
        cs.len() == 0 ==> latest_end(cs) == 0,
        cs.len() > 0 ==> exists|j: int| 0 <= j < cs.len() && latest_end(cs) == (#[trigger] cs[j]).end_spec(),
    decreases cs.len(),
{
    if cs.len() == 1 {
        assert(latest_end(cs) == cs[0].end_spec());
    } else if cs.len() > 1 {
        let d = cs.drop_last();
        lemma_latest_end_bounds(d);
        assert forall|j: int| 0 <= j < cs.len() implies (#[trigger] cs[j]).end_spec() <= latest_end(cs) by {
            if j < cs.len() - 1 {
                assert(cs[j] == d[j]);
            }
        }
        if cs.last().end_spec() <= latest_end(d) {
            let j0 = choose|j: int| 0 <= j < d.len() && latest_end(d) == (#[trigger] d[j]).end_spec();
            assert(cs[j0] == d[j0]);
        } else {
            assert(latest_end(cs) == cs[cs.len() - 1].end_spec());
        }
    }
}

/// The length of a timeline is the latest end of any clip on any track: no clip ends
/// after it, and it is the end of one of the clips, or zero when no track ends later
/// than an empty one (in particular when there is no clip at all).
pub proof fn lemma_duration_is_latest_end<X>(s: Seq<Track<X>>)
    ensures
        forall|k: int, j: int|
            0 <= k < s.len() && 0 <= j < s[k].clips@.len() ==> (#[trigger] s[k].clips@[j]).end_spec() <= longest_track(s),
        longest_track(s) == 0 || exists|k: int, j: int|
            0 <= k < s.len() && 0 <= j < s[k].clips@.len() && longest_track(s) == (#[trigger] s[k].clips@[j]).end_spec(),
        (forall|k: int| 0 <= k < s.len() ==> (#[trigger] s[k]).clips@.len() == 0) ==> longest_track(s) == 0,
    decreases s.len(),
{
    if s.len() == 1 {
        lemma_latest_end_bounds(s[0].clips@);
        assert(longest_track(s) == latest_end(s[0].clips@));
        if s[0].clips@.len() > 0 {
            let j0 = choose|j: int| 0 <= j < s[0].clips@.len() && latest_end(s[0].clips@) == (#[trigger] s[0].clips@[j]).end_spec();
            assert(longest_track(s) == s[0].clips@[j0].end_spec());
        }
    } else if s.len() > 1 {
        let d = s.drop_last();
        let n = s.len() - 1;
        lemma_duration_is_latest_end(d);
        lemma_latest_end_bounds(s[n].clips@);
        assert(s.last() == s[n]);
        assert forall|k: int, j: int| 0 <= k < s.len() && 0 <= j < s[k].clips@.len() implies (
        #[trigger] s[k].clips@[j]).end_spec() <= longest_track(s) by {
            if k < n {
                assert(s[k] == d[k]);
                assert(d[k].clips@[j].end_spec() <= longest_track(d));
            }
        }
        if latest_end(s[n].clips@) > longest_track(d) {
            if s[n].clips@.len() > 0 {
                let j0 = choose|j: int| 0 <= j < s[n].clips@.len() && latest_end(s[n].clips@) == (#[trigger] s[n].clips@[j]).end_spec();
                assert(longest_track(s) == s[n].clips@[j0].end_spec());
            }
        } else if longest_track(d) != 0 {
            let (k0, j0) = choose|k: int, j: int|
                0 <= k < d.len() && 0 <= j < d[k].clips@.len() && longest_track(d) == (#[trigger] d[k].clips@[j]).end_spec();
            assert(s[k0] == d[k0]);
            assert(longest_track(s) == s[k0].clips@[j0].end_spec());
        }
        if forall|k: int| 0 <= k < s.len() ==> (#[trigger] s[k]).clips@.len() == 0 {
            assert forall|k: int| 0 <= k < d.len() implies (#[trigger] d[k]).clips@.len() == 0 by {
                assert(d[k] == s[k]);
            }
        }
    }
}

/// The start and end of a clip that is not the excluded one are among the clip bounds.
proof fn lemma_clip_bounds_has<X>(s: Seq<Clip<X>>, exclude: Option<u64>, j: int)
    requires
        0 <= j < s.len(),
        exclude != Some(s[j].id),
    ensures
        clip_bounds(s, exclude).contains(s[j].timeline_start),
        clip_bounds(s, exclude).contains(TimeCode { micros: s[j].end_spec() as i64 }),
    decreases s.len(),
{
    let cb = clip_bounds(s, exclude);
    let d = s.drop_last();
    let rest = clip_bounds(d, exclude);
    assert(forall|i: int| 0 <= i < rest.len() ==> cb[i] == rest[i]);
    assert(rest.len() <= cb.len());
    if j == s.len() - 1 {
        assert(cb[rest.len() as int] == s[j].timeline_start);
        assert(cb[rest.len() as int + 1] == TimeCode { micros: s[j].end_spec() as i64 });
    } else {
        assert(d[j] == s[j]);
        lemma_clip_bounds_has(d, exclude, j);
        let i1 = choose|i: int| 0 <= i < rest.len() && rest[i] == s[j].timeline_start;
        assert(cb[i1] == s[j].timeline_start);
        let i2 = choose|i: int| 0 <= i < rest.len() && rest[i] == TimeCode { micros: s[j].end_spec() as i64 };
        assert(cb[i2] == TimeCode { micros: s[j].end_spec() as i64 });
    }
}

/// The start and end of every clip that is not the excluded one are among the track
/// bounds.
proof fn lemma_track_bounds_has<X>(s: Seq<Track<X>>, exclude: Option<u64>, k: int, j: int)
    requires
        0 <= k < s.len(),
        0 <= j < s[k].clips@.len(),
        exclude != Some(s[k].clips@[j].id),
    ensures
        track_bounds(s, exclude).contains(s[k].clips@[j].timeline_start),
        track_bounds(s, exclude).contains(TimeCode { micros: s[k].clips@[j].end_spec() as i64 }),
    decreases s.len(),
{
    let tb = track_bounds(s, exclude);
    let d = s.drop_last();
    let rest = track_bounds(d, exclude);
    let last = clip_bounds(s.last().clips@, exclude);
    assert(tb == rest + last);
    let c = s[k].clips@[j];
    let e = TimeCode { micros: c.end_spec() as i64 };
    if k == s.len() - 1 {
        lemma_clip_bounds_has(s.last().clips@, exclude, j);
        let i1 = choose|i: int| 0 <= i < last.len() && last[i] == c.timeline_start;
        assert(tb[rest.len() + i1] == c.timeline_start);
        let i2 = choose|i: int| 0 <= i < last.len() && last[i] == e;
        assert(tb[rest.len() + i2] == e);
    } else {
        assert(d[k] == s[k]);
        lemma_track_bounds_has(d, exclude, k, j);
        let i1 = choose|i: int| 0 <= i < rest.len() && rest[i] == c.timeline_start;
        assert(tb[i1] == c.timeline_start);
        let i2 = choose|i: int| 0 <= i < rest.len() && rest[i] == e;
        assert(tb[i2] == e);
    }
}

/// A candidate strictly within the threshold leaves the pick at least as near.
proof fn lemma_nearest_beats(cands: Seq<TimeCode>, target: TimeCode, threshold: int, x: TimeCode)
    requires
        cands.contains(x),
        gap(x, target) < threshold,
    ensures
        gap(nearest_within(cands, target, threshold).0, target) <= gap(x, target),
{
    lemma_nearest_within(cands, target, threshold);
    let ix = choose|i: int| 0 <= i < cands.len() && cands[i] == x;
    assert(gap(cands[ix], target) < threshold);
    let i = choose|i: int| #[trigger] nearest_at(cands, target, threshold, i);
    assert(nearest_within(cands, target, threshold) == (cands[i], gap(cands[i], target)));
    assert(nearest_within(cands, target, threshold).1 <= gap(cands[ix], target));
}

/// Snapping considers the playhead, zero, and the start and end of every clip but the
/// dragged one: whenever such a point is strictly within the threshold of the target,
/// the snapped time is at least as near to the target as that point.
pub proof fn lemma_snap_reaches_every_edge<X>(
    tl: Timeline<X>,
    target: TimeCode,
    threshold: int,
    exclude: Option<u64>,
    k: int,
    j: int,
)
    requires
        0 <= k < tl.tracks@.len(),
        0 <= j < tl.tracks@[k].clips@.len(),
        exclude != Some(tl.tracks@[k].clips@[j].id),
    ensures
        ({
            let c = tl.tracks@[k].clips@[j];
            let e = TimeCode { micros: c.end_spec() as i64 };
            let r = nearest_within(tl.snap_candidates(exclude), target, threshold).0;
            &&& gap(c.timeline_start, target) < threshold ==> gap(r, target) <= gap(c.timeline_start, target)
            &&& gap(e, target) < threshold ==> gap(r, target) <= gap(e, target)
            &&& gap(tl.playhead, target) < threshold ==> gap(r, target) <= gap(tl.playhead, target)
            &&& gap(TimeCode { micros: 0 }, target) < threshold ==> gap(r, target) <= gap(TimeCode { micros: 0 }, target)
        }),
{
    let cands = tl.snap_candidates(exclude);
    let head = seq![tl.playhead, TimeCode { micros: 0 }];
    let tb = track_bounds(tl.tracks@, exclude);
    assert(cands == head + tb);
    let c = tl.tracks@[k].clips@[j];
    let e = TimeCode { micros: c.end_spec() as i64 };
    lemma_track_bounds_has(tl.tracks@, exclude, k, j);
    let i1 = choose|i: int| 0 <= i < tb.len() && tb[i] == c.timeline_start;
    assert(cands[2 + i1] == c.timeline_start);
    let i2 = choose|i: int| 0 <= i < tb.len() && tb[i] == e;
    assert(cands[2 + i2] == e);
    assert(cands[0] == tl.playhead);
    assert(cands[1] == TimeCode { micros: 0 });
    if gap(c.timeline_start, target) < threshold {
        lemma_nearest_beats(cands, target, threshold, c.timeline_start);
    }
    if gap(e, target) < threshold {
        lemma_nearest_beats(cands, target, threshold, e);
    }
    if gap(tl.playhead, target) < threshold {
        lemma_nearest_beats(cands, target, threshold, tl.playhead);
    }
    if gap(TimeCode { micros: 0 }, target) < threshold {
        lemma_nearest_beats(cands, target, threshold, TimeCode { micros: 0 });
    }
}

/// `t` is the start or the end of a clip of `s` other than the excluded one.
pub open spec fn is_clip_edge<X>(s: Seq<Track<X>>, exclude: Option<u64>, t: TimeCode) -> bool {
    exists|k: int, j: int|
        0 <= k < s.len() && 0 <= j < s[k].clips@.len() && exclude != Some((#[trigger] s[k].clips@[j]).id) && (t
            == s[k].clips@[j].timeline_start || t == TimeCode { micros: s[k].clips@[j].end_spec() as i64 })
}

/// Every clip bound is the start or end of a clip that is not the excluded one.
proof fn lemma_clip_bounds_from<X>(s: Seq<Clip<X>>, exclude: Option<u64>, i: int)
    requires
        0 <= i < clip_bounds(s, exclude).len(),
    ensures
        exists|j: int|
            0 <= j < s.len() && exclude != Some((#[trigger] s[j]).id) && (clip_bounds(s, exclude)[i]
                == s[j].timeline_start || clip_bounds(s, exclude)[i] == TimeCode { micros: s[j].end_spec() as i64 }),
    decreases s.len(),
{
    let cb = clip_bounds(s, exclude);
    let d = s.drop_last();
    let rest = clip_bounds(d, exclude);
    let n = s.len() - 1;
    assert(s.last() == s[n]);
    if i < rest.len() {
        assert(cb[i] == rest[i]);
        lemma_clip_bounds_from(d, exclude, i);
        let j0 = choose|j: int|
            0 <= j < d.len() && exclude != Some((#[trigger] d[j]).id) && (rest[i] == d[j].timeline_start || rest[i]
                == TimeCode { micros: d[j].end_spec() as i64 });
        assert(s[j0] == d[j0]);
    } else {
        assert(exclude != Some(s[n].id));
        assert(cb[i] == s[n].timeline_start || cb[i] == TimeCode { micros: s[n].end_spec() as i64 });
    }
}

/// Every track bound is the start or end of a clip that is not the excluded one.
proof fn lemma_track_bounds_from<X>(s: Seq<Track<X>>, exclude: Option<u64>, i: int)
    requires
        0 <= i < track_bounds(s, exclude).len(),
    ensures
        is_clip_edge(s, exclude, track_bounds(s, exclude)[i]),
    decreases s.len(),
{
    let tb = track_bounds(s, exclude);
    let d = s.drop_last();
    let rest = track_bounds(d, exclude);
    let n = s.len() - 1;
    let last = clip_bounds(s[n].clips@, exclude);
    assert(s.last() == s[n]);
    assert(tb == rest + last);
    if i < rest.len() {
        lemma_track_bounds_from(d, exclude, i);
        let (k0, j0) = choose|k: int, j: int|
            0 <= k < d.len() && 0 <= j < d[k].clips@.len() && exclude != Some((#[trigger] d[k].clips@[j]).id) && (rest[i]
                == d[k].clips@[j].timeline_start || rest[i] == TimeCode { micros: d[k].clips@[j].end_spec() as i64 });
        assert(s[k0] == d[k0]);
        assert(tb[i] == rest[i]);
        assert(exclude != Some(s[k0].clips@[j0].id));
    } else {
        let ii = i - rest.len();
        assert(tb[i] == last[ii]);
        lemma_clip_bounds_from(s[n].clips@, exclude, ii);
        let j0 = choose|j: int|
            0 <= j < s[n].clips@.len() && exclude != Some((#[trigger] s[n].clips@[j]).id) && (last[ii]
                == s[n].clips@[j].timeline_start || last[ii] == TimeCode { micros: s[n].clips@[j].end_spec() as i64 });
        assert(exclude != Some(s[n].clips@[j0].id));
    }
}

/// A snapped time is never made up: it is the target itself (when no point is close
/// enough), the playhead, zero, or the start or end of a clip other than the dragged one.
pub proof fn lemma_snap_lands_on_a_candidate<X>(tl: Timeline<X>, target: TimeCode, threshold: int, exclude: Option<u64>)
    ensures
        ({
            let r = nearest_within(tl.snap_candidates(exclude), target, threshold).0;
            ||| r == target
            ||| r == tl.playhead
            ||| r == TimeCode { micros: 0 }
            ||| is_clip_edge(tl.tracks@, exclude, r)
        }),
{
    let cands = tl.snap_candidates(exclude);
    let tb = track_bounds(tl.tracks@, exclude);
    assert(cands == seq![tl.playhead, TimeCode { micros: 0 }] + tb);
    lemma_nearest_within(cands, target, threshold);
    if exists|j: int| 0 <= j < cands.len() && gap(#[trigger] cands[j], target) < threshold {
        let i = choose|i: int| #[trigger] nearest_at(cands, target, threshold, i);
        if i >= 2 {
            assert(cands[i] == tb[i - 2]);
            lemma_track_bounds_from(tl.tracks@, exclude, i - 2);
        }
    }
}

/// Tracks of clips with a playhead.
#[derive(Clone, Debug)]
pub struct Timeline<X> {
    pub tracks: Vec<Track<X>>,
    pub playhead: TimeCode,
    pub snapping_enabled: bool,
    /// The id the next track or clip will get.
    pub next_id: u64,
    pub is_playing: bool,
}

impl<X> Timeline<X> {
    /// Everything but the tracks is the same in `self` and `other`.
    pub open spec fn same_but_tracks(&self, other: &Timeline<X>) -> bool {
        &&& self.playhead == other.playhead
        &&& self.snapping_enabled == other.snapping_enabled
        &&& self.next_id == other.next_id
        &&& self.is_playing == other.is_playing
    }

    /// A timeline with one video track and one music track, playhead at zero, snapping
    /// on.
    pub fn new() -> (tl: Self)
        ensures
            tl.tracks@.len() == 2,
            is_new_track(tl.tracks@[0], 1, tl.tracks@[0].name, TrackKind::Video),
            tl.tracks@[0].name@ == "🎬 Video Track"@,
            is_new_track(tl.tracks@[1], 2, tl.tracks@[1].name, TrackKind::Audio),
            tl.tracks@[1].name@ == "🎵 Music & Sound"@,
            tl.playhead.micros == 0,
            tl.snapping_enabled,
            tl.next_id == 3,
            !tl.is_playing,
    {
        let mut tl = Timeline {
            tracks: Vec::new(),
            playhead: TimeCode::zero(),
            snapping_enabled: true,
            next_id: 1,
            is_playing: false,
        };
        tl.add_track("🎬 Video Track".to_owned(), TrackKind::Video);
        tl.add_track("🎵 Music & Sound".to_owned(), TrackKind::Audio);
        tl
    }

    /// Hand out the next id.
    pub fn next_id(&mut self) -> (id: u64)
        requires
            old(self).next_id < u64::MAX,
        ensures
            id == old(self).next_id,
            final(self).next_id == old(self).next_id + 1,
            final(self).tracks@ == old(self).tracks@,
            final(self).playhead == old(self).playhead,
            final(self).snapping_enabled == old(self).snapping_enabled,
            final(self).is_playing == old(self).is_playing,
    {
        let id = self.next_id;
        self.next_id = self.next_id + 1;
        id
    }

    /// Append a new empty track, with the next id, which is returned.
    pub fn add_track(&mut self, name: String, kind: TrackKind) -> (id: u64)
        requires
            old(self).next_id < u64::MAX,
        ensures
            id == old(self).next_id,
            final(self).next_id == old(self).next_id + 1,
            final(self).tracks@.len() == old(self).tracks@.len() + 1,
            final(self).tracks@.drop_last() == old(self).tracks@,
            is_new_track(final(self).tracks@.last(), id, name, kind),
            final(self).playhead == old(self).playhead,
            final(self).snapping_enabled == old(self).snapping_enabled,
            final(self).is_playing == old(self).is_playing,
    {
        let id = self.next_id();
        self.tracks.push(Track::new(id, name, kind));
        assert(self.tracks@.drop_last() =~= old(self).tracks@);
        id
    }

    /// Remove every track with id `track_id`; true when there was one.
    pub fn remove_track(&mut self, track_id: u64) -> (removed: bool)
        ensures
            final(self).same_but_tracks(old(self)),
            final(self).tracks@ == old(self).tracks@.filter(|t: Track<X>| t.id != track_id),
            removed == !no_track_with_id(old(self).tracks@, track_id),
    {
        let ghost s = self.tracks@;
        let ghost keep = |t: Track<X>| t.id != track_id;
        let mut rest: Vec<Track<X>> = Vec::new();
        std::mem::swap(&mut rest, &mut self.tracks);
        let n = rest.len();
        let mut kept: Vec<Track<X>> = Vec::new();
        let mut i: usize = 0;
        proof {
            reveal(Seq::filter);
            assert(s.take(0) =~= Seq::<Track<X>>::empty());
        }
        while i < n
            invariant
                n == s.len(),
                i <= n,
                rest@ == s.skip(i as int),
                keep == (|t: Track<X>| t.id != track_id),
                kept@ == s.take(i as int).filter(keep),
                kept.len() <= i,
                (kept.len() == i) == no_track_with_id(s.take(i as int), track_id),
            decreases n - i,
        {
            proof {
                reveal(Seq::filter);
                assert(s.take(i as int + 1).drop_last() =~= s.take(i as int));
                assert(s.take(i as int + 1).last() == s[i as int]);
            }
            let t = rest.remove(0);
            assert(t == s[i as int]);
            assert(rest@ =~= s.skip(i as int + 1));
            let drop_it = t.id == track_id;
            if !drop_it {
                kept.push(t);
            }
            proof {
                if no_track_with_id(s.take(i as int + 1), track_id) {
                    assert forall|j: int| 0 <= j < i implies (#[trigger] s.take(
                        i as int,
                    )[j]).id != track_id by {
                        assert(s.take(i as int)[j] == s.take(i as int + 1)[j]);
                    }
                }
                if no_track_with_id(s.take(i as int), track_id) && !drop_it {
                    assert forall|j: int| 0 <= j < i + 1 implies (#[trigger] s.take(
                        i as int + 1,
                    )[j]).id != track_id by {
                        if j < i {
                            assert(s.take(i as int)[j] == s.take(i as int + 1)[j]);
                        }
                    }
                }
                if drop_it {
                    assert(s.take(i as int + 1)[i as int].id == track_id);
                }
            }
            i = i + 1;
        }
        proof {
            assert(s.take(n as int) =~= s);
        }
        let removed = kept.len() != n;
        self.tracks = kept;
        removed
    }

    /// The first track with id `track_id`.
    pub fn get_track(&self, track_id: u64) -> (r: Option<&Track<X>>)
        ensures
            no_track_with_id(self.tracks@, track_id) ==> r is None,
            forall|i: int|
                first_track_with_id(self.tracks@, track_id, i) ==> r == Some(&self.tracks@[i]),
    {
        let mut i: usize = 0;
        while i < self.tracks.len()
            invariant
                i <= self.tracks.len(),
                forall|j: int| 0 <= j < i ==> (#[trigger] self.tracks@[j]).id != track_id,
            decreases self.tracks.len() - i,
        {
            if self.tracks[i].id == track_id {
                return Some(&self.tracks[i]);
            }
            i = i + 1;
        }
        None
    }

    /// Whether every clip on every track has a trim length and an end that fit in an
    /// `i64` (what the editing operations ask of a timeline).
    pub fn clips_in_range(&self) -> (b: bool)
        ensures
            b == tracks_fit(self.tracks@),
    {
        let mut k: usize = 0;
        while k < self.tracks.len()
            invariant
                k <= self.tracks.len(),
                forall|a: int| 0 <= a < k ==> clips_fit((#[trigger] self.tracks@[a]).clips@),
            decreases self.tracks.len() - k,
        {
            let mut j: usize = 0;
            while j < self.tracks[k].clips.len()
                invariant
                    k < self.tracks.len(),
                    j <= self.tracks@[k as int].clips@.len(),
                    forall|b: int| 0 <= b < j ==> (#[trigger] self.tracks@[k as int].clips@[b]).spans_fit(),
                decreases self.tracks@[k as int].clips@.len() - j,
            {
                if !self.tracks[k].clips[j].spans_in_range() {
                    assert(!clips_fit(self.tracks@[k as int].clips@));
                    return false;
                }
                j = j + 1;
            }
            k = k + 1;
        }
        true
    }

    /// Overall timeline duration: the latest clip end over all tracks.
    pub fn duration(&self) -> (d: TimeCode)
        requires
            tracks_fit(self.tracks@),
        ensures
            d.micros == longest_track(self.tracks@),
    {
        let n = self.tracks.len();
        if n == 0 {
            return TimeCode::zero();
        }
        let mut best = self.tracks[0].duration();
        let mut k: usize = 1;
        assert(self.tracks@.take(1) =~= seq![self.tracks@[0]]);
        while k < n
            invariant
                n == self.tracks.len(),
                1 <= k <= n,
                tracks_fit(self.tracks@),
                best.micros == longest_track(self.tracks@.take(k as int)),
            decreases n - k,
        {
            proof {
                assert(self.tracks@.take(k as int + 1).drop_last() =~= self.tracks@.take(k as int));
                assert(self.tracks@.take(k as int + 1).last() == self.tracks@[k as int]);
            }
            let e = self.tracks[k].duration();
            if e.micros > best.micros {
                best = e;
            }
            k = k + 1;
        }
        assert(self.tracks@.take(n as int) =~= self.tracks@);
        best
    }

    /// Clear the selection flag of every clip.
    pub fn clear_selection(&mut self)
        ensures
            final(self).same_but_tracks(old(self)),
            final(self).tracks@.len() == old(self).tracks@.len(),
            forall|k: int|
                0 <= k < old(self).tracks@.len() ==> {
                    &&& (#[trigger] final(self).tracks@[k]).same_but_clips(&old(self).tracks@[k])
                    &&& final(self).tracks@[k].clips@ == old(self).tracks@[k].clips@.map_values(
                        |c: Clip<X>| deselected(c),
                    )
                },
    {
        let mut k: usize = 0;
        while k < self.tracks.len()
            invariant
                k <= self.tracks.len(),
                self.same_but_tracks(old(self)),
                self.tracks@.len() == old(self).tracks@.len(),
                forall|m: int|
                    0 <= m < self.tracks@.len() ==> (#[trigger] self.tracks@[m]).same_but_clips(
                        &old(self).tracks@[m],
                    ),
                forall|m: int|
                    0 <= m < k ==> (#[trigger] self.tracks@[m]).clips@ == old(
                        self,
                    ).tracks@[m].clips@.map_values(|c: Clip<X>| deselected(c)),
                forall|m: int|
                    k <= m < self.tracks@.len() ==> (#[trigger] self.tracks@[m]).clips@ == old(
                        self,
                    ).tracks@[m].clips@,
            decreases old(self).tracks@.len() - k,
        {
            let mut j: usize = 0;
            while j < self.tracks[k].clips.len()
                invariant
                    k < self.tracks.len(),
                    j <= self.tracks@[k as int].clips.len(),
                    self.same_but_tracks(old(self)),
                    self.tracks@.len() == old(self).tracks@.len(),
                    forall|m: int|
                        0 <= m < self.tracks@.len() ==> (#[trigger] self.tracks@[m]).same_but_clips(
                            &old(self).tracks@[m],
                        ),
                    forall|m: int|
                        0 <= m < k ==> (#[trigger] self.tracks@[m]).clips@ == old(
                            self,
                        ).tracks@[m].clips@.map_values(|c: Clip<X>| deselected(c)),
                    forall|m: int|
                        k < m < self.tracks@.len() ==> (#[trigger] self.tracks@[m]).clips@ == old(
                            self,
                        ).tracks@[m].clips@,
                    self.tracks@[k as int].clips@.len() == old(self).tracks@[k as int].clips@.len(),
                    forall|i: int|
                        0 <= i < j ==> (#[trigger] self.tracks@[k as int].clips@[i]) == deselected(
                            old(self).tracks@[k as int].clips@[i],
                        ),
                    forall|i: int|
                        j <= i < self.tracks@[k as int].clips@.len() ==> (
                        #[trigger] self.tracks@[k as int].clips@[i]) == old(
                            self,
                        ).tracks@[k as int].clips@[i],
                decreases self.tracks@[k as int].clips.len() - j,
            {
                self.tracks[k].clips[j].is_selected = false;
                j = j + 1;
            }
            assert(self.tracks@[k as int].clips@ =~= old(self).tracks@[k as int].clips@.map_values(
                |c: Clip<X>| deselected(c),
            ));
            k = k + 1;
        }
    }

    /// First clip (track by track) for which `is_selected` or `has id` holds, as a
    /// position.
    fn find_clip(&self, by_id: bool, clip_id: u64) -> (r: Option<(usize, usize)>)
        ensures
            ({
                let p = if by_id { has_clip_id::<X>(clip_id) } else { is_selected_clip::<X>() };
                match r {
                    Some((k, j)) => first_clip_where(self.tracks@, p, k as int, j as int),
                    None => no_clip_where(self.tracks@, p),
                }
            }),
    {
        let ghost p = if by_id { has_clip_id::<X>(clip_id) } else { is_selected_clip::<X>() };
        let mut k: usize = 0;
        while k < self.tracks.len()
            invariant
                k <= self.tracks.len(),
                p == (if by_id { has_clip_id::<X>(clip_id) } else { is_selected_clip::<X>() }),
                forall|a: int, b: int|
                    0 <= a < k && 0 <= b < self.tracks@[a].clips@.len() ==> !p(
                        #[trigger] self.tracks@[a].clips@[b],
                    ),
            decreases self.tracks.len() - k,
        {
            let mut j: usize = 0;
            while j < self.tracks[k].clips.len()
                invariant
                    k < self.tracks.len(),
                    j <= self.tracks@[k as int].clips@.len(),
                    p == (if by_id { has_clip_id::<X>(clip_id) } else { is_selected_clip::<X>() }),
                    forall|a: int, b: int|
                        0 <= a < k && 0 <= b < self.tracks@[a].clips@.len() ==> !p(
                            #[trigger] self.tracks@[a].clips@[b],
                        ),
                    forall|b: int| 0 <= b < j ==> !p(#[trigger] self.tracks@[k as int].clips@[b]),
                decreases self.tracks@[k as int].clips@.len() - j,
            {
                let c = &self.tracks[k].clips[j];
                let hit = if by_id { c.id == clip_id } else { c.is_selected };
                if hit {
                    return Some((k, j));
                }
                j = j + 1;
            }
            k = k + 1;
        }
        None
    }

    /// Select the first clip with id `clip_id`, and no other.
    pub fn select_clip(&mut self, clip_id: u64)
        ensures
            final(self).same_but_tracks(old(self)),
            final(self).tracks@.len() == old(self).tracks@.len(),
            forall|k: int|
                0 <= k < old(self).tracks@.len() ==> {
                    &&& (#[trigger] final(self).tracks@[k]).same_but_clips(&old(self).tracks@[k])
                    &&& final(self).tracks@[k].clips@.len() == old(self).tracks@[k].clips@.len()
                },
            forall|k: int, j: int|
                clip_pos(old(self).tracks@, k, j) ==> #[trigger] final(self).tracks@[k].clips@[j]
                    == (Clip {
                    is_selected: first_clip_where(old(self).tracks@, has_clip_id::<X>(clip_id), k, j),
                    ..old(self).tracks@[k].clips@[j]
                }),
    {
        let found = self.find_clip(true, clip_id);
        self.clear_selection();
        proof {
            assert forall|k: int, j: int| clip_pos(old(self).tracks@, k, j) implies #[trigger] self.tracks@[k].clips@[j]
                == deselected(old(self).tracks@[k].clips@[j]) by {
                assert(self.tracks@[k].clips@ == old(self).tracks@[k].clips@.map_values(
                    |c: Clip<X>| deselected(c),
                ));
            }
        }
        match found {
            Some((k, j)) => {
                self.tracks[k].clips[j].is_selected = true;
                proof {
                    assert forall|a: int, b: int| clip_pos(old(self).tracks@, a, b) implies #[trigger] self.tracks@[a].clips@[b]
                        == Clip {
                        is_selected: first_clip_where(old(self).tracks@, has_clip_id::<X>(clip_id), a, b),
                        ..old(self).tracks@[a].clips@[b]
                    } by {
                        if a == k && b == j {
                        } else if first_clip_where(old(self).tracks@, has_clip_id::<X>(clip_id), a, b) {
                            if a < k {
                                assert(!has_clip_id::<X>(clip_id)(old(self).tracks@[a].clips@[b]));
                            } else if a > k {
                                assert(!has_clip_id::<X>(clip_id)(old(self).tracks@[k as int].clips@[j as int]));
                            } else if b < j {
                                assert(!has_clip_id::<X>(clip_id)(old(self).tracks@[a].clips@[b]));
                            } else {
                                assert(!has_clip_id::<X>(clip_id)(old(self).tracks@[k as int].clips@[j as int]));
                            }
                        }
                    }
                }
            },
            None => {},
        }
    }

    /// The first selected clip (track by track).
    pub fn get_selected_clip(&self) -> (r: Option<&Clip<X>>)
        ensures
            no_clip_where(self.tracks@, is_selected_clip::<X>()) ==> r is None,
            forall|k: int, j: int|
                first_clip_where(self.tracks@, is_selected_clip::<X>(), k, j) ==> r == Some(
                    &self.tracks@[k].clips@[j],
                ),
    {
        match self.find_clip(false, 0) {
            Some((k, j)) => {
                proof {
                    assert forall|a: int, b: int|
                        first_clip_where(self.tracks@, is_selected_clip::<X>(), a, b) implies a == k
                        && b == j by {
                        if a < k {
                            assert(!is_selected_clip::<X>()(self.tracks@[a].clips@[b]));
                        } else if a > k {
                            assert(!is_selected_clip::<X>()(self.tracks@[k as int].clips@[j as int]));
                        } else if b < j {
                            assert(!is_selected_clip::<X>()(self.tracks@[a].clips@[b]));
                        } else if b > j {
                            assert(!is_selected_clip::<X>()(self.tracks@[k as int].clips@[j as int]));
                        }
                    }
                }
                Some(&self.tracks[k].clips[j])
            },
            None => None,
        }
    }

    /// Delete every selected clip; true when there was one.
    pub fn delete_selected_clips(&mut self) -> (deleted: bool)
        ensures
            final(self).same_but_tracks(old(self)),
            final(self).tracks@.len() == old(self).tracks@.len(),
            forall|k: int|
                0 <= k < old(self).tracks@.len() ==> {
                    &&& (#[trigger] final(self).tracks@[k]).same_but_clips(&old(self).tracks@[k])
                    &&& final(self).tracks@[k].clips@ == old(self).tracks@[k].clips@.filter(
                        |c: Clip<X>| !c.is_selected,
                    )
                },
            deleted == !no_clip_where(old(self).tracks@, is_selected_clip::<X>()),
    {
        let mut any_deleted = false;
        let mut k: usize = 0;
        while k < self.tracks.len()
            invariant
                k <= self.tracks.len(),
                self.same_but_tracks(old(self)),
                self.tracks@.len() == old(self).tracks@.len(),
                forall|m: int|
                    0 <= m < self.tracks@.len() ==> (#[trigger] self.tracks@[m]).same_but_clips(
                        &old(self).tracks@[m],
                    ),
                forall|m: int|
                    0 <= m < k ==> (#[trigger] self.tracks@[m]).clips@ == old(
                        self,
                    ).tracks@[m].clips@.filter(|c: Clip<X>| !c.is_selected),
                forall|m: int|
                    k <= m < self.tracks@.len() ==> (#[trigger] self.tracks@[m]).clips@ == old(
                        self,
                    ).tracks@[m].clips@,
                any_deleted == exists|a: int, b: int|
                    0 <= a < k && 0 <= b < old(self).tracks@[a].clips@.len() && (#[trigger] old(
                        self,
                    ).tracks@[a].clips@[b]).is_selected,
            decreases old(self).tracks@.len() - k,
        {
            let mut clips: Vec<Clip<X>> = Vec::new();
            std::mem::swap(&mut clips, &mut self.tracks[k].clips);
            let (kept, any) = drop_selected(clips);
            self.tracks[k].clips = kept;
            if any {
                any_deleted = true;
            }
            proof {
                if any {
                    let b = choose|b: int|
                        0 <= b < old(self).tracks@[k as int].clips@.len() && (#[trigger] old(
                            self,
                        ).tracks@[k as int].clips@[b]).is_selected;
                    assert(old(self).tracks@[k as int].clips@[b].is_selected);
                }
            }
            k = k + 1;
        }
        proof {
            if any_deleted {
                let (a, b) = choose|a: int, b: int|
                    0 <= a < old(self).tracks@.len() && 0 <= b < old(self).tracks@[a].clips@.len()
                        && (#[trigger] old(self).tracks@[a].clips@[b]).is_selected;
                assert(is_selected_clip::<X>()(old(self).tracks@[a].clips@[b]));
            }
        }
        any_deleted
    }

    /// Index of the first track with id `track_id`.
    pub(crate) fn position_of_track(&self, track_id: u64) -> (r: Option<usize>)
        ensures
            match r {
                Some(i) => first_track_with_id(self.tracks@, track_id, i as int),
                None => no_track_with_id(self.tracks@, track_id),
            },
    {
        let mut i: usize = 0;
        while i < self.tracks.len()
            invariant
                i <= self.tracks.len(),
                forall|j: int| 0 <= j < i ==> (#[trigger] self.tracks@[j]).id != track_id,
            decreases self.tracks.len() - i,
        {
            if self.tracks[i].id == track_id {
                return Some(i);
            }
            i = i + 1;
        }
        None
    }

    /// Move the first clip with id `clip_id` to start at `new_timeline_start` on the track
    /// with id `dest_track_id`. True when the clip was found and placed; when no track has
    /// that id the clip is taken off its track and dropped, and the result is false.
    pub fn move_clip(&mut self, clip_id: u64, dest_track_id: u64, new_timeline_start: TimeCode) -> (moved: bool)
        ensures
            final(self).same_but_tracks(old(self)),
            final(self).tracks@.len() == old(self).tracks@.len(),
            forall|m: int|
                0 <= m < old(self).tracks@.len() ==> (#[trigger] final(self).tracks@[m]).same_but_clips(
                    &old(self).tracks@[m],
                ),
            no_clip_where(old(self).tracks@, has_clip_id::<X>(clip_id)) ==> {
                &&& !moved
                &&& forall|m: int|
                    0 <= m < old(self).tracks@.len() ==> (#[trigger] final(self).tracks@[m]).clips@
                        == old(self).tracks@[m].clips@
            },
            forall|k: int, j: int|
                first_clip_where(old(self).tracks@, has_clip_id::<X>(clip_id), k, j) ==> {
                    let c = (Clip {
                        timeline_start: new_timeline_start,
                        track_id: dest_track_id,
                        ..old(self).tracks@[k].clips@[j]
                    });
                    &&& no_track_with_id(old(self).tracks@, dest_track_id) ==> {
                        &&& !moved
                        &&& forall|m: int|
                            0 <= m < old(self).tracks@.len() ==> (#[trigger] final(self).tracks@[m]).clips@ == clips_after_move(old(self).tracks@, k, j, -1, m, c)
                    }
                    &&& forall|d: int|
                        first_track_with_id(old(self).tracks@, dest_track_id, d) ==> {
                            &&& moved
                            &&& forall|m: int|
                                0 <= m < old(self).tracks@.len() ==> (#[trigger] final(self).tracks@[m]).clips@ == clips_after_move(old(self).tracks@, k, j, d, m, c)
                        }
                },
    {
        match self.find_clip(true, clip_id) {
            None => false,
            Some((k, j)) => {
                let mut clip = self.tracks[k].clips.remove(j);
                clip.timeline_start = new_timeline_start;
                clip.track_id = dest_track_id;
                let ghost removed = self.tracks@;
                let ghost c = clip;
                proof {
                    assert forall|m: int| 0 <= m < removed.len() implies (#[trigger] removed[m]).clips@
                        == clips_after_move(old(self).tracks@, k as int, j as int, -1, m, c) by {}
                    assert forall|a: int, b: int| first_clip_where(old(self).tracks@, has_clip_id::<X>(clip_id), a, b)
                        implies a == k && b == j by {
                        if a < k {
                            assert(!has_clip_id::<X>(clip_id)(old(self).tracks@[a].clips@[b]));
                        } else if a > k {
                            assert(!has_clip_id::<X>(clip_id)(old(self).tracks@[k as int].clips@[j as int]));
                        } else if b < j {
                            assert(!has_clip_id::<X>(clip_id)(old(self).tracks@[a].clips@[b]));
                        } else if b > j {
                            assert(!has_clip_id::<X>(clip_id)(old(self).tracks@[k as int].clips@[j as int]));
                        }
                    }
                }
                match self.position_of_track(dest_track_id) {
                    Some(d) => {
                        self.tracks[d].add_clip(clip);
                        proof {
                            assert forall|m: int| 0 <= m < removed.len() implies (#[trigger] self.tracks@[m]).clips@
                                == clips_after_move(old(self).tracks@, k as int, j as int, d as int, m, c) by {}
                            assert forall|e: int| first_track_with_id(old(self).tracks@, dest_track_id, e)
                                implies e == d by {
                                if e < d {
                                    assert(removed[e].id == old(self).tracks@[e].id);
                                } else if e > d {
                                    assert(removed[d as int].id == old(self).tracks@[d as int].id);
                                }
                            }
                        }
                        true
                    },
                    None => {
                        proof {
                            assert forall|e: int| 0 <= e < old(self).tracks@.len() implies (#[trigger] old(self).tracks@[e]).id
                                != dest_track_id by {
                                assert(removed[e].id == old(self).tracks@[e].id);
                            }
                        }
                        false
                    },
                }
            },
        }
    }

    /// The points a dragged time may snap to: the playhead, zero, and the start and end of
    /// every clip other than the one with id `exclude`.
    pub open spec fn snap_candidates(&self, exclude: Option<u64>) -> Seq<TimeCode> {
        seq![self.playhead, TimeCode { micros: 0 }] + track_bounds(self.tracks@, exclude)
    }

    /// Snap `target_time` to the nearest candidate point closer than `threshold_micros`
    /// (see `find_snap_point_excluding`), excluding no clip.
    pub fn find_snap_point(&self, target_time: TimeCode, threshold_micros: i64) -> (t: TimeCode)
        requires
            tracks_fit(self.tracks@),
        ensures
            t == if self.snapping_enabled {
                nearest_within(self.snap_candidates(None), target_time, threshold_micros as int).0
            } else {
                target_time
            },
    {
        self.find_snap_point_excluding(target_time, threshold_micros, None)
    }

    /// Snap `target_time` to the candidate point (playhead, zero, clip starts and ends,
    /// leaving out the clip with id `exclude_clip_id`) nearest to it and closer than
    /// `threshold_micros`; the first such point wins a tie. `target_time` itself when
    /// snapping is off or no point is that close.
    pub fn find_snap_point_excluding(
        &self,
        target_time: TimeCode,
        threshold_micros: i64,
        exclude_clip_id: Option<u64>,
    ) -> (t: TimeCode)
        requires
            tracks_fit(self.tracks@),
        ensures
            t == if self.snapping_enabled {
                nearest_within(self.snap_candidates(exclude_clip_id), target_time, threshold_micros as int).0
            } else {
                target_time
            },
    {
        if !self.snapping_enabled {
            return target_time;
        }
        let mut candidates: Vec<TimeCode> = Vec::new();
        candidates.push(self.playhead);
        candidates.push(TimeCode::zero());
        let ghost head = seq![self.playhead, TimeCode { micros: 0 }];
        assert(candidates@ =~= head + track_bounds(self.tracks@.take(0), exclude_clip_id)) by {
            assert(self.tracks@.take(0) =~= Seq::<Track<X>>::empty());
        }
        let mut k: usize = 0;
        while k < self.tracks.len()
            invariant
                k <= self.tracks.len(),
                tracks_fit(self.tracks@),
                head == seq![self.playhead, TimeCode { micros: 0 }],
                candidates@ == head + track_bounds(self.tracks@.take(k as int), exclude_clip_id),
            decreases self.tracks.len() - k,
        {
            let ghost before = candidates@;
            let ghost cs = self.tracks@[k as int].clips@;
            assert(clips_fit(cs));
            let mut j: usize = 0;
            assert(candidates@ =~= before + clip_bounds(cs.take(0), exclude_clip_id)) by {
                assert(cs.take(0) =~= Seq::<Clip<X>>::empty());
            }
            while j < self.tracks[k].clips.len()
                invariant
                    k < self.tracks.len(),
                    cs == self.tracks@[k as int].clips@,
                    clips_fit(cs),
                    j <= cs.len(),
                    candidates@ == before + clip_bounds(cs.take(j as int), exclude_clip_id),
                decreases cs.len() - j,
            {
                proof {
                    assert(cs.take(j as int + 1).drop_last() =~= cs.take(j as int));
                    assert(cs.take(j as int + 1).last() == cs[j as int]);
                }
                let c = &self.tracks[k].clips[j];
                let skip = match exclude_clip_id {
                    Some(e) => e == c.id,
                    None => false,
                };
                if !skip {
                    assert(cs[j as int].spans_fit());
                    candidates.push(c.timeline_start);
                    candidates.push(c.timeline_end());
                }
                proof {
                    if !skip {
                        assert(exclude_clip_id != Some(cs[j as int].id));
                    }
                }
                assert(candidates@ =~= before + clip_bounds(cs.take(j as int + 1), exclude_clip_id));
                j = j + 1;
            }
            proof {
                assert(cs.take(cs.len() as int) =~= cs);
                assert(self.tracks@.take(k as int + 1).drop_last() =~= self.tracks@.take(k as int));
                assert(self.tracks@.take(k as int + 1).last() == self.tracks@[k as int]);
            }
            assert(candidates@ =~= head + track_bounds(self.tracks@.take(k as int + 1), exclude_clip_id));
            k = k + 1;
        }
        assert(self.tracks@.take(self.tracks@.len() as int) =~= self.tracks@);
        let ghost cands = candidates@;
        let mut closest = target_time;
        let mut min_diff: i128 = threshold_micros as i128;
        let mut i: usize = 0;
        assert(cands.take(0) =~= Seq::<TimeCode>::empty());
        while i < candidates.len()
            invariant
                cands == candidates@,
                i <= cands.len(),
                (closest, min_diff as int) == nearest_within(cands.take(i as int), target_time, threshold_micros as int),
            decreases cands.len() - i,
        {
            proof {
                assert(cands.take(i as int + 1).drop_last() =~= cands.take(i as int));
                assert(cands.take(i as int + 1).last() == cands[i as int]);
            }
            let cand = candidates[i];
            let d: i128 = if cand.micros >= target_time.micros {
                cand.micros as i128 - target_time.micros as i128
            } else {
                target_time.micros as i128 - cand.micros as i128
            };
            if d < min_diff {
                min_diff = d;
                closest = cand;
            }
            i = i + 1;
        }
        assert(cands.take(cands.len() as int) =~= cands);
        closest
    }

    /// Whether some selected clip lies on `time`.
    fn selected_on(&self, time: TimeCode) -> (b: bool)
        requires
            tracks_fit(self.tracks@),
        ensures
            b == selection_on(self.tracks@, time),
    {
        let mut k: usize = 0;
        while k < self.tracks.len()
            invariant
                k <= self.tracks.len(),
                tracks_fit(self.tracks@),
                forall|a: int, b: int|
                    0 <= a < k && 0 <= b < self.tracks@[a].clips@.len() ==> !((
                    #[trigger] self.tracks@[a].clips@[b]).is_selected
                        && self.tracks@[a].clips@[b].contains_spec(time)),
            decreases self.tracks.len() - k,
        {
            let mut j: usize = 0;
            assert(clips_fit(self.tracks@[k as int].clips@));
            while j < self.tracks[k].clips.len()
                invariant
                    k < self.tracks.len(),
                    j <= self.tracks@[k as int].clips@.len(),
                    clips_fit(self.tracks@[k as int].clips@),
                    forall|a: int, b: int|
                        0 <= a < k && 0 <= b < self.tracks@[a].clips@.len() ==> !((
                        #[trigger] self.tracks@[a].clips@[b]).is_selected
                            && self.tracks@[a].clips@[b].contains_spec(time)),
                    forall|b: int|
                        0 <= b < j ==> !((#[trigger] self.tracks@[k as int].clips@[b]).is_selected
                            && self.tracks@[k as int].clips@[b].contains_spec(time)),
                decreases self.tracks@[k as int].clips@.len() - j,
            {
                let c = &self.tracks[k].clips[j];
                assert(c.spans_fit());
                if c.is_selected && c.contains_timeline_time(time) {
                    return true;
                }
                j = j + 1;
            }
            k = k + 1;
        }
        false
    }
}

impl<X> Timeline<X> {
    /// Whether `split_at_playhead` can run: every clip's trim and end fit in an `i64`,
    /// a split of any clip on the playhead stays within machine integers, and there are
    /// ids left for one split per track.
    pub fn split_ready_at_playhead(&self) -> (b: bool)
        ensures
            b == ({
                &&& tracks_fit(self.tracks@)
                &&& forall|k: int|
                    0 <= k < self.tracks@.len() ==> clips_split_ready(
                        (#[trigger] self.tracks@[k]).clips@,
                        self.playhead,
                    )
                &&& self.next_id + self.tracks@.len() < u64::MAX
            }),
    {
        if !self.clips_in_range() {
            return false;
        }
        if (self.next_id as u128) + (self.tracks.len() as u128) >= u64::MAX as u128 {
            return false;
        }
        let mut k: usize = 0;
        while k < self.tracks.len()
            invariant
                k <= self.tracks.len(),
                tracks_fit(self.tracks@),
                forall|a: int| 0 <= a < k ==> clips_split_ready((#[trigger] self.tracks@[a]).clips@, self.playhead),
            decreases self.tracks.len() - k,
        {
            let mut j: usize = 0;
            assert(clips_fit(self.tracks@[k as int].clips@));
            while j < self.tracks[k].clips.len()
                invariant
                    k < self.tracks.len(),
                    j <= self.tracks@[k as int].clips@.len(),
                    clips_fit(self.tracks@[k as int].clips@),
                    forall|b: int| 0 <= b < j ==> (#[trigger] self.tracks@[k as int].clips@[b]).split_ready(self.playhead),
                decreases self.tracks@[k as int].clips@.len() - j,
            {
                assert(self.tracks@[k as int].clips@[j as int].spans_fit());
                if !self.tracks[k].clips[j].split_ready_at(self.playhead) {
                    assert(!clips_split_ready(self.tracks@[k as int].clips@, self.playhead));
                    return false;
                }
                j = j + 1;
            }
            k = k + 1;
        }
        true
    }
}

impl<X: Clone> Timeline<X> {
    /// Split clips at the playhead. When a selected clip lies on the playhead only the
    /// selected clips are split: on each track, the first selected clip on the playhead
    /// (`Track::split_selected_at`); clips that are not selected stay as they are.
    /// Otherwise the first clip on the playhead of every track is split
    /// (`Track::split_clip_at`). Each track with such a clip uses up one id. True when
    /// some clip was split.
    #[verifier::spinoff_prover]
    #[verifier::rlimit(40)]
    pub fn split_at_playhead(&mut self) -> (any_split: bool)
        requires
            tracks_fit(old(self).tracks@),
            forall|k: int|
                0 <= k < old(self).tracks@.len() ==> clips_split_ready(
                    (#[trigger] old(self).tracks@[k]).clips@,
                    old(self).playhead,
                ),
            old(self).next_id + old(self).tracks@.len() < u64::MAX,
        ensures
            final(self).playhead == old(self).playhead,
            final(self).snapping_enabled == old(self).snapping_enabled,
            final(self).is_playing == old(self).is_playing,
            final(self).tracks@.len() == old(self).tracks@.len(),
            exists|nexts: Seq<u64>, splits: Seq<bool>|
                {
                    &&& #[trigger] split_run(
                        old(self).tracks@,
                        old(self).playhead,
                        final(self).tracks@,
                        nexts,
                        splits,
                        any_split,
                    )
                    &&& nexts[0] == old(self).next_id
                    &&& nexts.last() == final(self).next_id
                },
    {
        let split_time = self.playhead;
        let selected_found = self.selected_on(split_time);
        let mut next_id = self.next_id;
        let mut any_split = false;
        let ghost mut nexts: Seq<u64> = seq![next_id];
        let ghost mut splits: Seq<bool> = Seq::empty();
        let n = self.tracks.len();
        let mut k: usize = 0;
        while k < n
            invariant
                n == self.tracks.len(),
                n == old(self).tracks@.len(),
                k <= n,
                split_time == old(self).playhead,
                selected_found == selection_on(old(self).tracks@, split_time),
                self.playhead == old(self).playhead,
                self.snapping_enabled == old(self).snapping_enabled,
                self.is_playing == old(self).is_playing,
                tracks_fit(old(self).tracks@),
                forall|m: int|
                    0 <= m < n ==> clips_split_ready(
                        (#[trigger] old(self).tracks@[m]).clips@,
                        split_time,
                    ),
                old(self).next_id + n < u64::MAX,
                nexts.len() == k + 1,
                splits.len() == k,
                nexts[0] == old(self).next_id,
                nexts.last() == next_id,
                next_id <= old(self).next_id + k,
                any_split == splits.contains(true),
                forall|m: int| k <= m < n ==> #[trigger] self.tracks@[m] == old(self).tracks@[m],
                forall|m: int| 0 <= m < k ==> #[trigger] run_step(old(self).tracks@, split_time, self.tracks@, nexts, splits, m),
            decreases n - k,
        {
            let ghost before = next_id;
            let ghost tracks_before = self.tracks@;
            assert(self.tracks@[k as int] == old(self).tracks@[k as int]);
            assert(clips_fit(self.tracks@[k as int].clips@));
            let did = if selected_found {
                self.tracks[k].split_selected_at(split_time, &mut next_id)
            } else {
                self.tracks[k].split_clip_at(split_time, &mut next_id)
            };
            proof {
                lemma_split_step_next(
                    old(self).tracks@[k as int],
                    split_time,
                    selected_found,
                    before,
                    self.tracks@[k as int],
                    next_id,
                    did,
                );
            }
            if did {
                any_split = true;
            }
            proof {
                let old_splits = splits;
                let old_nexts = nexts;
                splits = splits.push(did);
                nexts = nexts.push(next_id);
                assert forall|m: int| 0 <= m < k implies #[trigger] nexts[m] == old_nexts[m] && splits[m] == old_splits[m] && nexts[m + 1] == old_nexts[m + 1] by {}
                assert forall|m: int| 0 <= m < self.tracks@.len() && m != k implies #[trigger] self.tracks@[m] == tracks_before[m] by {}
                assert(nexts[k as int] == before);
                assert(nexts[k as int + 1] == next_id);
                assert(splits[k as int] == did);
                assert forall|m: int| 0 <= m < k + 1 implies #[trigger] run_step(old(self).tracks@, split_time, self.tracks@, nexts, splits, m) by {
                    if m < k {
                        assert(run_step(old(self).tracks@, split_time, tracks_before, old_nexts, old_splits, m));
                        assert(old_nexts[m] == nexts[m]);
                        assert(old_nexts[m + 1] == nexts[m + 1]);
                        assert(old_splits[m] == splits[m]);
                        assert(self.tracks@[m] == tracks_before[m]);
                    }
                }
                assert(splits.contains(true) == (old_splits.contains(true) || did)) by {
                    if did {
                        assert(splits[k as int]);
                    }
                    if splits.contains(true) && !did {
                        let w = choose|w: int| 0 <= w < splits.len() && splits[w] == true;
                        assert(old_splits[w]);
                    }
                    if old_splits.contains(true) {
                        let w = choose|w: int| 0 <= w < old_splits.len() && old_splits[w] == true;
                        assert(splits[w]);
                    }
                }
            }
            k = k + 1;
        }
        self.next_id = next_id;
        assert(split_run(old(self).tracks@, split_time, self.tracks@, nexts, splits, any_split));
        any_split
    }

}

impl<X> Timeline<X> {
    /// The first track with id `track_id`, to change it in place.
    pub fn get_track_mut(&mut self, track_id: u64) -> (r: Option<&mut Track<X>>)
        ensures
            no_track_with_id(old(self).tracks@, track_id) ==> r is None && *final(self) == *old(self),
            forall|i: int|
                first_track_with_id(old(self).tracks@, track_id, i) ==> {
                    &&& r is Some
                    &&& *r.unwrap() == old(self).tracks@[i]
                    &&& final(self).tracks@ == old(self).tracks@.update(i, *final(r.unwrap()))
                    &&& final(self).same_but_tracks(old(self))
                },
    {
        match self.position_of_track(track_id) {
            Some(i) => Some(&mut self.tracks[i]),
            None => None,
        }
    }

    /// The first selected clip (track by track), to change it in place.
    pub fn get_selected_clip_mut(&mut self) -> (r: Option<&mut Clip<X>>)
        ensures
            no_clip_where(old(self).tracks@, is_selected_clip::<X>()) ==> r is None && *final(self)
                == *old(self),
            forall|k: int, j: int|
                first_clip_where(old(self).tracks@, is_selected_clip::<X>(), k, j) ==> {
                    &&& r is Some
                    &&& *r.unwrap() == old(self).tracks@[k].clips@[j]
                    &&& final(self).same_but_tracks(old(self))
                    &&& final(self).tracks@.len() == old(self).tracks@.len()
                    &&& forall|m: int|
                        0 <= m < old(self).tracks@.len() && m != k ==> #[trigger] final(self).tracks@[m]
                            == old(self).tracks@[m]
                    &&& final(self).tracks@[k].same_but_clips(&old(self).tracks@[k])
                    &&& final(self).tracks@[k].clips@ == old(self).tracks@[k].clips@.update(
                        j,
                        *final(r.unwrap()),
                    )
                },
    {
        match self.find_clip(false, 0) {
            Some((k, j)) => {
                proof {
                    assert forall|a: int, b: int|
                        first_clip_where(self.tracks@, is_selected_clip::<X>(), a, b) implies a == k
                        && b == j by {
                        if a < k {
                            assert(!is_selected_clip::<X>()(self.tracks@[a].clips@[b]));
                        } else if a > k {
                            assert(!is_selected_clip::<X>()(self.tracks@[k as int].clips@[j as int]));
                        } else if b < j {
                            assert(!is_selected_clip::<X>()(self.tracks@[a].clips@[b]));
                        } else if b > j {
                            assert(!is_selected_clip::<X>()(self.tracks@[k as int].clips@[j as int]));
                        }
                    }
                }
                Some(&mut self.tracks[k].clips[j])
            },
            None => None,
        }
    }
}

} // verus!
