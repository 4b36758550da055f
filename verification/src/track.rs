//! A timeline track: a row of clips kept in order of their start.
use vstd::prelude::*;
use crate::time::TimeCode;
use crate::clip::{Clip, split_parts};
use crate::envelope::UNITY_GAIN;
use crate::sorting::{by_time, sort_by_key, sort_by_time, sorted_by_key, lemma_sort_sorted};

verus! {

/// Whether a track holds pictures or sound.
#[derive(Clone, Copy, Debug, PartialEq, Eq, Structural)]
pub enum TrackKind {
    Video,
    Audio,
}

/// Every clip of `s` has a trim length and an end that fit in an `i64`.
pub open spec fn clips_fit<X>(s: Seq<Clip<X>>) -> bool {
    forall|k: int| 0 <= k < s.len() ==> (#[trigger] s[k]).spans_fit()
}

/// Every clip of `s` that lies on `time` can be split there within machine integers.
pub open spec fn clips_split_ready<X>(s: Seq<Clip<X>>, time: TimeCode) -> bool {
    forall|k: int| 0 <= k < s.len() ==> (#[trigger] s[k]).split_ready(time)
}

/// `i` is the first clip of `s` that lies on `time`.
pub open spec fn first_at<X>(s: Seq<Clip<X>>, time: TimeCode, i: int) -> bool {
    &&& 0 <= i < s.len()
    &&& s[i].contains_spec(time)
    &&& forall|j: int| 0 <= j < i ==> !(#[trigger] s[j]).contains_spec(time)
}

/// No clip of `s` lies on `time`.
pub open spec fn none_at<X>(s: Seq<Clip<X>>, time: TimeCode) -> bool {
    forall|j: int| 0 <= j < s.len() ==> !(#[trigger] s[j]).contains_spec(time)
}

/// `i` is the first clip of `s` with id `id`.
pub open spec fn first_clip_with_id<X>(s: Seq<Clip<X>>, id: u64, i: int) -> bool {
    &&& 0 <= i < s.len()
    &&& s[i].id == id
    &&& forall|j: int| 0 <= j < i ==> (#[trigger] s[j]).id != id
}

/// No clip of `s` has id `id`.
pub open spec fn no_clip_with_id<X>(s: Seq<Clip<X>>, id: u64) -> bool {
    forall|j: int| 0 <= j < s.len() ==> (#[trigger] s[j]).id != id
}

/// The latest end of the clips of `s`, or zero when there are none.
pub open spec fn latest_end<X>(s: Seq<Clip<X>>) -> int
    decreases s.len(),
{
    if s.len() == 0 {
        0
    } else if s.len() == 1 {
        s[0].end_spec()
    } else {
        let rest = latest_end(s.drop_last());
        if s.last().end_spec() > rest {
            s.last().end_spec()
        } else {
            rest
        }
    }
}

/// The clip is one that a split at `time` may take: it lies on `time`, and it is
/// selected when `selected_only` is set.
pub open spec fn picks<X>(c: Clip<X>, time: TimeCode, selected_only: bool) -> bool {
    c.contains_spec(time) && (selected_only ==> c.is_selected)
}

/// `i` is the first clip of `s` that a split at `time` may take.
pub open spec fn first_pick<X>(s: Seq<Clip<X>>, time: TimeCode, selected_only: bool, i: int) -> bool {
    &&& 0 <= i < s.len()
    &&& picks(s[i], time, selected_only)
    &&& forall|j: int| 0 <= j < i ==> !picks(#[trigger] s[j], time, selected_only)
}

/// No clip of `s` may be taken by a split at `time`.
pub open spec fn none_pick<X>(s: Seq<Clip<X>>, time: TimeCode, selected_only: bool) -> bool {
    forall|j: int| 0 <= j < s.len() ==> !picks(#[trigger] s[j], time, selected_only)
}

/// `new` (with next clip id `new_next`) is what a split at `time` leaves of the track
/// `old` whose next clip id was `next`, and `split` what it returns: the first clip that
/// lies on `time` (and is selected, when `selected_only` is set) is split there, using
/// up the next id; no other clip changes.
pub open spec fn split_step_by<X: Clone>(
    old: Track<X>,
    time: TimeCode,
    selected_only: bool,
    next: u64,
    new: Track<X>,
    new_next: u64,
    split: bool,
) -> bool {
    &&& new.same_but_clips(&old)
    &&& none_pick(old.clips@, time, selected_only) ==> {
        &&& !split
        &&& new.clips@ == old.clips@
        &&& new_next == next
    }
    &&& forall|i: int|
        first_pick(old.clips@, time, selected_only, i) ==> {
            &&& new_next == next + 1
            &&& split == old.clips@[i].splits_at(time)
            &&& !split ==> new.clips@ == old.clips@
            &&& split ==> exists|first: Clip<X>, second: Clip<X>|
                {
                    &&& split_parts(old.clips@[i], time, next, first, second)
                    &&& new.clips@ == sort_by_key(
                        old.clips@.update(i, first).insert(i + 1, second),
                        by_time::<Clip<X>>(),
                    )
                }
        }
}

/// `new` (with next clip id `new_next`) is what `split_clip_at(time)` leaves of the track
/// `old` whose next clip id was `next`, and `split` what it returns.
pub open spec fn split_step<X: Clone>(
    old: Track<X>,
    time: TimeCode,
    next: u64,
    new: Track<X>,
    new_next: u64,
    split: bool,
) -> bool {
    split_step_by(old, time, false, next, new, new_next, split)
}

/// When some clip of `s` may be taken by a split at `time`, there is a first one.
pub proof fn lemma_first_pick_exists<X>(s: Seq<Clip<X>>, time: TimeCode, selected_only: bool)
    requires
        !none_pick(s, time, selected_only),
    ensures
        exists|i: int| first_pick(s, time, selected_only, i),
    decreases s.len(),
{
    let d = s.drop_last();
    if none_pick(d, time, selected_only) {
        assert forall|j: int| 0 <= j < s.len() - 1 implies !picks(#[trigger] s[j], time, selected_only) by {
            assert(s[j] == d[j]);
        }
        assert(first_pick(s, time, selected_only, s.len() - 1));
    } else {
        lemma_first_pick_exists(d, time, selected_only);
        let i = choose|i: int| first_pick(d, time, selected_only, i);
        assert forall|j: int| 0 <= j < i implies !picks(#[trigger] s[j], time, selected_only) by {
            assert(s[j] == d[j]);
        }
        assert(first_pick(s, time, selected_only, i));
    }
}

/// A track's clips are in order of their start after a clip is added, and stay in order
/// when one is taken out.
pub proof fn lemma_track_order<X>(s: Seq<Clip<X>>, c: Clip<X>, i: int)
    ensures
        sorted_by_key(sort_by_key(s.push(c), by_time::<Clip<X>>()), by_time::<Clip<X>>()),
        sorted_by_key(s, by_time::<Clip<X>>()) && 0 <= i < s.len() ==> sorted_by_key(
            s.remove(i),
            by_time::<Clip<X>>(),
        ),
{
    lemma_sort_sorted(s.push(c), by_time::<Clip<X>>());
    if sorted_by_key(s, by_time::<Clip<X>>()) && 0 <= i < s.len() {
        let r = s.remove(i);
        let key = by_time::<Clip<X>>();
        assert forall|a: int, b: int| 0 <= a <= b < r.len() implies key(r[a]) <= key(r[b]) by {
            let a2 = if a < i { a } else { a + 1 };
            let b2 = if b < i { b } else { b + 1 };
            assert(r[a] == s[a2]);
            assert(r[b] == s[b2]);
            assert(key(s[a2]) <= key(s[b2]));
        }
    }
}

/// A split that may only take a selected clip leaves every clip that is not selected on
/// the track.
pub proof fn lemma_selected_split_keeps_others<X: Clone>(
    old: Track<X>,
    time: TimeCode,
    next: u64,
    new: Track<X>,
    new_next: u64,
    split: bool,
)
    requires
        split_step_by(old, time, true, next, new, new_next, split),
    ensures
        forall|m: int|
            0 <= m < old.clips@.len() && !(#[trigger] old.clips@[m]).is_selected ==> new.clips@.contains(
                old.clips@[m],
            ),
{
    let s = old.clips@;
    if !none_pick(s, time, true) {
        lemma_first_pick_exists(s, time, true);
        let i = choose|i: int| first_pick(s, time, true, i);
        if split {
            let (first, second) = choose|first: Clip<X>, second: Clip<X>|
                {
                    &&& split_parts(s[i], time, next, first, second)
                    &&& new.clips@ == sort_by_key(
                        s.update(i, first).insert(i + 1, second),
                        by_time::<Clip<X>>(),
                    )
                };
            let u = s.update(i, first).insert(i + 1, second);
            assert(s[i].is_selected);
            assert(u.len() == s.len() + 1);
            lemma_sort_sorted(u, by_time::<Clip<X>>());
            u.to_multiset_ensures();
            new.clips@.to_multiset_ensures();
            assert forall|m: int| 0 <= m < s.len() && !(#[trigger] s[m]).is_selected implies new.clips@.contains(
                s[m],
            ) by {
                assert(m != i);
                if m < i {
                    assert(u[m] == s[m]);
                } else {
                    assert(u[m + 1] == s[m]);
                }
                assert(u.contains(s[m]));
                assert(u.to_multiset().count(s[m]) > 0);
                assert(new.clips@.to_multiset() == u.to_multiset());
                assert(new.clips@.to_multiset().count(s[m]) > 0);
            }
        } else {
            assert forall|m: int| 0 <= m < s.len() && !(#[trigger] s[m]).is_selected implies new.clips@.contains(
                s[m],
            ) by {
                assert(new.clips@[m] == s[m]);
            }
        }
    } else {
        assert forall|m: int| 0 <= m < s.len() && !(#[trigger] s[m]).is_selected implies new.clips@.contains(
            s[m],
        ) by {
            assert(new.clips@[m] == s[m]);
        }
    }
}

/// A split step uses up at most one clip id.
pub proof fn lemma_split_step_next<X: Clone>(
    old: Track<X>,
    time: TimeCode,
    selected_only: bool,
    next: u64,
    new: Track<X>,
    new_next: u64,
    split: bool,
)
    requires
        split_step_by(old, time, selected_only, next, new, new_next, split),
    ensures
        new_next == next || new_next == next + 1,
{
    if !none_pick(old.clips@, time, selected_only) {
        lemma_first_pick_exists(old.clips@, time, selected_only);
    }
}

/// A row of clips on the timeline.
#[derive(Clone, Debug)]
pub struct Track<X> {
    pub id: u64,
    pub name: String,
    pub kind: TrackKind,
    pub clips: Vec<Clip<X>>,
    pub is_muted: bool,
    pub is_solo: bool,
    pub is_locked: bool,
    /// Fixed-point track volume (`UNITY_GAIN` is a factor of 1.0).
    pub volume: u32,
}

impl<X> Track<X> {
    /// Everything but the clips is the same in `self` and `other`.
    pub open spec fn same_but_clips(&self, other: &Track<X>) -> bool {
        &&& self.id == other.id
        &&& self.name == other.name
        &&& self.kind == other.kind
        &&& self.is_muted == other.is_muted
        &&& self.is_solo == other.is_solo
        &&& self.is_locked == other.is_locked
        &&& self.volume == other.volume
    }

    /// An empty, audible, unlocked track at unity volume.
    pub fn new(id: u64, name: String, kind: TrackKind) -> (t: Self)
        ensures
            t.id == id,
            t.name == name,
            t.kind == kind,
            t.clips@ == Seq::<Clip<X>>::empty(),
            !t.is_muted,
            !t.is_solo,
            !t.is_locked,
            t.volume == UNITY_GAIN,
    {
        Track {
            id,
            name,
            kind,
            clips: Vec::new(),
            is_muted: false,
            is_solo: false,
            is_locked: false,
            volume: UNITY_GAIN,
        }
    }

    /// Add a clip to this track (it takes the track's id) and keep the clips in order of
    /// their start.
    pub fn add_clip(&mut self, clip: Clip<X>)
        ensures
            final(self).same_but_clips(old(self)),
            final(self).clips@ == sort_by_key(
                old(self).clips@.push(Clip { track_id: old(self).id, ..clip }),
                by_time::<Clip<X>>(),
            ),
    {
        let mut clip = clip;
        clip.track_id = self.id;
        self.clips.push(clip);
        self.sort_clips();
    }

    /// Remove the first clip with id `clip_id` and hand it back.
    pub fn remove_clip(&mut self, clip_id: u64) -> (r: Option<Clip<X>>)
        ensures
            final(self).same_but_clips(old(self)),
            no_clip_with_id(old(self).clips@, clip_id) ==> r is None && final(self).clips@
                == old(self).clips@,
            forall|i: int|
                first_clip_with_id(old(self).clips@, clip_id, i) ==> r == Some(old(self).clips@[i])
                    && final(self).clips@ == old(self).clips@.remove(i),
    {
        let mut i: usize = 0;
        while i < self.clips.len()
            invariant
                *self == *old(self),
                i <= self.clips.len(),
                forall|j: int| 0 <= j < i ==> (#[trigger] self.clips@[j]).id != clip_id,
            decreases self.clips.len() - i,
        {
            if self.clips[i].id == clip_id {
                return Some(self.clips.remove(i));
            }
            i = i + 1;
        }
        None
    }

    /// Index of the first clip that a split at `time` may take.
    fn position_pick(&self, time: TimeCode, selected_only: bool) -> (r: Option<usize>)
        requires
            clips_fit(self.clips@),
        ensures
            match r {
                Some(i) => first_pick(self.clips@, time, selected_only, i as int),
                None => none_pick(self.clips@, time, selected_only),
            },
    {
        let mut i: usize = 0;
        while i < self.clips.len()
            invariant
                i <= self.clips.len(),
                clips_fit(self.clips@),
                forall|j: int| 0 <= j < i ==> !picks(#[trigger] self.clips@[j], time, selected_only),
            decreases self.clips.len() - i,
        {
            if (!selected_only || self.clips[i].is_selected) && self.clips[i].contains_timeline_time(time) {
                return Some(i);
            }
            i = i + 1;
        }
        None
    }

    /// Index of the first clip that lies on `time`.
    fn position_at(&self, time: TimeCode) -> (r: Option<usize>)
        requires
            clips_fit(self.clips@),
        ensures
            match r {
                Some(i) => first_at(self.clips@, time, i as int),
                None => none_at(self.clips@, time),
            },
    {
        let mut i: usize = 0;
        while i < self.clips.len()
            invariant
                i <= self.clips.len(),
                clips_fit(self.clips@),
                forall|j: int| 0 <= j < i ==> !(#[trigger] self.clips@[j]).contains_spec(time),
            decreases self.clips.len() - i,
        {
            if self.clips[i].contains_timeline_time(time) {
                return Some(i);
            }
            i = i + 1;
        }
        None
    }

    /// The first clip that lies on `time`.
    pub fn get_clip_at(&self, time: TimeCode) -> (r: Option<&Clip<X>>)
        requires
            clips_fit(self.clips@),
        ensures
            none_at(self.clips@, time) ==> r is None,
            forall|i: int| first_at(self.clips@, time, i) ==> r == Some(&self.clips@[i]),
    {
        match self.position_at(time) {
            Some(i) => Some(&self.clips[i]),
            None => None,
        }
    }

    /// The first clip that lies on `time`, to change it in place.
    pub fn get_clip_at_mut(&mut self, time: TimeCode) -> (r: Option<&mut Clip<X>>)
        requires
            clips_fit(old(self).clips@),
        ensures
            none_at(old(self).clips@, time) ==> r is None && *final(self) == *old(self),
            forall|i: int|
                first_at(old(self).clips@, time, i) ==> {
                    &&& r is Some
                    &&& *r.unwrap() == old(self).clips@[i]
                    &&& final(self).same_but_clips(old(self))
                    &&& final(self).clips@ == old(self).clips@.update(i, *final(r.unwrap()))
                },
    {
        match self.position_at(time) {
            Some(i) => Some(&mut self.clips[i]),
            None => None,
        }
    }

    /// The latest end of any clip on this track (zero for an empty track).
    pub fn duration(&self) -> (d: TimeCode)
        requires
            clips_fit(self.clips@),
        ensures
            d.micros == latest_end(self.clips@),
    {
        let n = self.clips.len();
        if n == 0 {
            return TimeCode::zero();
        }
        let mut best = self.clips[0].timeline_end();
        let mut k: usize = 1;
        assert(self.clips@.take(1) =~= seq![self.clips@[0]]);
        while k < n
            invariant
                n == self.clips.len(),
                1 <= k <= n,
                clips_fit(self.clips@),
                best.micros == latest_end(self.clips@.take(k as int)),
            decreases n - k,
        {
            proof {
                assert(self.clips@.take(k as int + 1).drop_last() =~= self.clips@.take(k as int));
                assert(self.clips@.take(k as int + 1).last() == self.clips@[k as int]);
            }
            let e = self.clips[k].timeline_end();
            if e.micros > best.micros {
                best = e;
            }
            k = k + 1;
        }
        assert(self.clips@.take(n as int) =~= self.clips@);
        best
    }

    /// Sort the clips by their start on the timeline (clips that start together keep
    /// their order).
    pub fn sort_clips(&mut self)
        ensures
            final(self).same_but_clips(old(self)),
            final(self).clips@ == sort_by_key(old(self).clips@, by_time::<Clip<X>>()),
    {
        sort_by_time(&mut self.clips);
    }
}

impl<X: Clone> Track<X> {
    /// Split the first clip that lies on `split_time`. That uses up the id
    /// `*next_clip_id` (for the new later part) even when `split_time` is on the clip's
    /// edge and nothing is split. True when a clip was split; the parts go in place of
    /// the clip and the clips are re-sorted by start.
    pub fn split_clip_at(&mut self, split_time: TimeCode, next_clip_id: &mut u64) -> (split: bool)
        requires
            clips_fit(old(self).clips@),
            clips_split_ready(old(self).clips@, split_time),
            *old(next_clip_id) < u64::MAX,
        ensures
            split_step(
                *old(self),
                split_time,
                *old(next_clip_id),
                *final(self),
                *final(next_clip_id),
                split,
            ),
    {
        self.split_where(split_time, false, next_clip_id)
    }

    /// Split the first selected clip that lies on `split_time`, as `split_clip_at` does
    /// for the first clip there: it uses up the id `*next_clip_id` even when
    /// `split_time` is on that clip's edge; clips that are not selected are left alone.
    pub fn split_selected_at(&mut self, split_time: TimeCode, next_clip_id: &mut u64) -> (split: bool)
        requires
            clips_fit(old(self).clips@),
            clips_split_ready(old(self).clips@, split_time),
            *old(next_clip_id) < u64::MAX,
        ensures
            split_step_by(
                *old(self),
                split_time,
                true,
                *old(next_clip_id),
                *final(self),
                *final(next_clip_id),
                split,
            ),
    {
        self.split_where(split_time, true, next_clip_id)
    }

    /// Split the first clip that a split at `split_time` may take.
    fn split_where(&mut self, split_time: TimeCode, selected_only: bool, next_clip_id: &mut u64) -> (split: bool)
        requires
            clips_fit(old(self).clips@),
            clips_split_ready(old(self).clips@, split_time),
            *old(next_clip_id) < u64::MAX,
        ensures
            split_step_by(
                *old(self),
                split_time,
                selected_only,
                *old(next_clip_id),
                *final(self),
                *final(next_clip_id),
                split,
            ),
    {
        match self.position_pick(split_time, selected_only) {
            None => false,
            Some(idx) => {
                let new_id = *next_clip_id;
                *next_clip_id = new_id + 1;
                let ghost before = self.clips@;
                let mut clip = self.clips.remove(idx);
                assert(clip.spans_fit() && clip.split_ready(split_time)) by {
                    assert(clip == before[idx as int]);
                }
                let result = clip.split_at(split_time, new_id);
                self.clips.insert(idx, clip);
                assert(self.clips@ =~= before.update(idx as int, clip));
                match result {
                    Some(second) => {
                        assert(idx < self.clips.len());
                        self.clips.insert(idx + 1, second);
                        self.sort_clips();
                        true
                    },
                    None => {
                        assert(self.clips@ =~= before);
                        false
                    },
                }
            },
        }
    }
}

} // verus!
