//! Which clip sound is heard at a moment of the timeline (the gain itself is computed by
//! the player from the envelope).
use vstd::prelude::*;
use crate::time::TimeCode;
use crate::timeline::{Timeline, tracks_fit, first_track_with_id, no_track_with_id};
use crate::track::{first_clip_with_id, no_clip_with_id};

verus! {

/// Where the sound of a clip at a moment comes from.
#[derive(Clone, Copy, Debug, PartialEq, Eq, Structural)]
pub enum MixSource {
    /// Nothing is heard: the track or clip is missing, muted, not soloed while another
    /// track is, or the clip does not cover the moment.
    Silent,
    /// Clip `clip` of track `track` is heard, `offset` into the clip.
    Audible { track: usize, clip: usize, offset: TimeCode },
}

/// Some track of `tl` is soloed.
pub open spec fn any_solo<X>(tl: Timeline<X>) -> bool {
    exists|k: int| 0 <= k < tl.tracks@.len() && (#[trigger] tl.tracks@[k]).is_solo
}

/// Where the sound of clip `clip_id` on track `track_id` at `time` comes from: the first
/// track with that id, if it is not muted and (when any track is soloed) is soloed, and on
/// it the first clip with that id, if it covers `time`.
pub open spec fn mix_source_of<X>(tl: Timeline<X>, track_id: u64, clip_id: u64, time: TimeCode) -> MixSource {
    if no_track_with_id(tl.tracks@, track_id) {
        MixSource::Silent
    } else {
        let k = choose|k: int| first_track_with_id(tl.tracks@, track_id, k);
        let t = tl.tracks@[k];
        if t.is_muted || (any_solo(tl) && !t.is_solo) || no_clip_with_id(t.clips@, clip_id) {
            MixSource::Silent
        } else {
            let j = choose|j: int| first_clip_with_id(t.clips@, clip_id, j);
            let c = t.clips@[j];
            if c.contains_spec(time) {
                MixSource::Audible {
                    track: k as usize,
                    clip: j as usize,
                    offset: TimeCode { micros: (time.micros - c.timeline_start.micros) as i64 },
                }
            } else {
                MixSource::Silent
            }
        }
    }
}

/// A list of tracks that holds one with id `id` has a first one.
proof fn lemma_first_track_exists<X>(s: Seq<crate::track::Track<X>>, id: u64)
    requires
        !no_track_with_id(s, id),
    ensures
        exists|k: int| first_track_with_id(s, id, k),
    decreases s.len(),
{
    let d = s.drop_last();
    if no_track_with_id(d, id) {
        let n = s.len() - 1;
        assert forall|j: int| 0 <= j < n implies (#[trigger] s[j]).id != id by {
            assert(s[j] == d[j]);
        }
        if s[n].id != id {
            assert forall|j: int| 0 <= j < s.len() implies (#[trigger] s[j]).id != id by {
                if j < n {
                    assert(s[j] == d[j]);
                }
            }
        }
        assert(first_track_with_id(s, id, n));
    } else {
        lemma_first_track_exists(d, id);
        let k = choose|k: int| first_track_with_id(d, id, k);
        assert forall|j: int| 0 <= j < k implies (#[trigger] s[j]).id != id by {
            assert(s[j] == d[j]);
        }
        assert(first_track_with_id(s, id, k));
    }
}

/// A list of clips that holds one with id `id` has a first one.
proof fn lemma_first_clip_exists<X>(s: Seq<crate::clip::Clip<X>>, id: u64)
    requires
        !no_clip_with_id(s, id),
    ensures
        exists|j: int| first_clip_with_id(s, id, j),
    decreases s.len(),
{
    let d = s.drop_last();
    if no_clip_with_id(d, id) {
        let n = s.len() - 1;
        assert forall|j: int| 0 <= j < n implies (#[trigger] s[j]).id != id by {
            assert(s[j] == d[j]);
        }
        if s[n].id != id {
            assert forall|j: int| 0 <= j < s.len() implies (#[trigger] s[j]).id != id by {
                if j < n {
                    assert(s[j] == d[j]);
                }
            }
        }
        assert(first_clip_with_id(s, id, n));
    } else {
        lemma_first_clip_exists(d, id);
        let k = choose|k: int| first_clip_with_id(d, id, k);
        assert forall|j: int| 0 <= j < k implies (#[trigger] s[j]).id != id by {
            assert(s[j] == d[j]);
        }
        assert(first_clip_with_id(s, id, k));
    }
}

/// A clip is heard only from the first track with the asked id when that track is not
/// muted and no other track is soloed in its place, only from the first clip with the
/// asked id on it, and only while that clip covers the moment, at the moment's offset
/// into it; a muted track, or an unsoloed one beside a soloed track, is silent.
pub proof fn lemma_mix_source_heard<X>(tl: Timeline<X>, track_id: u64, clip_id: u64, time: TimeCode)
    ensures
        match mix_source_of(tl, track_id, clip_id, time) {
            MixSource::Audible { track, clip, offset } => {
                let k = track as int;
                let j = clip as int;
                &&& first_track_with_id(tl.tracks@, track_id, k)
                &&& !tl.tracks@[k].is_muted
                &&& (forall|a: int| 0 <= a < tl.tracks@.len() && (#[trigger] tl.tracks@[a]).is_solo ==> tl.tracks@[k].is_solo)
                &&& first_clip_with_id(tl.tracks@[k].clips@, clip_id, j)
                &&& tl.tracks@[k].clips@[j].timeline_start.micros <= time.micros <= tl.tracks@[k].clips@[j].end_spec()
                &&& offset.micros == time.micros - tl.tracks@[k].clips@[j].timeline_start.micros
            },
            MixSource::Silent => true,
        },
        forall|k: int|
            first_track_with_id(tl.tracks@, track_id, k) && (tl.tracks@[k].is_muted || exists|a: int|
                0 <= a < tl.tracks@.len() && (#[trigger] tl.tracks@[a]).is_solo && !tl.tracks@[k].is_solo)
                ==> mix_source_of(tl, track_id, clip_id, time) == MixSource::Silent,
{
    if !no_track_with_id(tl.tracks@, track_id) {
        lemma_first_track_exists(tl.tracks@, track_id);
        let k = choose|k: int| first_track_with_id(tl.tracks@, track_id, k);
        assert forall|k2: int| first_track_with_id(tl.tracks@, track_id, k2) implies k2 == k by {
            if k2 < k {
                assert(tl.tracks@[k2].id == track_id);
            } else if k2 > k {
                assert(tl.tracks@[k].id == track_id);
            }
        }
        let t = tl.tracks@[k];
        if !(t.is_muted || (any_solo(tl) && !t.is_solo) || no_clip_with_id(t.clips@, clip_id)) {
            lemma_first_clip_exists(t.clips@, clip_id);
            let j = choose|j: int| first_clip_with_id(t.clips@, clip_id, j);
            if t.clips@[j].contains_spec(time) {
                assert(j < t.clips@.len());
                assert(tl.tracks.len() == tl.tracks@.len());
                assert(t.clips.len() == t.clips@.len());
                assert((k as usize) as int == k);
                assert((j as usize) as int == j);
                assert forall|a: int| 0 <= a < tl.tracks@.len() && (#[trigger] tl.tracks@[a]).is_solo implies tl.tracks@[k].is_solo by {
                    assert(any_solo(tl));
                }
            }
        }
    } else {
        assert forall|k: int| !first_track_with_id(tl.tracks@, track_id, k) by {
            if first_track_with_id(tl.tracks@, track_id, k) {
                assert(tl.tracks@[k].id == track_id);
            }
        }
    }
}

impl<X> Timeline<X> {
    /// Where the sound of clip `clip_id` on track `track_id` at `time` comes from.
    pub fn mix_source(&self, track_id: u64, clip_id: u64, time: TimeCode) -> (m: MixSource)
        requires
            tracks_fit(self.tracks@),
        ensures
            m == mix_source_of(*self, track_id, clip_id, time),
    {
        let mut has_solo = false;
        let mut s: usize = 0;
        while s < self.tracks.len()
            invariant
                s <= self.tracks.len(),
                has_solo == exists|k: int| 0 <= k < s && (#[trigger] self.tracks@[k]).is_solo,
            decreases self.tracks.len() - s,
        {
            if self.tracks[s].is_solo {
                has_solo = true;
            }
            s = s + 1;
        }
        let mut k: usize = 0;
        while k < self.tracks.len()
            invariant
                k <= self.tracks.len(),
                forall|a: int| 0 <= a < k ==> (#[trigger] self.tracks@[a]).id != track_id,
            ensures
                k <= self.tracks.len(),
                forall|a: int| 0 <= a < k ==> (#[trigger] self.tracks@[a]).id != track_id,
                k < self.tracks.len() ==> self.tracks@[k as int].id == track_id,
            decreases self.tracks.len() - k,
        {
            if self.tracks[k].id == track_id {
                break;
            }
            k = k + 1;
        }
        if k == self.tracks.len() {
            return MixSource::Silent;
        }
        proof {
            assert(first_track_with_id(self.tracks@, track_id, k as int));
            let kk = choose|kk: int| first_track_with_id(self.tracks@, track_id, kk);
            assert(kk == k);
        }
        let track = &self.tracks[k];
        if track.is_muted || (has_solo && !track.is_solo) {
            return MixSource::Silent;
        }
        let mut j: usize = 0;
        while j < track.clips.len()
            invariant
                j <= track.clips.len(),
                forall|b: int| 0 <= b < j ==> (#[trigger] track.clips@[b]).id != clip_id,
            ensures
                j <= track.clips.len(),
                forall|b: int| 0 <= b < j ==> (#[trigger] track.clips@[b]).id != clip_id,
                j < track.clips.len() ==> track.clips@[j as int].id == clip_id,
            decreases track.clips.len() - j,
        {
            if track.clips[j].id == clip_id {
                break;
            }
            j = j + 1;
        }
        if j == track.clips.len() {
            return MixSource::Silent;
        }
        proof {
            assert(first_clip_with_id(track.clips@, clip_id, j as int));
            let jj = choose|jj: int| first_clip_with_id(track.clips@, clip_id, jj);
            assert(jj == j);
        }
        let clip = &track.clips[j];
        assert(clip.spans_fit());
        if !clip.contains_timeline_time(time) {
            return MixSource::Silent;
        }
        MixSource::Audible {
            track: k,
            clip: j,
            offset: TimeCode { micros: time.micros - clip.timeline_start.micros },
        }
    }
}

} // verus!
