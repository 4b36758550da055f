//! Putting imported media on the timeline: which track a clip goes to, and where on it.
use vstd::prelude::*;
use crate::time::TimeCode;
use crate::clip::Clip;
use crate::track::{Track, TrackKind, latest_end};
use crate::timeline::{Timeline, tracks_fit, first_track_with_id, no_track_with_id};
use crate::sorting::{by_time, sort_by_key};

verus! {

/// `k` is the first track of `s` of kind `kind`.
pub open spec fn first_track_of_kind<X>(s: Seq<Track<X>>, kind: TrackKind, k: int) -> bool {
    &&& 0 <= k < s.len()
    &&& s[k].kind == kind
    &&& forall|j: int| 0 <= j < k ==> (#[trigger] s[j]).kind != kind
}

/// No track of `s` is of kind `kind`.
pub open spec fn no_track_of_kind<X>(s: Seq<Track<X>>, kind: TrackKind) -> bool {
    forall|j: int| 0 <= j < s.len() ==> (#[trigger] s[j]).kind != kind
}

/// The kind of track a clip belongs on: video when it has pictures, else audio when it has
/// sound, else none.
pub open spec fn clip_kind<X>(c: Clip<X>) -> Option<TrackKind> {
    if c.has_video {
        Some(TrackKind::Video)
    } else if c.has_audio {
        Some(TrackKind::Audio)
    } else {
        None
    }
}

/// The name a track made for a clip of `kind` gets.
pub open spec fn new_track_name(kind: TrackKind) -> Seq<char> {
    match kind {
        TrackKind::Video => "Video Track"@,
        TrackKind::Audio => "Audio Track"@,
    }
}

/// `c` moved onto the track `t`, starting where the last of its clips ends.
pub open spec fn at_track_end<X>(c: Clip<X>, t: Track<X>) -> Clip<X> {
    Clip { track_id: t.id, timeline_start: TimeCode { micros: latest_end(t.clips@) as i64 }, ..c }
}

/// `new` is the tracks `old` with `c` added at the end of track `k`.
pub open spec fn appended_at_end<X>(old: Seq<Track<X>>, new: Seq<Track<X>>, k: int, c: Clip<X>) -> bool {
    &&& new.len() == old.len()
    &&& forall|m: int| 0 <= m < old.len() && m != k ==> new[m] == old[m]
    &&& new[k].same_but_clips(&old[k])
    &&& new[k].clips@ == sort_by_key(old[k].clips@.push(at_track_end(c, old[k])), by_time::<Clip<X>>())
}

/// The track an asset dropped on `preferred` lands on: `preferred` when it exists and is
/// of the asset's kind (video when it has pictures, else audio); else the first track of
/// that kind; else `preferred` all the same.
pub open spec fn drop_track_ok<X>(s: Seq<Track<X>>, has_video: bool, preferred: u64, id: u64) -> bool {
    let kind = if has_video { TrackKind::Video } else { TrackKind::Audio };
    &&& forall|i: int| first_track_with_id(s, preferred, i) && s[i].kind == kind ==> id == preferred
    &&& (forall|i: int| first_track_with_id(s, preferred, i) ==> s[i].kind != kind) ==> {
        &&& forall|k: int| first_track_of_kind(s, kind, k) ==> id == s[k].id
        &&& no_track_of_kind(s, kind) ==> id == preferred
    }
}

impl<X> Timeline<X> {
    /// Index of the first track of kind `kind`.
    fn position_of_kind(&self, kind: TrackKind) -> (r: Option<usize>)
        ensures
            match r {
                Some(k) => first_track_of_kind(self.tracks@, kind, k as int),
                None => no_track_of_kind(self.tracks@, kind),
            },
    {
        let mut k: usize = 0;
        while k < self.tracks.len()
            invariant
                k <= self.tracks.len(),
                forall|j: int| 0 <= j < k ==> (#[trigger] self.tracks@[j]).kind != kind,
            decreases self.tracks.len() - k,
        {
            if self.tracks[k].kind == kind {
                return Some(k);
            }
            k = k + 1;
        }
        None
    }

    /// Adds `clip` at the end of track `k` (after its last clip).
    fn append_at_end(&mut self, k: usize, clip: Clip<X>)
        requires
            k < old(self).tracks@.len(),
            tracks_fit(old(self).tracks@),
        ensures
            appended_at_end(old(self).tracks@, final(self).tracks@, k as int, clip),
            final(self).same_but_tracks(old(self)),
    {
        assert(crate::track::clips_fit(self.tracks@[k as int].clips@));
        let start = self.tracks[k].duration();
        let mut clip = clip;
        clip.track_id = self.tracks[k].id;
        clip.timeline_start = start;
        let ghost placed = clip;
        self.tracks[k].add_clip(clip);
        proof {
            assert(placed == at_track_end(clip, old(self).tracks@[k as int]));
        }
    }

    /// Put a clip at the end of the first track of its kind (video when it has pictures,
    /// else audio when it has sound), adding such a track when there is none; a clip with
    /// neither is left out. Returns the id of the track it went to.
    pub fn append_clip_by_kind(&mut self, clip: Clip<X>) -> (placed: Option<u64>)
        requires
            tracks_fit(old(self).tracks@),
            old(self).next_id < u64::MAX,
        ensures
            final(self).playhead == old(self).playhead,
            final(self).snapping_enabled == old(self).snapping_enabled,
            final(self).is_playing == old(self).is_playing,
            clip_kind(clip) is None ==> placed is None && final(self).tracks@ == old(self).tracks@
                && final(self).next_id == old(self).next_id,
            forall|k: int|
                clip_kind(clip) is Some && first_track_of_kind(old(self).tracks@, clip_kind(clip)->0, k) ==> {
                    &&& placed == Some(old(self).tracks@[k].id)
                    &&& appended_at_end(old(self).tracks@, final(self).tracks@, k, clip)
                    &&& final(self).next_id == old(self).next_id
                },
            clip_kind(clip) is Some && no_track_of_kind(old(self).tracks@, clip_kind(clip)->0) ==> {
                &&& placed == Some(old(self).next_id)
                &&& final(self).next_id == old(self).next_id + 1
                &&& final(self).tracks@.len() == old(self).tracks@.len() + 1
                &&& final(self).tracks@.drop_last() == old(self).tracks@
                &&& final(self).tracks@.last().id == old(self).next_id
                &&& final(self).tracks@.last().name@ == new_track_name(clip_kind(clip)->0)
                &&& final(self).tracks@.last().kind == clip_kind(clip)->0
                &&& final(self).tracks@.last().clips@ == seq![
                    Clip { track_id: old(self).next_id, timeline_start: TimeCode { micros: 0 }, ..clip },
                ]
            },
    {
        let kind = if clip.has_video {
            TrackKind::Video
        } else if clip.has_audio {
            TrackKind::Audio
        } else {
            return None;
        };
        match self.position_of_kind(kind) {
            Some(k) => {
                let id = self.tracks[k].id;
                self.append_at_end(k, clip);
                Some(id)
            },
            None => {
                let name = match kind {
                    TrackKind::Video => "Video Track".to_owned(),
                    TrackKind::Audio => "Audio Track".to_owned(),
                };
                let id = self.add_track(name, kind);
                let k = self.tracks.len() - 1;
                proof {
                    assert(self.tracks@[k as int].clips@.len() == 0);
                    assert forall|m: int| 0 <= m < self.tracks@.len() implies crate::track::clips_fit(
                        (#[trigger] self.tracks@[m]).clips@,
                    ) by {
                        if m < k {
                            assert(self.tracks@[m] == self.tracks@.drop_last()[m]);
                        }
                    }
                }
                let ghost before = self.tracks@;
                self.append_at_end(k, clip);
                proof {
                    let placed = at_track_end(clip, before[k as int]);
                    assert(latest_end(before[k as int].clips@) == 0);
                    assert(before[k as int].clips@.push(placed) =~= seq![placed]);
                    crate::sorting::lemma_sort_of_sorted(seq![placed], by_time::<Clip<X>>());
                    assert(self.tracks@.drop_last() =~= old(self).tracks@) by {
                        assert(before.drop_last() =~= old(self).tracks@);
                    }
                }
                Some(id)
            },
        }
    }

    /// Id of the first video track; when there is none, a new one named "Video Track" is
    /// added and its id returned.
    pub fn video_track_or_add(&mut self) -> (id: u64)
        requires
            old(self).next_id < u64::MAX,
        ensures
            final(self).playhead == old(self).playhead,
            final(self).snapping_enabled == old(self).snapping_enabled,
            final(self).is_playing == old(self).is_playing,
            forall|k: int|
                first_track_of_kind(old(self).tracks@, TrackKind::Video, k) ==> {
                    &&& id == old(self).tracks@[k].id
                    &&& *final(self) == *old(self)
                },
            no_track_of_kind(old(self).tracks@, TrackKind::Video) ==> {
                &&& id == old(self).next_id
                &&& final(self).next_id == old(self).next_id + 1
                &&& final(self).tracks@.len() == old(self).tracks@.len() + 1
                &&& final(self).tracks@.drop_last() == old(self).tracks@
                &&& final(self).tracks@.last().id == id
                &&& final(self).tracks@.last().name@ == new_track_name(TrackKind::Video)
                &&& final(self).tracks@.last().kind == TrackKind::Video
                &&& final(self).tracks@.last().clips@.len() == 0
            },
    {
        match self.position_of_kind(TrackKind::Video) {
            Some(k) => self.tracks[k].id,
            None => self.add_track("Video Track".to_owned(), TrackKind::Video),
        }
    }

    /// The track to drop an asset on: `preferred_track_id` when that track exists and is
    /// of the asset's kind (video when it has pictures, else audio), else the first track
    /// of that kind, else `preferred_track_id` all the same.
    pub fn resolve_drop_track(&self, has_video: bool, preferred_track_id: u64) -> (id: u64)
        ensures
            drop_track_ok(self.tracks@, has_video, preferred_track_id, id),
    {
        let kind = if has_video { TrackKind::Video } else { TrackKind::Audio };
        match self.position_of_track(preferred_track_id) {
            Some(i) => {
                if self.tracks[i].kind == kind {
                    return preferred_track_id;
                }
            },
            None => {},
        }
        match self.position_of_kind(kind) {
            Some(k) => self.tracks[k].id,
            None => preferred_track_id,
        }
    }

    /// Drop a clip near `start_time` on the track that `resolve_drop_track` picks for it:
    /// it starts where that track's last clip ends (never earlier, never later). The
    /// playhead goes back to zero, whether or not the track exists.
    pub fn place_clip_on_track(&mut self, clip: Clip<X>, preferred_track_id: u64, start_time: TimeCode)
        requires
            tracks_fit(old(self).tracks@),
        ensures
            final(self).playhead.micros == 0,
            final(self).snapping_enabled == old(self).snapping_enabled,
            final(self).is_playing == old(self).is_playing,
            final(self).next_id == old(self).next_id,
            exists|id: u64|
                {
                    &&& drop_track_ok(old(self).tracks@, clip.has_video, preferred_track_id, id)
                    &&& no_track_with_id(old(self).tracks@, id) ==> final(self).tracks@ == old(self).tracks@
                    &&& forall|k: int|
                        first_track_with_id(old(self).tracks@, id, k) ==> appended_at_end(
                            old(self).tracks@,
                            final(self).tracks@,
                            k,
                            clip,
                        )
                },
    {
        let id = self.resolve_drop_track(clip.has_video, preferred_track_id);
        let ghost before = self.tracks@;
        let ghost given_clip = clip;
        match self.position_of_track(id) {
            Some(k) => {
                assert(crate::track::clips_fit(self.tracks@[k as int].clips@));
                let end = self.tracks[k].duration();
                let earliest = if start_time.micros < end.micros { start_time } else { end };
                let start = if earliest.micros > end.micros { earliest } else { end };
                let ghost given = clip;
                let mut clip = clip;
                clip.timeline_start = start;
                self.append_at_end(k, clip);
                proof {
                    assert(at_track_end(clip, old(self).tracks@[k as int]) == at_track_end(
                        given,
                        old(self).tracks@[k as int],
                    ));
                }
            },
            None => {},
        }
        self.playhead = TimeCode::zero();
        proof {
            assert(drop_track_ok(before, given_clip.has_video, preferred_track_id, id));
            assert(forall|k: int|
                first_track_with_id(before, id, k) ==> appended_at_end(before, self.tracks@, k, given_clip));
            assert(no_track_with_id(before, id) ==> self.tracks@ == before);
            assert({
                &&& drop_track_ok(before, given_clip.has_video, preferred_track_id, id)
                &&& no_track_with_id(before, id) ==> self.tracks@ == before
                &&& forall|k: int|
                    first_track_with_id(before, id, k) ==> appended_at_end(before, self.tracks@, k, given_clip)
            });
        }
    }
}

} // verus!
