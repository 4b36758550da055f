//! Music preview: which song plays under the playhead, and from where in its file.
use vstd::prelude::*;
use std::time::Duration;
use crate::time::TimeCode;
use crate::track::TrackKind;
use crate::timeline::{Timeline, tracks_fit};

verus! {

/// The whole number of microseconds in a span (what `Duration::as_micros` gives).
pub uninterp spec fn duration_micros(d: Duration) -> nat;

/// `Duration::from_micros`: the span of exactly `micros` microseconds.
#[verifier::external_body]
fn duration_from_micros(micros: u64) -> (d: Duration)
    ensures
        duration_micros(d) == micros,
{
    Duration::from_micros(micros)
}

/// Microseconds into the song file to play from: how far the playhead is past the clip
/// start (none before it), plus the in-point (none when negative).
pub open spec fn music_offset_micros(clip_start: int, source_in: int, playhead: int) -> int {
    (if playhead - clip_start > 0 { playhead - clip_start } else { 0 }) + (if source_in > 0 {
        source_in
    } else {
        0
    })
}

/// Where inside the song file playback must start when the playhead sits over the clip:
/// the playhead's distance past the clip start plus the in-point.
pub fn music_source_offset(clip_start: TimeCode, source_in: TimeCode, playhead: TimeCode) -> (d: Duration)
    requires
        i64::MIN <= playhead.micros - clip_start.micros <= i64::MAX,
        music_offset_micros(clip_start.micros as int, source_in.micros as int, playhead.micros as int)
            <= i64::MAX,
    ensures
        duration_micros(d) == music_offset_micros(
            clip_start.micros as int,
            source_in.micros as int,
            playhead.micros as int,
        ),
{
    let gap = playhead.micros - clip_start.micros;
    let past: i64 = if gap > 0 { gap } else { 0 };
    let inpoint: i64 = if source_in.micros > 0 { source_in.micros } else { 0 };
    let micros = past + inpoint;
    duration_from_micros(micros as u64)
}

/// Track `k` is the first audio track of `s`, and clip `j` the first clip on it that has
/// sound and lies on `time` before its end (at a boundary the later song wins).
pub open spec fn song_at<X>(s: Seq<crate::track::Track<X>>, time: TimeCode, k: int, j: int) -> bool {
    &&& 0 <= k < s.len()
    &&& s[k].kind == TrackKind::Audio
    &&& forall|a: int| 0 <= a < k ==> (#[trigger] s[a]).kind != TrackKind::Audio
    &&& 0 <= j < s[k].clips@.len()
    &&& song_clip(s[k].clips@[j], time)
    &&& forall|b: int| 0 <= b < j ==> !song_clip(#[trigger] s[k].clips@[b], time)
}

/// The clip has sound and lies on `time` before its end.
pub open spec fn song_clip<X>(c: crate::clip::Clip<X>, time: TimeCode) -> bool {
    c.has_audio && c.contains_spec(time) && time.micros < c.end_spec()
}

impl<X> Timeline<X> {
    /// The song playing at `time`: on the first audio track, the first clip with sound that
    /// lies on `time` before its end. None when there is no audio track or no such clip.
    pub fn music_clip_at(&self, time: TimeCode) -> (r: Option<(usize, usize)>)
        requires
            tracks_fit(self.tracks@),
        ensures
            match r {
                Some((k, j)) => song_at(self.tracks@, time, k as int, j as int),
                None => forall|k: int, j: int| !song_at(self.tracks@, time, k, j),
            },
    {
        let mut k: usize = 0;
        while k < self.tracks.len()
            invariant
                k <= self.tracks.len(),
                forall|a: int| 0 <= a < k ==> (#[trigger] self.tracks@[a]).kind != TrackKind::Audio,
            ensures
                k <= self.tracks.len(),
                forall|a: int| 0 <= a < k ==> (#[trigger] self.tracks@[a]).kind != TrackKind::Audio,
                k < self.tracks.len() ==> self.tracks@[k as int].kind == TrackKind::Audio,
            decreases self.tracks.len() - k,
        {
            if self.tracks[k].kind == TrackKind::Audio {
                break;
            }
            k = k + 1;
        }
        if k == self.tracks.len() {
            return None;
        }
        let track = &self.tracks[k];
        assert(crate::track::clips_fit(track.clips@));
        let mut j: usize = 0;
        while j < track.clips.len()
            invariant
                j <= track.clips.len(),
                k < self.tracks.len(),
                *track == self.tracks@[k as int],
                self.tracks@[k as int].kind == TrackKind::Audio,
                forall|a: int| 0 <= a < k ==> (#[trigger] self.tracks@[a]).kind != TrackKind::Audio,
                crate::track::clips_fit(track.clips@),
                forall|b: int| 0 <= b < j ==> !song_clip(#[trigger] track.clips@[b], time),
            decreases track.clips.len() - j,
        {
            let c = &track.clips[j];
            assert(c.spans_fit());
            if c.has_audio && c.contains_timeline_time(time) && time.micros < c.timeline_end().micros {
                return Some((k, j));
            }
            j = j + 1;
        }
        proof {
            assert forall|a: int, b: int| !song_at(self.tracks@, time, a, b) by {
                if song_at(self.tracks@, time, a, b) {
                    if a < k {
                    } else if a > k {
                        assert(self.tracks@[k as int].kind != TrackKind::Audio);
                    } else {
                        assert(!song_clip(track.clips@[b], time));
                    }
                }
            }
        }
        None
    }
}

} // verus!
