//! A clip: a trimmed, possibly sped-up span of a media source placed on the timeline.
//!
//! Playback speed is fixed-point: `NORMAL_SPEED` (one million) is 1.0x.
use vstd::prelude::*;
use crate::time::TimeCode;
use crate::envelope::{
    VolumeEnvelope, VolumeNode, CurveType, UNITY_GAIN, nodes_after_add, lemma_add_nonempty,
};
use crate::sorting::TimeKeyed;

verus! {

/// Speed of normal playback (1.0x).
pub const NORMAL_SPEED: u32 = 1_000_000;

/// Speeds at or below this (0.01x) are taken as normal speed.
pub const MIN_SPEED: u32 = 10_000;

/// The speed a clip plays at: too slow a speed counts as normal speed.
pub open spec fn effective_speed(speed: u32) -> int {
    if speed <= MIN_SPEED { NORMAL_SPEED as int } else { speed as int }
}

/// `x / d` rounded to the nearest integer, halves up (for `x >= 0`, `d > 0`).
pub open spec fn div_round(x: int, d: int) -> int {
    (2 * x + d) / (2 * d)
}

/// `x`, but no more than `i64::MAX`.
pub open spec fn saturate(x: int) -> int {
    if x > i64::MAX { i64::MAX as int } else { x }
}

/// Length of the trimmed part of the source: out-point minus in-point, at least zero.
pub open spec fn trimmed_micros(source_in: int, source_out: int) -> int {
    if source_out - source_in > 0 { source_out - source_in } else { 0 }
}

/// Timeline length of `trimmed` source microseconds played at `speed`.
pub open spec fn scaled_duration(trimmed: int, speed: u32) -> int {
    saturate(div_round(trimmed * 1_000_000, effective_speed(speed)))
}

/// Source microseconds covered by `offset` timeline microseconds played at `speed`.
pub open spec fn source_delta(offset: int, speed: u32) -> int {
    saturate(div_round(offset * effective_speed(speed), 1_000_000))
}

/// The nodes left after a cut at `cut`: those at or before it.
pub open spec fn nodes_up_to(s: Seq<VolumeNode>, cut: i64) -> Seq<VolumeNode> {
    s.filter(|n: VolumeNode| n.time_offset.micros <= cut)
}

/// The nodes (and next id) of a fresh envelope into which the nodes of `s` at or after
/// `cut` are added one by one, moved back by `cut`.
pub open spec fn shifted_tail(s: Seq<VolumeNode>, cut: i64) -> (Seq<VolumeNode>, u64)
    decreases s.len(),
{
    if s.len() == 0 {
        (Seq::empty(), 1)
    } else {
        let (acc, next) = shifted_tail(s.drop_last(), cut);
        let n = s.last();
        if n.time_offset.micros >= cut {
            (
                nodes_after_add(
                    acc,
                    next,
                    TimeCode { micros: (n.time_offset.micros - cut) as i64 },
                    n.gain,
                    n.curve,
                ),
                (next + 1) as u64,
            )
        } else {
            (acc, next)
        }
    }
}

/// The nodes (and next id) after an emptied envelope is refilled with a flat unity line
/// from zero to `duration`; a non-empty one is left as it is.
pub open spec fn refilled(s: Seq<VolumeNode>, next: u64, duration: TimeCode) -> (
    Seq<VolumeNode>,
    u64,
) {
    if s.len() == 0 {
        let first = nodes_after_add(s, next, TimeCode { micros: 0 }, UNITY_GAIN, CurveType::Linear);
        (
            nodes_after_add(first, (next + 1) as u64, duration, UNITY_GAIN, CurveType::Linear),
            (next + 2) as u64,
        )
    } else {
        (s, next)
    }
}

/// Scaling by a speed maps zero to zero and never makes a length negative.
pub proof fn lemma_scaling_signs(len: int, speed: u32)
    requires
        len >= 0,
    ensures
        scaled_duration(0, speed) == 0,
        scaled_duration(len, speed) >= 0,
        source_delta(len, speed) >= 0,
{
    let s = effective_speed(speed);
    assert(s > 0);
    assert(s / (2 * s) == 0) by (nonlinear_arith)
        requires
            s > 0,
    ;
    assert(div_round(len * 1_000_000, s) >= 0) by (nonlinear_arith)
        requires
            s > 0,
            len >= 0,
    ;
    assert(div_round(len * s, 1_000_000) >= 0) by (nonlinear_arith)
        requires
            s > 0,
            len >= 0,
    ;
}

/// A video or audio clip on a timeline track. What the editor shows and renders for it
/// (its name, media paths, transitions, slide background and elements) is `content`.
#[derive(Clone, Debug)]
pub struct Clip<X> {
    pub id: u64,
    pub track_id: u64,
    /// Total duration of the media source.
    pub source_duration: TimeCode,
    /// Trim in-point within source media.
    pub source_in: TimeCode,
    /// Trim out-point within source media.
    pub source_out: TimeCode,
    /// Start timestamp on the timeline.
    pub timeline_start: TimeCode,
    /// Fixed-point playback speed (`NORMAL_SPEED` is 1.0x).
    pub speed: u32,
    /// Volume automation envelope.
    pub volume_envelope: VolumeEnvelope,
    pub has_video: bool,
    pub has_audio: bool,
    /// Whether the clip is currently selected in the editor.
    pub is_selected: bool,
    /// Presentation data carried along with the clip.
    pub content: X,
}

impl<X> TimeKeyed for Clip<X> {
    open spec fn time_key_spec(&self) -> i64 {
        self.timeline_start.micros
    }

    fn time_key(&self) -> (k: i64) {
        self.timeline_start.micros
    }
}

impl<X> Clip<X> {
    /// Timeline length of the clip, in microseconds.
    pub open spec fn duration_spec(&self) -> int {
        scaled_duration(
            trimmed_micros(self.source_in.micros as int, self.source_out.micros as int),
            self.speed,
        )
    }

    /// Timeline position where the clip ends.
    pub open spec fn end_spec(&self) -> int {
        self.timeline_start.micros + self.duration_spec()
    }

    /// Whether `time` lies on the clip, both ends included.
    pub open spec fn contains_spec(&self, time: TimeCode) -> bool {
        self.timeline_start.micros <= time.micros <= self.end_spec()
    }

    /// The clip's trim length and end fit in an `i64`.
    pub open spec fn spans_fit(&self) -> bool {
        &&& i64::MIN <= self.source_out.micros - self.source_in.micros <= i64::MAX
        &&& self.end_spec() <= i64::MAX
    }

    /// The source position of timeline position `time` fits in an `i64`.
    pub open spec fn source_fits(&self, time: TimeCode) -> bool {
        self.source_in.micros + source_delta(
            time.micros - self.timeline_start.micros,
            self.speed,
        ) <= i64::MAX
    }

    /// `time` lies strictly inside the clip, where a split can be made.
    pub open spec fn splits_at(&self, time: TimeCode) -> bool {
        self.timeline_start.micros < time.micros < self.end_spec()
    }

    /// Splitting at `time`, if it lies on the clip, stays within machine integers.
    pub open spec fn split_ready(&self, time: TimeCode) -> bool {
        self.contains_spec(time) ==> {
            &&& self.source_fits(time)
            &&& self.volume_envelope.next_node_id < u64::MAX - 1
            &&& self.volume_envelope.nodes.len() < u64::MAX - 3
        }
    }

    /// A clip with the given source length, trimmed to all of it, at the start of the
    /// timeline, at normal speed, with a flat unity volume envelope.
    pub fn new(
        id: u64,
        track_id: u64,
        source_duration: TimeCode,
        has_video: bool,
        has_audio: bool,
        content: X,
    ) -> (c: Self)
        ensures
            c.id == id,
            c.track_id == track_id,
            c.source_duration == source_duration,
            c.source_in.micros == 0,
            c.source_out == source_duration,
            c.timeline_start.micros == 0,
            c.speed == NORMAL_SPEED,
            c.volume_envelope.nodes@ == crate::envelope::flat_nodes(source_duration),
            c.volume_envelope.enabled,
            c.volume_envelope.next_node_id == 3,
            c.has_video == has_video,
            c.has_audio == has_audio,
            !c.is_selected,
            c.content == content,
    {
        Clip {
            id,
            track_id,
            source_duration,
            source_in: TimeCode::zero(),
            source_out: source_duration,
            timeline_start: TimeCode::zero(),
            speed: NORMAL_SPEED,
            volume_envelope: VolumeEnvelope::default_for_duration(source_duration),
            has_video,
            has_audio,
            is_selected: false,
            content,
        }
    }

    /// Duration of the trimmed clip on the timeline: the trimmed source length divided
    /// by the speed, rounded, and capped at the largest time code.
    pub fn duration(&self) -> (d: TimeCode)
        requires
            i64::MIN <= self.source_out.micros - self.source_in.micros <= i64::MAX,
        ensures
            d.micros == self.duration_spec(),
            d.micros >= 0,
    {
        let diff: i64 = self.source_out.micros - self.source_in.micros;
        let trimmed: u128 = if diff > 0 { diff as u128 } else { 0 };
        let speed: u128 = if self.speed <= MIN_SPEED { 1_000_000 } else { self.speed as u128 };
        assert(trimmed * 2_000_000 <= 0x7fff_ffff_ffff_ffffu128 * 2_000_000) by (nonlinear_arith)
            requires
                trimmed <= 0x7fff_ffff_ffff_ffffu128,
        ;
        let scaled: u128 = (2 * (trimmed * 1_000_000) + speed) / (2 * speed);
        let micros: i64 = if scaled > 0x7fff_ffff_ffff_ffffu128 {
            0x7fff_ffff_ffff_ffff
        } else {
            scaled as i64
        };
        TimeCode { micros }
    }

    /// Whether the clip's trim length and end fit in an `i64` (what the editing
    /// operations ask of every clip).
    pub fn spans_in_range(&self) -> (b: bool)
        ensures
            b == self.spans_fit(),
    {
        let diff: i128 = self.source_out.micros as i128 - self.source_in.micros as i128;
        if diff < i64::MIN as i128 || diff > i64::MAX as i128 {
            return false;
        }
        let d = self.duration();
        (self.timeline_start.micros as i128 + d.micros as i128) <= i64::MAX as i128
    }

    /// End timestamp on the timeline.
    pub fn timeline_end(&self) -> (t: TimeCode)
        requires
            self.spans_fit(),
        ensures
            t.micros == self.end_spec(),
    {
        let d = self.duration();
        self.timeline_start.add(d)
    }

    /// Whether `time` falls within this clip (both ends included).
    pub fn contains_timeline_time(&self, time: TimeCode) -> (b: bool)
        requires
            self.spans_fit(),
        ensures
            b == self.contains_spec(time),
    {
        let end = self.timeline_end();
        time.micros >= self.timeline_start.micros && time.micros <= end.micros
    }

    /// Source position `source_delta` microseconds into the trimmed source, for a
    /// timeline position on the clip.
    fn source_point(&self, time: TimeCode) -> (t: TimeCode)
        requires
            self.spans_fit(),
            self.contains_spec(time),
            self.source_fits(time),
        ensures
            t.micros == self.source_in.micros + source_delta(
                time.micros - self.timeline_start.micros,
                self.speed,
            ),
    {
        let offset: i64 = time.micros - self.timeline_start.micros;
        let speed: u128 = if self.speed <= MIN_SPEED { 1_000_000 } else { self.speed as u128 };
        let off: u128 = offset as u128;
        assert(off * speed <= 0x7fff_ffff_ffff_ffffu128 * 0xffff_ffffu128) by (nonlinear_arith)
            requires
                off <= 0x7fff_ffff_ffff_ffffu128,
                speed <= 0xffff_ffffu128,
        ;
        let scaled: u128 = (2 * (off * speed) + 1_000_000) / 2_000_000;
        let delta: i64 = if scaled > 0x7fff_ffff_ffff_ffffu128 {
            0x7fff_ffff_ffff_ffff
        } else {
            scaled as i64
        };
        self.source_in.add(TimeCode::from_micros(delta))
    }

    /// Whether a split at `time` would stay within machine integers (see `split_ready`).
    pub fn split_ready_at(&self, time: TimeCode) -> (b: bool)
        requires
            self.spans_fit(),
        ensures
            b == self.split_ready(time),
    {
        if !self.contains_timeline_time(time) {
            return true;
        }
        let offset: i64 = time.micros - self.timeline_start.micros;
        let speed: u128 = if self.speed <= MIN_SPEED { 1_000_000 } else { self.speed as u128 };
        let off: u128 = offset as u128;
        assert(off * speed <= 0x7fff_ffff_ffff_ffffu128 * 0xffff_ffffu128) by (nonlinear_arith)
            requires
                off <= 0x7fff_ffff_ffff_ffffu128,
                speed <= 0xffff_ffffu128,
        ;
        let scaled: u128 = (2 * (off * speed) + 1_000_000) / 2_000_000;
        let delta: i64 = if scaled > 0x7fff_ffff_ffff_ffffu128 {
            0x7fff_ffff_ffff_ffff
        } else {
            scaled as i64
        };
        assert(delta == source_delta(offset as int, self.speed));
        let fits = (self.source_in.micros as i128) + (delta as i128) <= 0x7fff_ffff_ffff_ffffi128;
        fits && self.volume_envelope.next_node_id < u64::MAX - 1
            && (self.volume_envelope.nodes.len() as u128) < (u64::MAX - 3) as u128
    }

    /// The source media position shown at timeline position `timeline_time`, or none when
    /// the clip does not cover it.
    pub fn timeline_to_source_time(&self, timeline_time: TimeCode) -> (r: Option<TimeCode>)
        requires
            self.spans_fit(),
            self.contains_spec(timeline_time) ==> self.source_fits(timeline_time),
        ensures
            !self.contains_spec(timeline_time) ==> r is None,
            self.contains_spec(timeline_time) ==> r == Some(
                TimeCode {
                    micros: (self.source_in.micros + source_delta(
                        timeline_time.micros - self.timeline_start.micros,
                        self.speed,
                    )) as i64,
                },
            ),
    {
        if !self.contains_timeline_time(timeline_time) {
            return None;
        }
        Some(self.source_point(timeline_time))
    }
}

/// Drops the nodes after `cut`.
fn keep_nodes_up_to(env: &mut VolumeEnvelope, cut: TimeCode)
    ensures
        final(env).nodes@ == nodes_up_to(old(env).nodes@, cut.micros),
        final(env).enabled == old(env).enabled,
        final(env).next_node_id == old(env).next_node_id,
{
    let ghost s = env.nodes@;
    let ghost keep = |n: VolumeNode| n.time_offset.micros <= cut.micros;
    let mut kept: Vec<VolumeNode> = Vec::new();
    let mut i: usize = 0;
    proof {
        reveal(Seq::filter);
        assert(s.take(0) =~= Seq::<VolumeNode>::empty());
    }
    while i < env.nodes.len()
        invariant
            s == env.nodes@,
            i <= s.len(),
            keep == (|n: VolumeNode| n.time_offset.micros <= cut.micros),
            kept@ == s.take(i as int).filter(keep),
        decreases s.len() - i,
    {
        proof {
            reveal(Seq::filter);
            assert(s.take(i as int + 1).drop_last() =~= s.take(i as int));
            assert(s.take(i as int + 1).last() == s[i as int]);
        }
        let n = env.nodes[i];
        if n.time_offset.micros <= cut.micros {
            kept.push(n);
        }
        i = i + 1;
    }
    proof {
        assert(s.take(s.len() as int) =~= s);
    }
    env.nodes = kept;
}

/// Refills an emptied envelope with a flat unity line from zero to `duration`.
fn refill(env: &mut VolumeEnvelope, duration: TimeCode)
    requires
        old(env).next_node_id < u64::MAX - 1,
    ensures
        (final(env).nodes@, final(env).next_node_id) == refilled(
            old(env).nodes@,
            old(env).next_node_id,
            duration,
        ),
        final(env).enabled == old(env).enabled,
{
    if env.nodes.len() == 0 {
        env.add_node(TimeCode::zero(), UNITY_GAIN, CurveType::Linear);
        env.add_node(duration, UNITY_GAIN, CurveType::Linear);
    }
}

/// A fresh envelope holding the nodes of `nodes` at or after `cut`, moved back by `cut`.
fn tail_envelope(nodes: &Vec<VolumeNode>, cut: TimeCode) -> (e: VolumeEnvelope)
    requires
        cut.micros > 0,
        nodes.len() < u64::MAX - 3,
    ensures
        (e.nodes@, e.next_node_id) == shifted_tail(nodes@, cut.micros),
        e.enabled,
        e.next_node_id <= nodes.len() + 1,
{
    let mut e = VolumeEnvelope::new();
    let mut k: usize = 0;
    assert(nodes@.take(0) =~= Seq::<VolumeNode>::empty());
    while k < nodes.len()
        invariant
            k <= nodes.len(),
            nodes.len() < u64::MAX - 3,
            cut.micros > 0,
            (e.nodes@, e.next_node_id) == shifted_tail(nodes@.take(k as int), cut.micros),
            e.enabled,
            e.next_node_id <= k + 1,
        decreases nodes.len() - k,
    {
        proof {
            assert(nodes@.take(k as int + 1).drop_last() =~= nodes@.take(k as int));
            assert(nodes@.take(k as int + 1).last() == nodes@[k as int]);
        }
        let n = nodes[k];
        if n.time_offset.micros >= cut.micros {
            let shifted = TimeCode { micros: n.time_offset.micros - cut.micros };
            e.add_node(shifted, n.gain, n.curve);
        }
        k = k + 1;
    }
    assert(nodes@.take(nodes.len() as int) =~= nodes@);
    e
}

/// `first` and `second` are what splitting `c` at `split_time` leaves: `c` up to the
/// split point, and a new clip with id `new_id` from it on (its content a clone of `c`'s).
/// The source split point is `source_delta` of the cut into the source; each part keeps
/// the volume nodes on its side (the later part's moved to its own start, in a fresh
/// envelope), and a part left without nodes gets a flat unity envelope.
pub open spec fn split_parts<X: Clone>(
    c: Clip<X>,
    split_time: TimeCode,
    new_id: u64,
    first: Clip<X>,
    second: Clip<X>,
) -> bool {
    let cut = split_time.micros - c.timeline_start.micros;
    let split_source = TimeCode { micros: (c.source_in.micros + source_delta(cut, c.speed)) as i64 };
    let first_duration = TimeCode {
        micros: scaled_duration(
            trimmed_micros(c.source_in.micros as int, split_source.micros as int),
            c.speed,
        ) as i64,
    };
    let second_duration = TimeCode {
        micros: scaled_duration(
            trimmed_micros(split_source.micros as int, c.source_out.micros as int),
            c.speed,
        ) as i64,
    };
    let first_env = refilled(
        nodes_up_to(c.volume_envelope.nodes@, cut as i64),
        c.volume_envelope.next_node_id,
        first_duration,
    );
    let tail = shifted_tail(c.volume_envelope.nodes@, cut as i64);
    let second_env = refilled(tail.0, tail.1, second_duration);
    &&& first.id == c.id
    &&& first.track_id == c.track_id
    &&& first.source_duration == c.source_duration
    &&& first.source_in == c.source_in
    &&& first.source_out == split_source
    &&& first.timeline_start == c.timeline_start
    &&& first.speed == c.speed
    &&& first.volume_envelope.nodes@ == first_env.0
    &&& first.volume_envelope.next_node_id == first_env.1
    &&& first.volume_envelope.enabled == c.volume_envelope.enabled
    &&& first.has_video == c.has_video
    &&& first.has_audio == c.has_audio
    &&& first.is_selected == c.is_selected
    &&& first.content == c.content
    &&& second.id == new_id
    &&& second.track_id == c.track_id
    &&& second.source_duration == c.source_duration
    &&& second.source_in == split_source
    &&& second.source_out == c.source_out
    &&& second.timeline_start == split_time
    &&& second.speed == c.speed
    &&& second.volume_envelope.nodes@ == second_env.0
    &&& second.volume_envelope.next_node_id == second_env.1
    &&& second.volume_envelope.enabled
    &&& second.has_video == c.has_video
    &&& second.has_audio == c.has_audio
    &&& !second.is_selected
    &&& cloned(c.content, second.content)
}

/// At normal speed, scaling a length by the speed leaves it as it is.
proof fn lemma_normal_speed_identity(x: int, speed: u32)
    requires
        0 <= x <= i64::MAX,
        effective_speed(speed) == NORMAL_SPEED,
    ensures
        scaled_duration(x, speed) == x,
        source_delta(x, speed) == x,
{
    vstd::arithmetic::div_mod::lemma_fundamental_div_mod_converse(
        2 * (x * 1_000_000) + 1_000_000,
        2_000_000int,
        x,
        1_000_000int,
    );
    assert(x * 1_000_000 == 1_000_000 * x) by (nonlinear_arith);
}

/// At normal speed a split keeps the clip's span: the first part ends at the split time,
/// where the second begins, and the second ends where the whole clip ended; the source
/// is cut at one point that both parts share.
pub proof fn lemma_split_keeps_span<X: Clone>(
    c: Clip<X>,
    split_time: TimeCode,
    new_id: u64,
    first: Clip<X>,
    second: Clip<X>,
)
    requires
        c.spans_fit(),
        c.splits_at(split_time),
        effective_speed(c.speed) == NORMAL_SPEED,
        split_parts(c, split_time, new_id, first, second),
    ensures
        first.end_spec() == split_time.micros,
        second.timeline_start == split_time,
        second.end_spec() == c.end_spec(),
        first.source_in == c.source_in,
        first.source_out == second.source_in,
        second.source_out == c.source_out,
{
    let trim = trimmed_micros(c.source_in.micros as int, c.source_out.micros as int);
    lemma_normal_speed_identity(trim, c.speed);
    let cut = split_time.micros - c.timeline_start.micros;
    assert(0 < cut < trim);
    lemma_normal_speed_identity(cut, c.speed);
    lemma_normal_speed_identity(trim - cut, c.speed);
    assert(first.source_out.micros == c.source_in.micros + cut);
}

impl<X: Clone> Clip<X> {
    /// Split at `split_time`, strictly inside the clip: this clip keeps the part before
    /// it and the part after it is returned as a new clip with id `new_clip_id`. Each
    /// part keeps the volume nodes on its side (the later part's moved to its own start),
    /// and a part left without nodes gets a flat unity envelope. None, and no change,
    /// when `split_time` is not strictly inside the clip.
    pub fn split_at(&mut self, split_time: TimeCode, new_clip_id: u64) -> (r: Option<Clip<X>>)
        requires
            old(self).spans_fit(),
            old(self).split_ready(split_time),
        ensures
            !old(self).splits_at(split_time) ==> r is None && *final(self) == *old(self),
            old(self).splits_at(split_time) ==> r is Some && split_parts(
                *old(self),
                split_time,
                new_clip_id,
                *final(self),
                r.unwrap(),
            ),
    {
        let end = self.timeline_end();
        if split_time.micros <= self.timeline_start.micros || split_time.micros >= end.micros {
            return None;
        }
        let cut = TimeCode { micros: split_time.micros - self.timeline_start.micros };
        proof {
            lemma_scaling_signs(cut.micros as int, self.speed);
            let t = trimmed_micros(self.source_in.micros as int, self.source_out.micros as int);
            lemma_scaling_signs(t, self.speed);
            assert(self.source_out.micros > self.source_in.micros);
        }
        let split_source = self.source_point(split_time);
        let mut second = Clip {
            id: new_clip_id,
            track_id: self.track_id,
            source_duration: self.source_duration,
            source_in: split_source,
            source_out: self.source_out,
            timeline_start: split_time,
            speed: self.speed,
            volume_envelope: tail_envelope(&self.volume_envelope.nodes, cut),
            has_video: self.has_video,
            has_audio: self.has_audio,
            is_selected: false,
            content: self.content.clone(),
        };
        let second_duration = second.duration();
        refill(&mut second.volume_envelope, second_duration);
        self.source_out = split_source;
        keep_nodes_up_to(&mut self.volume_envelope, cut);
        let first_duration = self.duration();
        refill(&mut self.volume_envelope, first_duration);
        Some(second)
    }
}

} // verus!
