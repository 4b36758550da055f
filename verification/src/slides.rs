//! Slideshow editing: the clips of the video tracks are slides played one after another.
use vstd::prelude::*;
use crate::time::TimeCode;
use crate::clip::{Clip, lemma_scaling_signs, trimmed_micros};
use crate::track::{Track, TrackKind, first_clip_with_id, no_clip_with_id};
use crate::envelope::{VolumeEnvelope, VolumeNode};
use crate::timeline::{Timeline, clip_pos, tracks_fit, deselected};

verus! {

/// The kind of each track of `s`.
pub open spec fn track_kinds<X>(s: Seq<Track<X>>) -> Seq<TrackKind> {
    s.map_values(|t: Track<X>| t.kind)
}

/// The clips of each track of `s`.
pub open spec fn track_lists<X>(s: Seq<Track<X>>) -> Seq<Seq<Clip<X>>> {
    s.map_values(|t: Track<X>| t.clips@)
}

/// Total timeline length of the clips of `cs`.
pub open spec fn clips_total<X>(cs: Seq<Clip<X>>) -> int
    decreases cs.len(),
{
    if cs.len() == 0 {
        0
    } else {
        clips_total(cs.drop_last()) + cs.last().duration_spec()
    }
}

/// Total length of the slides on the video tracks before track `k`.
pub open spec fn slides_before<X>(kinds: Seq<TrackKind>, lists: Seq<Seq<Clip<X>>>, k: int) -> int
    decreases k,
{
    if k <= 0 {
        0
    } else {
        slides_before(kinds, lists, k - 1) + if kinds[k - 1] == TrackKind::Video {
            clips_total(lists[k - 1])
        } else {
            0
        }
    }
}

/// Every clip's trim length fits in an `i64`.
pub open spec fn trims_fit<X>(lists: Seq<Seq<Clip<X>>>) -> bool {
    forall|k: int, j: int|
        0 <= k < lists.len() && 0 <= j < lists[k].len() ==> i64::MIN <= (#[trigger] lists[k][j]).source_out.micros
            - lists[k][j].source_in.micros <= i64::MAX
}

/// The clips of track `k` after the slides are laid end to end from zero: on the video
/// tracks, taken in order, each slide starts where the previous one ends; other tracks
/// keep their clips.
pub open spec fn reflowed<X>(kinds: Seq<TrackKind>, lists: Seq<Seq<Clip<X>>>, k: int) -> Seq<Clip<X>> {
    if kinds[k] == TrackKind::Video {
        Seq::new(
            lists[k].len(),
            |j: int|
                Clip {
                    timeline_start: TimeCode {
                        micros: (slides_before(kinds, lists, k) + clips_total(lists[k].take(j))) as i64,
                    },
                    ..lists[k][j]
                },
        )
    } else {
        lists[k]
    }
}

/// Slide lists can be laid end to end within an `i64` of microseconds.
pub open spec fn can_reflow<X>(kinds: Seq<TrackKind>, lists: Seq<Seq<Clip<X>>>) -> bool {
    &&& kinds.len() == lists.len()
    &&& trims_fit(lists)
    &&& slides_before(kinds, lists, kinds.len() as int) <= i64::MAX
}

/// The list with the slide at `from` moved to `to`, when both are positions of it.
pub open spec fn moved_slide<X>(cs: Seq<Clip<X>>, from: int, to: int) -> Seq<Clip<X>> {
    if from < cs.len() && to < cs.len() {
        cs.remove(from).insert(to, cs[from])
    } else {
        cs
    }
}

/// The lists after moving slide `from` to `to` on every video track.
pub open spec fn reordered<X>(kinds: Seq<TrackKind>, lists: Seq<Seq<Clip<X>>>, from: int, to: int) -> Seq<Seq<Clip<X>>> {
    Seq::new(
        lists.len(),
        |k: int|
            if kinds[k] == TrackKind::Video {
                moved_slide(lists[k], from, to)
            } else {
                lists[k]
            },
    )
}

/// The lists after removing the slides with id `id` from every video track.
pub open spec fn without_slide<X>(kinds: Seq<TrackKind>, lists: Seq<Seq<Clip<X>>>, id: u64) -> Seq<Seq<Clip<X>>> {
    Seq::new(
        lists.len(),
        |k: int|
            if kinds[k] == TrackKind::Video {
                lists[k].filter(|c: Clip<X>| c.id != id)
            } else {
                lists[k]
            },
    )
}

/// Clip lengths are never negative, so totals never are.
pub proof fn lemma_clips_total_prefix<X>(cs: Seq<Clip<X>>, j: int)
    requires
        0 <= j <= cs.len(),
    ensures
        0 <= clips_total(cs.take(j)) <= clips_total(cs),
    decreases cs.len(),
{
    if cs.len() > 0 {
        let d = cs.drop_last();
        let c = cs.last();
        lemma_scaling_signs(trimmed_micros(c.source_in.micros as int, c.source_out.micros as int), c.speed);
        if j == cs.len() {
            assert(cs.take(j) =~= cs);
            lemma_clips_total_prefix(d, d.len() as int);
            assert(d.take(d.len() as int) =~= d);
        } else {
            lemma_clips_total_prefix(d, j);
            assert(d.take(j) =~= cs.take(j));
        }
    } else {
        assert(cs.take(j) =~= cs);
    }
}

/// Slide totals grow from track to track.
pub proof fn lemma_slides_before_grows<X>(kinds: Seq<TrackKind>, lists: Seq<Seq<Clip<X>>>, a: int, b: int)
    requires
        0 <= a <= b <= kinds.len(),
        kinds.len() == lists.len(),
    ensures
        0 <= slides_before(kinds, lists, a) <= slides_before(kinds, lists, b),
    decreases b,
{
    if b > 0 {
        if a < b {
            lemma_slides_before_grows(kinds, lists, a, b - 1);
        } else {
            lemma_slides_before_grows(kinds, lists, 0, b - 1);
        }
        lemma_clips_total_prefix(lists[b - 1], 0);
        assert(lists[b - 1].take(0) =~= Seq::<Clip<X>>::empty());
    }
}

/// Once the slides are laid end to end, each slide on a video track starts exactly where
/// the one before it on that track ends.
pub proof fn lemma_reflow_contiguous<X>(kinds: Seq<TrackKind>, lists: Seq<Seq<Clip<X>>>, k: int, j: int)
    requires
        can_reflow(kinds, lists),
        0 <= k < kinds.len(),
        kinds[k] == TrackKind::Video,
        0 <= j,
        j + 1 < lists[k].len(),
    ensures
        reflowed(kinds, lists, k)[j + 1].timeline_start.micros == reflowed(kinds, lists, k)[j].timeline_start.micros
            + lists[k][j].duration_spec(),
{
    let cs = lists[k];
    assert(cs.take(j + 1).drop_last() =~= cs.take(j));
    assert(cs.take(j + 1).last() == cs[j]);
    lemma_clips_total_prefix(cs, j);
    lemma_clips_total_prefix(cs, j + 1);
    lemma_slides_before_grows(kinds, lists, 0, k);
    lemma_slides_before_grows(kinds, lists, k + 1, kinds.len() as int);
    assert(slides_before(kinds, lists, k + 1) == slides_before(kinds, lists, k) + clips_total(cs));
}

proof fn lemma_clips_total_append<X>(a: Seq<Clip<X>>, b: Seq<Clip<X>>)
    ensures
        clips_total(a + b) == clips_total(a) + clips_total(b),
    decreases b.len(),
{
    if b.len() > 0 {
        assert((a + b).drop_last() =~= a + b.drop_last());
        lemma_clips_total_append(a, b.drop_last());
    } else {
        assert(a + b =~= a);
    }
}

proof fn lemma_clips_total_single<X>(c: Clip<X>)
    ensures
        clips_total(seq![c]) == c.duration_spec(),
{
    assert(seq![c].drop_last() =~= Seq::<Clip<X>>::empty());
    assert(clips_total(Seq::<Clip<X>>::empty()) == 0);
}

/// Every slide of a list after a move is one of the list's slides.
proof fn lemma_moved_elements<X>(cs: Seq<Clip<X>>, from: int, to: int, j: int)
    requires
        0 <= from,
        0 <= to,
        0 <= j < moved_slide(cs, from, to).len(),
    ensures
        cs.contains(moved_slide(cs, from, to)[j]),
{
    let m = moved_slide(cs, from, to);
    if from < cs.len() && to < cs.len() {
        let rm = cs.remove(from);
        if j < to {
            assert(m[j] == rm[j]);
            if j < from {
                assert(rm[j] == cs[j]);
            } else {
                assert(rm[j] == cs[j + 1]);
            }
        } else if j == to {
            assert(m[j] == cs[from]);
        } else {
            assert(m[j] == rm[j - 1]);
            if j - 1 < from {
                assert(rm[j - 1] == cs[j - 1]);
            } else {
                assert(rm[j - 1] == cs[j]);
            }
        }
    } else {
        assert(m[j] == cs[j]);
    }
}

/// Moving a slide within its list keeps the list's total length.
proof fn lemma_moved_total<X>(cs: Seq<Clip<X>>, from: int, to: int)
    requires
        0 <= from,
        0 <= to,
    ensures
        clips_total(moved_slide(cs, from, to)) == clips_total(cs),
{
    if 0 <= from < cs.len() && 0 <= to < cs.len() {
        let x = cs[from];
        let r = cs.remove(from);
        assert(cs =~= cs.take(from) + seq![x] + cs.skip(from + 1));
        assert(r =~= cs.take(from) + cs.skip(from + 1));
        lemma_clips_total_append(cs.take(from) + seq![x], cs.skip(from + 1));
        lemma_clips_total_append(cs.take(from), seq![x]);
        lemma_clips_total_append(cs.take(from), cs.skip(from + 1));
        lemma_clips_total_single(x);
        let m = r.insert(to, x);
        assert(m =~= r.take(to) + seq![x] + r.skip(to));
        assert(r =~= r.take(to) + r.skip(to));
        lemma_clips_total_append(r.take(to) + seq![x], r.skip(to));
        lemma_clips_total_append(r.take(to), seq![x]);
        lemma_clips_total_append(r.take(to), r.skip(to));
    }
}

/// Keeping some of a list's clips never makes it longer.
proof fn lemma_filter_total<X>(cs: Seq<Clip<X>>, p: spec_fn(Clip<X>) -> bool)
    ensures
        0 <= clips_total(cs.filter(p)) <= clips_total(cs),
    decreases cs.len(),
{
    reveal(Seq::filter);
    if cs.len() > 0 {
        let c = cs.last();
        lemma_filter_total(cs.drop_last(), p);
        lemma_scaling_signs(trimmed_micros(c.source_in.micros as int, c.source_out.micros as int), c.speed);
        if p(c) {
            assert(cs.filter(p).drop_last() =~= cs.drop_last().filter(p));
        }
    }
}

/// Slide totals up to track `k` compare as the per-track totals of the video tracks do.
proof fn lemma_slides_before_le<X>(kinds: Seq<TrackKind>, a: Seq<Seq<Clip<X>>>, b: Seq<Seq<Clip<X>>>, k: int)
    requires
        0 <= k <= a.len(),
        a.len() == b.len(),
        forall|m: int| 0 <= m < a.len() && kinds[m] == TrackKind::Video ==> clips_total(#[trigger] a[m]) <= clips_total(b[m]),
    ensures
        slides_before(kinds, a, k) <= slides_before(kinds, b, k),
    decreases k,
{
    if k > 0 {
        lemma_slides_before_le(kinds, a, b, k - 1);
        if kinds[k - 1] == TrackKind::Video {
            assert(clips_total(a[k - 1]) <= clips_total(b[k - 1]));
        }
    }
}

/// `c` with its start set to `t`.
pub open spec fn started_at<X>(c: Clip<X>, t: TimeCode) -> Clip<X> {
    Clip { timeline_start: t, ..c }
}

/// Moving slide `from` to `to` on a video track puts that slide at position `to`; the
/// other slides keep their relative order, and every slide is unchanged but for its
/// start. Tracks of other kinds keep their clips.
pub proof fn lemma_reorder_moves_slide<X>(kinds: Seq<TrackKind>, lists: Seq<Seq<Clip<X>>>, from: int, to: int, k: int)
    requires
        kinds.len() == lists.len(),
        0 <= k < lists.len(),
        0 <= from,
        0 <= to,
    ensures
        ({
            let r = reflowed(kinds, reordered(kinds, lists, from, to), k);
            let cs = lists[k];
            &&& r.len() == cs.len()
            &&& kinds[k] != TrackKind::Video ==> r == cs
            &&& (kinds[k] == TrackKind::Video && from < cs.len() && to < cs.len()) ==> {
                &&& started_at(r[to], cs[from].timeline_start) == cs[from]
                &&& forall|j: int|
                    0 <= j < cs.len() - 1 ==> started_at(
                        #[trigger] r.remove(to)[j],
                        cs.remove(from)[j].timeline_start,
                    ) == cs.remove(from)[j]
            }
        }),
{
    let cs = lists[k];
    let m = reordered(kinds, lists, from, to)[k];
    let r = reflowed(kinds, reordered(kinds, lists, from, to), k);
    if kinds[k] == TrackKind::Video && from < cs.len() && to < cs.len() {
        let rm = cs.remove(from);
        assert(m == rm.insert(to, cs[from]));
        assert(m.remove(to) =~= rm);
        assert(m[to] == cs[from]);
        assert(r[to] == started_at(m[to], r[to].timeline_start));
        assert forall|j: int| 0 <= j < cs.len() - 1 implies started_at(
            #[trigger] r.remove(to)[j],
            cs.remove(from)[j].timeline_start,
        ) == cs.remove(from)[j] by {
            let jj = if j < to { j } else { j + 1 };
            assert(r.remove(to)[j] == r[jj]);
            assert(m.remove(to)[j] == m[jj]);
            assert(r[jj] == started_at(m[jj], r[jj].timeline_start));
        }
    }
}

/// Moving a slide, or deleting slides, keeps a slideshow that could be laid end to end
/// one that still can: clip spans are kept, and no track gets longer.
pub proof fn lemma_reorder_and_delete_keep_reflow<X>(kinds: Seq<TrackKind>, lists: Seq<Seq<Clip<X>>>, from: int, to: int, id: u64)
    requires
        can_reflow(kinds, lists),
        0 <= from,
        0 <= to,
    ensures
        can_reflow(kinds, reordered(kinds, lists, from, to)),
        can_reflow(kinds, without_slide(kinds, lists, id)),
{
    let r = reordered(kinds, lists, from, to);
    let w = without_slide(kinds, lists, id);
    assert forall|m: int| 0 <= m < lists.len() && kinds[m] == TrackKind::Video implies clips_total(#[trigger] r[m]) <= clips_total(lists[m]) by {
        lemma_moved_total(lists[m], from, to);
    }
    assert forall|m: int| 0 <= m < lists.len() && kinds[m] == TrackKind::Video implies clips_total(#[trigger] w[m]) <= clips_total(lists[m]) by {
        lemma_filter_total(lists[m], |c: Clip<X>| c.id != id);
    }
    lemma_slides_before_le(kinds, r, lists, kinds.len() as int);
    lemma_slides_before_le(kinds, w, lists, kinds.len() as int);
    lemma_slides_before_grows(kinds, r, 0, kinds.len() as int);
    lemma_slides_before_grows(kinds, w, 0, kinds.len() as int);
    assert forall|k: int, j: int| 0 <= k < r.len() && 0 <= j < r[k].len() implies i64::MIN <= (#[trigger] r[k][j]).source_out.micros
        - r[k][j].source_in.micros <= i64::MAX by {
        if kinds[k] == TrackKind::Video {
            lemma_moved_elements(lists[k], from, to, j);
            let i = choose|i: int| 0 <= i < lists[k].len() && lists[k][i] == r[k][j];
            assert(i64::MIN <= lists[k][i].source_out.micros - lists[k][i].source_in.micros <= i64::MAX);
        }
    }
    assert forall|k: int, j: int| 0 <= k < w.len() && 0 <= j < w[k].len() implies i64::MIN <= (#[trigger] w[k][j]).source_out.micros
        - w[k][j].source_in.micros <= i64::MAX by {
        if kinds[k] == TrackKind::Video {
            let p = |c: Clip<X>| c.id != id;
            assert(w[k] == lists[k].filter(p));
            assert(w[k].contains(w[k][j]));
            lists[k].lemma_filter_contains_rev(p, w[k][j]);
            let i = choose|i: int| 0 <= i < lists[k].len() && lists[k][i] == w[k][j];
            assert(i64::MIN <= lists[k][i].source_out.micros - lists[k][i].source_in.micros <= i64::MAX);
        }
    }
}

/// Clip `j` of track `k` is the first clip on a video track of `s` (track by track,
/// each from its start) for which `p` holds.
pub open spec fn first_slide_where<X>(s: Seq<Track<X>>, p: spec_fn(Clip<X>) -> bool, k: int, j: int) -> bool {
    &&& clip_pos(s, k, j)
    &&& s[k].kind == TrackKind::Video
    &&& p(s[k].clips@[j])
    &&& forall|a: int, b: int|
        0 <= a < k && 0 <= b < s[a].clips@.len() && s[a].kind == TrackKind::Video ==> !p(
            #[trigger] s[a].clips@[b],
        )
    &&& forall|b: int| 0 <= b < j ==> !p(#[trigger] s[k].clips@[b])
}

/// `p` holds for no clip on a video track of `s`.
pub open spec fn no_slide_where<X>(s: Seq<Track<X>>, p: spec_fn(Clip<X>) -> bool) -> bool {
    forall|a: int, b: int|
        clip_pos(s, a, b) && s[a].kind == TrackKind::Video ==> !p(#[trigger] s[a].clips@[b])
}

/// The slide is selected.
pub open spec fn selected_slide<X>() -> spec_fn(Clip<X>) -> bool {
    |c: Clip<X>| c.is_selected
}

/// The slide lies on `time`.
pub open spec fn slide_at<X>(time: TimeCode) -> spec_fn(Clip<X>) -> bool {
    |c: Clip<X>| c.contains_spec(time)
}

/// Any slide.
pub open spec fn any_slide<X>() -> spec_fn(Clip<X>) -> bool {
    |c: Clip<X>| true
}

/// Keeps the clips whose id is not `id`.
fn drop_id<X>(clips: Vec<Clip<X>>, id: u64) -> (r: Vec<Clip<X>>)
    ensures
        r@ == clips@.filter(|c: Clip<X>| c.id != id),
{
    let ghost s = clips@;
    let ghost keep = |c: Clip<X>| c.id != id;
    let mut rest = clips;
    let n = rest.len();
    let mut kept: Vec<Clip<X>> = Vec::new();
    let mut i: usize = 0;
    proof {
        reveal(Seq::filter);
        assert(s.take(0) =~= Seq::<Clip<X>>::empty());
    }
    while i < n
        invariant
            n == s.len(),
            i <= n,
            rest@ == s.skip(i as int),
            keep == (|c: Clip<X>| c.id != id),
            kept@ == s.take(i as int).filter(keep),
        decreases n - i,
    {
        proof {
            reveal(Seq::filter);
            assert(s.take(i as int + 1).drop_last() =~= s.take(i as int));
            assert(s.take(i as int + 1).last() == s[i as int]);
        }
        let c = rest.remove(0);
        assert(c == s[i as int]);
        assert(rest@ =~= s.skip(i as int + 1));
        if c.id != id {
            kept.push(c);
        }
        i = i + 1;
    }
    assert(s.take(n as int) =~= s);
    kept
}

impl<X> Timeline<X> {
    /// Lay the slides end to end from zero: on the video tracks, in order, each slide
    /// starts where the previous one ends.
    pub fn reflow_slide_timeline_positions(&mut self)
        requires
            can_reflow(track_kinds(old(self).tracks@), track_lists(old(self).tracks@)),
        ensures
            final(self).same_but_tracks(old(self)),
            final(self).tracks@.len() == old(self).tracks@.len(),
            forall|k: int|
                0 <= k < old(self).tracks@.len() ==> {
                    &&& (#[trigger] final(self).tracks@[k]).same_but_clips(&old(self).tracks@[k])
                    &&& final(self).tracks@[k].clips@ == reflowed(
                        track_kinds(old(self).tracks@),
                        track_lists(old(self).tracks@),
                        k,
                    )
                },
    {
        let ghost kinds = track_kinds(self.tracks@);
        let ghost lists = track_lists(self.tracks@);
        let mut cur = TimeCode::zero();
        let mut k: usize = 0;
        while k < self.tracks.len()
            invariant
                k <= self.tracks.len(),
                kinds == track_kinds(old(self).tracks@),
                lists == track_lists(old(self).tracks@),
                can_reflow(kinds, lists),
                self.same_but_tracks(old(self)),
                self.tracks@.len() == old(self).tracks@.len(),
                cur.micros == slides_before(kinds, lists, k as int),
                forall|m: int|
                    0 <= m < self.tracks@.len() ==> (#[trigger] self.tracks@[m]).same_but_clips(
                        &old(self).tracks@[m],
                    ),
                forall|m: int| 0 <= m < k ==> (#[trigger] self.tracks@[m]).clips@ == reflowed(kinds, lists, m),
                forall|m: int|
                    k <= m < self.tracks@.len() ==> (#[trigger] self.tracks@[m]).clips@ == old(
                        self,
                    ).tracks@[m].clips@,
            decreases old(self).tracks@.len() - k,
        {
            assert(self.tracks@[k as int].kind == kinds[k as int]);
            assert(self.tracks@[k as int].clips@ == lists[k as int]);
            if self.tracks[k].kind == TrackKind::Video {
                let ghost cs = lists[k as int];
                let ghost base = cur.micros as int;
                let mut j: usize = 0;
                assert(cs.take(0) =~= Seq::<Clip<X>>::empty());
                while j < self.tracks[k].clips.len()
                    invariant
                        k < self.tracks.len(),
                        kinds == track_kinds(old(self).tracks@),
                        lists == track_lists(old(self).tracks@),
                        can_reflow(kinds, lists),
                        kinds[k as int] == TrackKind::Video,
                        cs == lists[k as int],
                        base == slides_before(kinds, lists, k as int),
                        self.same_but_tracks(old(self)),
                        self.tracks@.len() == old(self).tracks@.len(),
                        j <= cs.len(),
                        self.tracks@[k as int].clips@.len() == cs.len(),
                        cur.micros == base + clips_total(cs.take(j as int)),
                        forall|m: int|
                            0 <= m < self.tracks@.len() ==> (#[trigger] self.tracks@[m]).same_but_clips(
                                &old(self).tracks@[m],
                            ),
                        forall|m: int| 0 <= m < k ==> (#[trigger] self.tracks@[m]).clips@ == reflowed(kinds, lists, m),
                        forall|m: int|
                            k < m < self.tracks@.len() ==> (#[trigger] self.tracks@[m]).clips@ == old(
                                self,
                            ).tracks@[m].clips@,
                        forall|b: int|
                            0 <= b < j ==> #[trigger] self.tracks@[k as int].clips@[b] == reflowed(kinds, lists, k as int)[b],
                        forall|b: int|
                            j <= b < cs.len() ==> #[trigger] self.tracks@[k as int].clips@[b] == cs[b],
                    decreases cs.len() - j,
                {
                    assert(self.tracks@[k as int].clips@[j as int] == cs[j as int]);
                    assert(i64::MIN <= cs[j as int].source_out.micros - cs[j as int].source_in.micros <= i64::MAX) by {
                        assert(lists[k as int][j as int] == cs[j as int]);
                    }
                    let d = self.tracks[k].clips[j].duration();
                    proof {
                        assert(cs.take(j as int + 1).drop_last() =~= cs.take(j as int));
                        assert(cs.take(j as int + 1).last() == cs[j as int]);
                        lemma_clips_total_prefix(cs, j as int + 1);
                        lemma_slides_before_grows(kinds, lists, k as int + 1, kinds.len() as int);
                        assert(slides_before(kinds, lists, k as int + 1) == base + clips_total(cs));
                    }
                    self.tracks[k].clips[j].timeline_start = cur;
                    cur = cur.add(d);
                    j = j + 1;
                }
                assert(cs.take(cs.len() as int) =~= cs);
                assert(self.tracks@[k as int].clips@ =~= reflowed(kinds, lists, k as int));
            } else {
                assert(self.tracks@[k as int].clips@ =~= reflowed(kinds, lists, k as int));
            }
            k = k + 1;
        }
    }

    /// Whether the slides can be laid end to end (`can_reflow`): every clip's trim fits
    /// in an `i64`, and so does the total length of the slides.
    pub fn can_reflow_slides(&self) -> (b: bool)
        ensures
            b == can_reflow(track_kinds(self.tracks@), track_lists(self.tracks@)),
    {
        let ghost kinds = track_kinds(self.tracks@);
        let ghost lists = track_lists(self.tracks@);
        let mut k: usize = 0;
        while k < self.tracks.len()
            invariant
                k <= self.tracks.len(),
                lists == track_lists(self.tracks@),
                forall|a: int, j: int|
                    0 <= a < k && 0 <= j < lists[a].len() ==> i64::MIN <= (#[trigger] lists[a][j]).source_out.micros
                        - lists[a][j].source_in.micros <= i64::MAX,
            decreases self.tracks.len() - k,
        {
            let mut j: usize = 0;
            while j < self.tracks[k].clips.len()
                invariant
                    k < self.tracks.len(),
                    lists == track_lists(self.tracks@),
                    j <= self.tracks@[k as int].clips@.len(),
                    forall|a: int, b: int|
                        0 <= a < k && 0 <= b < lists[a].len() ==> i64::MIN <= (#[trigger] lists[a][b]).source_out.micros
                            - lists[a][b].source_in.micros <= i64::MAX,
                    forall|b: int|
                        0 <= b < j ==> i64::MIN <= (#[trigger] lists[k as int][b]).source_out.micros
                            - lists[k as int][b].source_in.micros <= i64::MAX,
                decreases self.tracks@[k as int].clips@.len() - j,
            {
                assert(lists[k as int] == self.tracks@[k as int].clips@);
                let c = &self.tracks[k].clips[j];
                let diff: i128 = c.source_out.micros as i128 - c.source_in.micros as i128;
                if diff < i64::MIN as i128 || diff > i64::MAX as i128 {
                    assert(!trims_fit(lists));
                    return false;
                }
                j = j + 1;
            }
            assert(lists[k as int] == self.tracks@[k as int].clips@);
            k = k + 1;
        }
        assert(trims_fit(lists));
        let mut total: i128 = 0;
        let mut k: usize = 0;
        while k < self.tracks.len()
            invariant
                k <= self.tracks.len(),
                kinds == track_kinds(self.tracks@),
                lists == track_lists(self.tracks@),
                kinds.len() == lists.len(),
                trims_fit(lists),
                total == slides_before(kinds, lists, k as int),
                0 <= total <= i64::MAX,
            decreases self.tracks.len() - k,
        {
            assert(kinds[k as int] == self.tracks@[k as int].kind);
            assert(lists[k as int] == self.tracks@[k as int].clips@);
            if self.tracks[k].kind == TrackKind::Video {
                let mut j: usize = 0;
                while j < self.tracks[k].clips.len()
                    invariant
                        k < self.tracks.len(),
                        kinds == track_kinds(self.tracks@),
                        lists == track_lists(self.tracks@),
                        kinds.len() == lists.len(),
                        lists[k as int] == self.tracks@[k as int].clips@,
                        kinds[k as int] == TrackKind::Video,
                        trims_fit(lists),
                        j <= lists[k as int].len(),
                        total == slides_before(kinds, lists, k as int) + clips_total(lists[k as int].take(j as int)),
                        0 <= total <= i64::MAX,
                    decreases lists[k as int].len() - j,
                {
                    let ghost cs = lists[k as int];
                    assert(i64::MIN <= cs[j as int].source_out.micros - cs[j as int].source_in.micros <= i64::MAX);
                    let d = self.tracks[k].clips[j].duration();
                    proof {
                        assert(cs.take(j as int + 1).drop_last() =~= cs.take(j as int));
                        assert(cs.take(j as int + 1).last() == cs[j as int]);
                    }
                    total = total + d.micros as i128;
                    if total > i64::MAX as i128 {
                        proof {
                            lemma_clips_total_prefix(cs, j as int + 1);
                            lemma_slides_before_grows(kinds, lists, k as int + 1, kinds.len() as int);
                            assert(slides_before(kinds, lists, k as int + 1) == slides_before(kinds, lists, k as int)
                                + clips_total(cs));
                        }
                        return false;
                    }
                    j = j + 1;
                }
                assert(lists[k as int].take(lists[k as int].len() as int) =~= lists[k as int]);
            }
            k = k + 1;
        }
        true
    }

    /// Move the slide at position `from` to position `to` on every video track where
    /// both are positions, then lay the slides end to end.
    pub fn reorder_slide(&mut self, from_idx: usize, to_idx: usize)
        requires
            can_reflow(
                track_kinds(old(self).tracks@),
                reordered(
                    track_kinds(old(self).tracks@),
                    track_lists(old(self).tracks@),
                    from_idx as int,
                    to_idx as int,
                ),
            ),
        ensures
            final(self).same_but_tracks(old(self)),
            final(self).tracks@.len() == old(self).tracks@.len(),
            forall|k: int|
                0 <= k < old(self).tracks@.len() ==> {
                    &&& (#[trigger] final(self).tracks@[k]).same_but_clips(&old(self).tracks@[k])
                    &&& final(self).tracks@[k].clips@ == reflowed(
                        track_kinds(old(self).tracks@),
                        reordered(
                            track_kinds(old(self).tracks@),
                            track_lists(old(self).tracks@),
                            from_idx as int,
                            to_idx as int,
                        ),
                        k,
                    )
                },
    {
        let ghost kinds = track_kinds(self.tracks@);
        let ghost want = reordered(kinds, track_lists(self.tracks@), from_idx as int, to_idx as int);
        let mut k: usize = 0;
        while k < self.tracks.len()
            invariant
                k <= self.tracks.len(),
                kinds == track_kinds(old(self).tracks@),
                want == reordered(kinds, track_lists(old(self).tracks@), from_idx as int, to_idx as int),
                self.same_but_tracks(old(self)),
                self.tracks@.len() == old(self).tracks@.len(),
                forall|m: int|
                    0 <= m < self.tracks@.len() ==> (#[trigger] self.tracks@[m]).same_but_clips(
                        &old(self).tracks@[m],
                    ),
                forall|m: int| 0 <= m < k ==> (#[trigger] self.tracks@[m]).clips@ == want[m],
                forall|m: int|
                    k <= m < self.tracks@.len() ==> (#[trigger] self.tracks@[m]).clips@ == old(
                        self,
                    ).tracks@[m].clips@,
            decreases old(self).tracks@.len() - k,
        {
            assert(self.tracks@[k as int].kind == kinds[k as int]);
            if self.tracks[k].kind == TrackKind::Video {
                let n = self.tracks[k].clips.len();
                if from_idx < n && to_idx < n {
                    let ghost cs = self.tracks@[k as int].clips@;
                    let c = self.tracks[k].clips.remove(from_idx);
                    self.tracks[k].clips.insert(to_idx, c);
                    assert(self.tracks@[k as int].clips@ =~= cs.remove(from_idx as int).insert(to_idx as int, cs[from_idx as int]));
                }
            }
            assert(self.tracks@[k as int].clips@ == want[k as int]);
            k = k + 1;
        }
        assert(track_kinds(self.tracks@) =~= kinds);
        assert(track_lists(self.tracks@) =~= want);
        self.reflow_slide_timeline_positions();
    }

    /// Remove the slides with id `clip_id` from every video track, then lay the slides
    /// end to end.
    pub fn delete_slide_by_id(&mut self, clip_id: u64)
        requires
            can_reflow(
                track_kinds(old(self).tracks@),
                without_slide(track_kinds(old(self).tracks@), track_lists(old(self).tracks@), clip_id),
            ),
        ensures
            final(self).same_but_tracks(old(self)),
            final(self).tracks@.len() == old(self).tracks@.len(),
            forall|k: int|
                0 <= k < old(self).tracks@.len() ==> {
                    &&& (#[trigger] final(self).tracks@[k]).same_but_clips(&old(self).tracks@[k])
                    &&& final(self).tracks@[k].clips@ == reflowed(
                        track_kinds(old(self).tracks@),
                        without_slide(track_kinds(old(self).tracks@), track_lists(old(self).tracks@), clip_id),
                        k,
                    )
                },
    {
        let ghost kinds = track_kinds(self.tracks@);
        let ghost want = without_slide(kinds, track_lists(self.tracks@), clip_id);
        let mut k: usize = 0;
        while k < self.tracks.len()
            invariant
                k <= self.tracks.len(),
                kinds == track_kinds(old(self).tracks@),
                want == without_slide(kinds, track_lists(old(self).tracks@), clip_id),
                self.same_but_tracks(old(self)),
                self.tracks@.len() == old(self).tracks@.len(),
                forall|m: int|
                    0 <= m < self.tracks@.len() ==> (#[trigger] self.tracks@[m]).same_but_clips(
                        &old(self).tracks@[m],
                    ),
                forall|m: int| 0 <= m < k ==> (#[trigger] self.tracks@[m]).clips@ == want[m],
                forall|m: int|
                    k <= m < self.tracks@.len() ==> (#[trigger] self.tracks@[m]).clips@ == old(
                        self,
                    ).tracks@[m].clips@,
            decreases old(self).tracks@.len() - k,
        {
            assert(self.tracks@[k as int].kind == kinds[k as int]);
            if self.tracks[k].kind == TrackKind::Video {
                let mut clips: Vec<Clip<X>> = Vec::new();
                std::mem::swap(&mut clips, &mut self.tracks[k].clips);
                let kept = drop_id(clips, clip_id);
                self.tracks[k].clips = kept;
            }
            assert(self.tracks@[k as int].clips@ == want[k as int]);
            k = k + 1;
        }
        assert(track_kinds(self.tracks@) =~= kinds);
        assert(track_lists(self.tracks@) =~= want);
        self.reflow_slide_timeline_positions();
    }

    /// First slide (track by track over the video tracks) that is selected (mode 0), lies
    /// on the playhead (mode 1), or is any slide (mode 2).
    fn find_slide(&self, mode: u8) -> (r: Option<(usize, usize)>)
        requires
            tracks_fit(self.tracks@),
            mode <= 2,
        ensures
            ({
                let p = if mode == 0 {
                    selected_slide::<X>()
                } else if mode == 1 {
                    slide_at::<X>(self.playhead)
                } else {
                    any_slide::<X>()
                };
                match r {
                    Some((k, j)) => first_slide_where(self.tracks@, p, k as int, j as int),
                    None => no_slide_where(self.tracks@, p),
                }
            }),
    {
        let ghost p = if mode == 0 {
            selected_slide::<X>()
        } else if mode == 1 {
            slide_at::<X>(self.playhead)
        } else {
            any_slide::<X>()
        };
        let mut k: usize = 0;
        while k < self.tracks.len()
            invariant
                k <= self.tracks.len(),
                tracks_fit(self.tracks@),
                mode <= 2,
                p == (if mode == 0 {
                    selected_slide::<X>()
                } else if mode == 1 {
                    slide_at::<X>(self.playhead)
                } else {
                    any_slide::<X>()
                }),
                forall|a: int, b: int|
                    0 <= a < k && 0 <= b < self.tracks@[a].clips@.len() && self.tracks@[a].kind
                        == TrackKind::Video ==> !p(#[trigger] self.tracks@[a].clips@[b]),
            decreases self.tracks.len() - k,
        {
            if self.tracks[k].kind == TrackKind::Video {
                let mut j: usize = 0;
                while j < self.tracks[k].clips.len()
                    invariant
                        k < self.tracks.len(),
                        tracks_fit(self.tracks@),
                        mode <= 2,
                        p == (if mode == 0 {
                            selected_slide::<X>()
                        } else if mode == 1 {
                            slide_at::<X>(self.playhead)
                        } else {
                            any_slide::<X>()
                        }),
                        self.tracks@[k as int].kind == TrackKind::Video,
                        j <= self.tracks@[k as int].clips@.len(),
                        forall|a: int, b: int|
                            0 <= a < k && 0 <= b < self.tracks@[a].clips@.len() && self.tracks@[a].kind
                                == TrackKind::Video ==> !p(#[trigger] self.tracks@[a].clips@[b]),
                        forall|b: int| 0 <= b < j ==> !p(#[trigger] self.tracks@[k as int].clips@[b]),
                    decreases self.tracks@[k as int].clips@.len() - j,
                {
                    let hit = if mode == 0 {
                        self.tracks[k].clips[j].is_selected
                    } else if mode == 1 {
                        assert(crate::track::clips_fit(self.tracks@[k as int].clips@));
                        self.tracks[k].clips[j].contains_timeline_time(self.playhead)
                    } else {
                        true
                    };
                    if hit {
                        return Some((k, j));
                    }
                    j = j + 1;
                }
            }
            k = k + 1;
        }
        None
    }

    /// The active slide: the first selected slide on a video track, else the first one
    /// under the playhead, else the first slide of all.
    pub fn active_slide(&self) -> (r: Option<&Clip<X>>)
        requires
            tracks_fit(self.tracks@),
        ensures
            forall|k: int, j: int|
                first_slide_where(self.tracks@, selected_slide::<X>(), k, j) ==> r == Some(
                    &self.tracks@[k].clips@[j],
                ),
            no_slide_where(self.tracks@, selected_slide::<X>()) ==> forall|k: int, j: int|
                first_slide_where(self.tracks@, slide_at::<X>(self.playhead), k, j) ==> r == Some(
                    &self.tracks@[k].clips@[j],
                ),
            no_slide_where(self.tracks@, selected_slide::<X>()) && no_slide_where(
                self.tracks@,
                slide_at::<X>(self.playhead),
            ) ==> forall|k: int, j: int|
                first_slide_where(self.tracks@, any_slide::<X>(), k, j) ==> r == Some(&self.tracks@[k].clips@[j]),
            no_slide_where(self.tracks@, any_slide::<X>()) ==> r is None,
    {
        let mut mode: u8 = 0;
        while mode <= 2
            invariant
                tracks_fit(self.tracks@),
                mode <= 3,
                mode >= 1 ==> no_slide_where(self.tracks@, selected_slide::<X>()),
                mode >= 2 ==> no_slide_where(self.tracks@, slide_at::<X>(self.playhead)),
                mode >= 3 ==> no_slide_where(self.tracks@, any_slide::<X>()),
            decreases 3 - mode,
        {
            match self.find_slide(mode) {
                Some((k, j)) => {
                    proof {
                        let p = if mode == 0 {
                            selected_slide::<X>()
                        } else if mode == 1 {
                            slide_at::<X>(self.playhead)
                        } else {
                            any_slide::<X>()
                        };
                        lemma_first_slide_unique(self.tracks@, p, k as int, j as int);
                    }
                    return Some(&self.tracks[k].clips[j]);
                },
                None => {},
            }
            mode = mode + 1;
        }
        None
    }
}

/// The first slide for which a test holds is the only one that is first.
proof fn lemma_first_slide_unique<X>(s: Seq<Track<X>>, p: spec_fn(Clip<X>) -> bool, k: int, j: int)
    requires
        first_slide_where(s, p, k, j),
    ensures
        forall|a: int, b: int| first_slide_where(s, p, a, b) ==> a == k && b == j,
{
    assert forall|a: int, b: int| first_slide_where(s, p, a, b) implies a == k && b == j by {
        if a < k {
            assert(!p(s[a].clips@[b]));
        } else if a > k {
            assert(!p(s[k].clips@[j]));
        } else if b < j {
            assert(!p(s[k].clips@[b]));
        } else if b > j {
            assert(!p(s[k].clips@[j]));
        }
    }
}

/// `k` is the first video track of `s` with a slide of id `id`, and `j` the first such
/// slide on it.
pub open spec fn first_slide_with_id<X>(s: Seq<Track<X>>, id: u64, k: int, j: int) -> bool {
    &&& 0 <= k < s.len()
    &&& s[k].kind == TrackKind::Video
    &&& first_clip_with_id(s[k].clips@, id, j)
    &&& forall|a: int| 0 <= a < k && (#[trigger] s[a]).kind == TrackKind::Video ==> no_clip_with_id(s[a].clips@, id)
}

/// No video track of `s` has a slide of id `id`.
pub open spec fn no_slide_with_id<X>(s: Seq<Track<X>>, id: u64) -> bool {
    forall|a: int| 0 <= a < s.len() && (#[trigger] s[a]).kind == TrackKind::Video ==> no_clip_with_id(s[a].clips@, id)
}

/// `d` is a selected copy of slide `c` under the id `new_id`: same source, trim, place,
/// speed, streams and volume nodes, its presentation data cloned.
pub open spec fn is_slide_copy<X: Clone>(c: Clip<X>, new_id: u64, d: Clip<X>) -> bool {
    &&& d.id == new_id
    &&& d.track_id == c.track_id
    &&& d.source_duration == c.source_duration
    &&& d.source_in == c.source_in
    &&& d.source_out == c.source_out
    &&& d.timeline_start == c.timeline_start
    &&& d.speed == c.speed
    &&& d.volume_envelope.nodes@ == c.volume_envelope.nodes@
    &&& d.volume_envelope.enabled == c.volume_envelope.enabled
    &&& d.volume_envelope.next_node_id == c.volume_envelope.next_node_id
    &&& d.has_video == c.has_video
    &&& d.has_audio == c.has_audio
    &&& d.is_selected
    &&& cloned(c.content, d.content)
}

/// The lists with every slide of track `k` deselected and `d` put right after slide `j`.
pub open spec fn with_duplicate<X>(lists: Seq<Seq<Clip<X>>>, k: int, j: int, d: Clip<X>) -> Seq<Seq<Clip<X>>> {
    lists.update(k, lists[k].map_values(|c: Clip<X>| deselected(c)).insert(j + 1, d))
}

/// Two clips take the same span of source at the same speed.
pub open spec fn same_span<X>(a: Clip<X>, b: Clip<X>) -> bool {
    a.source_in == b.source_in && a.source_out == b.source_out && a.speed == b.speed
}

/// Two sets of lists of the same shape whose clips pair up with the same spans.
pub open spec fn same_spans<X>(a: Seq<Seq<Clip<X>>>, b: Seq<Seq<Clip<X>>>) -> bool {
    &&& a.len() == b.len()
    &&& forall|k: int| 0 <= k < a.len() ==> (#[trigger] a[k]).len() == b[k].len()
    &&& forall|k: int, j: int| 0 <= k < a.len() && 0 <= j < a[k].len() ==> same_span(#[trigger] a[k][j], b[k][j])
}

proof fn lemma_clips_total_same<X>(a: Seq<Clip<X>>, b: Seq<Clip<X>>)
    requires
        a.len() == b.len(),
        forall|j: int| 0 <= j < a.len() ==> same_span(#[trigger] a[j], b[j]),
    ensures
        clips_total(a) == clips_total(b),
    decreases a.len(),
{
    if a.len() > 0 {
        assert(same_span(a[a.len() - 1], b[a.len() - 1]));
        lemma_clips_total_same(a.drop_last(), b.drop_last());
    }
}

proof fn lemma_slides_before_same<X>(kinds: Seq<TrackKind>, a: Seq<Seq<Clip<X>>>, b: Seq<Seq<Clip<X>>>, k: int)
    requires
        same_spans(a, b),
        k <= a.len(),
    ensures
        slides_before(kinds, a, k) == slides_before(kinds, b, k),
    decreases k,
{
    if k > 0 {
        lemma_slides_before_same(kinds, a, b, k - 1);
        assert(a[k - 1].len() == b[k - 1].len());
        assert forall|j: int| 0 <= j < a[k - 1].len() implies same_span(#[trigger] a[k - 1][j], b[k - 1][j]) by {
            assert(same_span(a[k - 1][j], b[k - 1][j]));
        }
        lemma_clips_total_same(a[k - 1], b[k - 1]);
    }
}

/// Lists of the same spans can both be laid end to end, or neither.
proof fn lemma_can_reflow_same<X>(kinds: Seq<TrackKind>, a: Seq<Seq<Clip<X>>>, b: Seq<Seq<Clip<X>>>)
    requires
        same_spans(a, b),
        can_reflow(kinds, a),
    ensures
        can_reflow(kinds, b),
{
    lemma_slides_before_same(kinds, a, b, kinds.len() as int);
    assert forall|k: int, j: int| 0 <= k < b.len() && 0 <= j < b[k].len() implies i64::MIN <= (
    #[trigger] b[k][j]).source_out.micros - b[k][j].source_in.micros <= i64::MAX by {
        assert(a[k].len() == b[k].len());
        assert(same_span(a[k][j], b[k][j]));
    }
}

/// Copies the volume nodes one by one.
fn copy_nodes(v: &Vec<VolumeNode>) -> (r: Vec<VolumeNode>)
    ensures
        r@ == v@,
{
    let mut r: Vec<VolumeNode> = Vec::new();
    let mut i: usize = 0;
    while i < v.len()
        invariant
            i <= v.len(),
            r@ == v@.take(i as int),
        decreases v.len() - i,
    {
        r.push(v[i]);
        i = i + 1;
        assert(r@ =~= v@.take(i as int));
    }
    assert(v@.take(v.len() as int) =~= v@);
    r
}

/// A selected copy of slide `c` under the id `new_id`.
fn slide_copy<X: Clone>(c: &Clip<X>, new_id: u64) -> (d: Clip<X>)
    ensures
        is_slide_copy(*c, new_id, d),
{
    Clip {
        id: new_id,
        track_id: c.track_id,
        source_duration: c.source_duration,
        source_in: c.source_in,
        source_out: c.source_out,
        timeline_start: c.timeline_start,
        speed: c.speed,
        volume_envelope: VolumeEnvelope {
            nodes: copy_nodes(&c.volume_envelope.nodes),
            enabled: c.volume_envelope.enabled,
            next_node_id: c.volume_envelope.next_node_id,
        },
        has_video: c.has_video,
        has_audio: c.has_audio,
        is_selected: true,
        content: c.content.clone(),
    }
}

impl<X: Clone> Timeline<X> {
    /// Duplicate the slide `clip_id` on the first video track that has it: the copy takes
    /// the next id, goes right after it and is the only selected slide of that track.
    /// Then the slides are laid end to end. The next id is used up even when no slide
    /// has that id.
    pub fn duplicate_slide(&mut self, clip_id: u64)
        requires
            old(self).next_id < u64::MAX,
            no_slide_with_id(old(self).tracks@, clip_id) ==> can_reflow(
                track_kinds(old(self).tracks@),
                track_lists(old(self).tracks@),
            ),
            forall|k: int, j: int|
                first_slide_with_id(old(self).tracks@, clip_id, k, j) ==> can_reflow(
                    track_kinds(old(self).tracks@),
                    with_duplicate(track_lists(old(self).tracks@), k, j, old(self).tracks@[k].clips@[j]),
                ),
        ensures
            final(self).next_id == old(self).next_id + 1,
            final(self).playhead == old(self).playhead,
            final(self).snapping_enabled == old(self).snapping_enabled,
            final(self).is_playing == old(self).is_playing,
            final(self).tracks@.len() == old(self).tracks@.len(),
            forall|k: int|
                0 <= k < old(self).tracks@.len() ==> (#[trigger] final(self).tracks@[k]).same_but_clips(
                    &old(self).tracks@[k],
                ),
            no_slide_with_id(old(self).tracks@, clip_id) ==> forall|k: int|
                0 <= k < old(self).tracks@.len() ==> (#[trigger] final(self).tracks@[k]).clips@ == reflowed(
                    track_kinds(old(self).tracks@),
                    track_lists(old(self).tracks@),
                    k,
                ),
            forall|k0: int, j0: int|
                first_slide_with_id(old(self).tracks@, clip_id, k0, j0) ==> exists|d: Clip<X>|
                    {
                        &&& is_slide_copy(old(self).tracks@[k0].clips@[j0], old(self).next_id, d)
                        &&& forall|k: int|
                            0 <= k < old(self).tracks@.len() ==> (#[trigger] final(self).tracks@[k]).clips@
                                == reflowed(
                                track_kinds(old(self).tracks@),
                                with_duplicate(track_lists(old(self).tracks@), k0, j0, d),
                                k,
                            )
                    },
    {
        let ghost kinds = track_kinds(self.tracks@);
        let ghost lists = track_lists(self.tracks@);
        let new_id = self.next_id();
        let mut k: usize = 0;
        while k < self.tracks.len()
            invariant
                k <= self.tracks.len(),
                self.tracks@ == old(self).tracks@,
                kinds == track_kinds(old(self).tracks@),
                lists == track_lists(old(self).tracks@),
                self.next_id == old(self).next_id + 1,
                self.playhead == old(self).playhead,
                self.snapping_enabled == old(self).snapping_enabled,
                self.is_playing == old(self).is_playing,
                new_id == old(self).next_id,
                old(self).next_id < u64::MAX,
                forall|a: int|
                    0 <= a < k && (#[trigger] self.tracks@[a]).kind == TrackKind::Video ==> no_clip_with_id(
                        self.tracks@[a].clips@,
                        clip_id,
                    ),
                no_slide_with_id(old(self).tracks@, clip_id) ==> can_reflow(kinds, lists),
                forall|k: int, j: int|
                    first_slide_with_id(old(self).tracks@, clip_id, k, j) ==> can_reflow(
                        kinds,
                        with_duplicate(lists, k, j, old(self).tracks@[k].clips@[j]),
                    ),
            decreases self.tracks.len() - k,
        {
            if self.tracks[k].kind == TrackKind::Video {
                let mut j: usize = 0;
                while j < self.tracks[k].clips.len()
                    invariant
                        k < self.tracks.len(),
                        j <= self.tracks@[k as int].clips@.len(),
                        forall|b: int| 0 <= b < j ==> (#[trigger] self.tracks@[k as int].clips@[b]).id != clip_id,
                    ensures
                        j <= self.tracks@[k as int].clips@.len(),
                        j < self.tracks@[k as int].clips@.len() ==> self.tracks@[k as int].clips@[j as int].id
                            == clip_id,
                        forall|b: int| 0 <= b < j ==> (#[trigger] self.tracks@[k as int].clips@[b]).id != clip_id,
                    decreases self.tracks@[k as int].clips@.len() - j,
                {
                    if self.tracks[k].clips[j].id == clip_id {
                        break;
                    }
                    j = j + 1;
                }
                if j < self.tracks[k].clips.len() {
                    let ghost ki = k as int;
                    let ghost ji = j as int;
                    assert(first_slide_with_id(old(self).tracks@, clip_id, ki, ji));
                    let ghost c = self.tracks@[ki].clips@[ji];
                    let dup = slide_copy(&self.tracks[k].clips[j], new_id);
                    self.duplicate_at(k, j, dup);
                    proof {
                        assert(lists[ki] == old(self).tracks@[ki].clips@);
                        assert(lists[ki][ji] == c);
                        let newl = track_lists(self.tracks@);
                        let want = with_duplicate(lists, ki, ji, dup);
                        assert(newl =~= want) by {
                            assert forall|m: int| 0 <= m < newl.len() implies newl[m] == want[m] by {
                                if m != ki {
                                    assert(self.tracks@[m] == old(self).tracks@[m]);
                                }
                            }
                        }
                        assert(track_kinds(self.tracks@) =~= kinds) by {
                            assert forall|m: int| 0 <= m < kinds.len() implies track_kinds(self.tracks@)[m] == kinds[m] by {
                                assert(self.tracks@[m].kind == old(self).tracks@[m].kind);
                            }
                        }
                        let template = with_duplicate(lists, ki, ji, c);
                        assert(same_spans(template, want)) by {
                            assert forall|m: int| 0 <= m < template.len() implies (#[trigger] template[m]).len() == want[m].len() by {}
                            assert forall|m: int, i: int|
                                0 <= m < template.len() && 0 <= i < template[m].len() implies same_span(
                                #[trigger] template[m][i],
                                want[m][i],
                            ) by {
                                if m == ki && i == ji + 1 {
                                    assert(template[m][i] == c);
                                    assert(want[m][i] == dup);
                                }
                            }
                        }
                        lemma_can_reflow_same(kinds, template, want);
                    }
                    self.reflow_slide_timeline_positions();
                    proof {
                        assert(is_slide_copy(old(self).tracks@[ki].clips@[ji], old(self).next_id, dup));
                        assert forall|k0: int, j0: int| first_slide_with_id(old(self).tracks@, clip_id, k0, j0) implies k0 == ki && j0 == ji by {
                            if k0 < ki {
                                assert(no_clip_with_id(old(self).tracks@[k0].clips@, clip_id));
                                assert(old(self).tracks@[k0].clips@[j0].id == clip_id);
                            } else if k0 > ki {
                                assert(no_clip_with_id(old(self).tracks@[ki].clips@, clip_id));
                                assert(old(self).tracks@[ki].clips@[ji].id == clip_id);
                            } else if j0 < ji {
                                assert(old(self).tracks@[ki].clips@[j0].id != clip_id);
                            } else if j0 > ji {
                                assert(old(self).tracks@[ki].clips@[ji].id != clip_id);
                            }
                        }
                    }
                    return;
                }
                assert(no_clip_with_id(self.tracks@[k as int].clips@, clip_id));
            }
            k = k + 1;
        }
        proof {
            assert(no_slide_with_id(old(self).tracks@, clip_id));
        }
        self.reflow_slide_timeline_positions();
    }

    /// Deselects every slide of track `k` and puts `dup` right after slide `j`.
    fn duplicate_at(&mut self, k: usize, j: usize, dup: Clip<X>)
        requires
            k < old(self).tracks@.len(),
            j < old(self).tracks@[k as int].clips@.len(),
        ensures
            final(self).same_but_tracks(old(self)),
            final(self).tracks@.len() == old(self).tracks@.len(),
            forall|m: int| 0 <= m < old(self).tracks@.len() && m != k ==> final(self).tracks@[m] == old(self).tracks@[m],
            final(self).tracks@[k as int].same_but_clips(&old(self).tracks@[k as int]),
            final(self).tracks@[k as int].clips@ == old(self).tracks@[k as int].clips@.map_values(
                |c: Clip<X>| deselected(c),
            ).insert(j + 1, dup),
    {
        let n = self.tracks[k].clips.len();
        let mut i: usize = 0;
        while i < n
            invariant
                k < self.tracks.len(),
                n == old(self).tracks@[k as int].clips@.len(),
                i <= n,
                self.same_but_tracks(old(self)),
                self.tracks@.len() == old(self).tracks@.len(),
                forall|m: int| 0 <= m < old(self).tracks@.len() && m != k ==> self.tracks@[m] == old(self).tracks@[m],
                self.tracks@[k as int].same_but_clips(&old(self).tracks@[k as int]),
                self.tracks@[k as int].clips@.len() == n,
                forall|b: int| 0 <= b < i ==> #[trigger] self.tracks@[k as int].clips@[b] == deselected(
                    old(self).tracks@[k as int].clips@[b],
                ),
                forall|b: int| i <= b < n ==> #[trigger] self.tracks@[k as int].clips@[b] == old(self).tracks@[k as int].clips@[b],
            decreases n - i,
        {
            self.tracks[k].clips[i].is_selected = false;
            i = i + 1;
        }
        assert(self.tracks@[k as int].clips@ =~= old(self).tracks@[k as int].clips@.map_values(
            |c: Clip<X>| deselected(c),
        ));
        self.tracks[k].clips.insert(j + 1, dup);
    }
}

} // verus!
