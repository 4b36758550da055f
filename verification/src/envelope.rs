//! Volume automation: a line graph of gain keyframes over a clip.
//!
//! Gains are fixed-point: `UNITY_GAIN` (one million) stands for a linear factor of 1.0,
//! and every stored gain lies between 0 and `MAX_GAIN` (a factor of 4.0).
use vstd::prelude::*;
use crate::time::TimeCode;
use crate::sorting::{
    TimeKeyed, by_time, sort_by_key, sorted_by_key, sort_by_time, lemma_sort_sorted,
    distinct_by, lemma_sort_keeps, lemma_filter_keeps, lemma_sort_of_sorted, lemma_insert_shape,
    insert_by_key,
};

verus! {

/// Gain of a linear factor of 1.0 (0 dB).
pub const UNITY_GAIN: u32 = 1_000_000;

/// Largest gain a node may hold (a linear factor of 4.0).
pub const MAX_GAIN: u32 = 4_000_000;

/// Two nodes closer than this many microseconds are one node.
pub const MERGE_WINDOW_MICROS: i64 = 5_000;

/// Type of curve interpolation between two volume nodes.
#[derive(Clone, Copy, Debug, PartialEq, Eq, Structural)]
pub enum CurveType {
    Linear,
    SmoothBezier,
    EaseInOut,
    Hold,
}

impl Default for CurveType {
    fn default() -> (c: Self)
        ensures
            c == CurveType::Linear,
    {
        CurveType::Linear
    }
}

/// A gain clamped into the range a node may hold.
pub open spec fn clamp_gain(gain: u32) -> u32 {
    if gain > MAX_GAIN { MAX_GAIN } else { gain }
}

/// A single keyframe node on the volume envelope line graph.
#[derive(Clone, Copy, Debug, PartialEq, Eq, Structural)]
pub struct VolumeNode {
    pub id: u64,
    /// Time offset relative to clip start.
    pub time_offset: TimeCode,
    /// Fixed-point gain (`UNITY_GAIN` is a factor of 1.0).
    pub gain: u32,
    /// Interpolation type leading to the next node.
    pub curve: CurveType,
}

impl VolumeNode {
    /// A node whose gain is clamped to at most `MAX_GAIN`.
    pub fn new(id: u64, time_offset: TimeCode, gain: u32, curve: CurveType) -> (n: Self)
        ensures
            n == (VolumeNode { id, time_offset, gain: clamp_gain(gain), curve }),
    {
        VolumeNode { id, time_offset, gain: if gain > MAX_GAIN { MAX_GAIN } else { gain }, curve }
    }
}

impl TimeKeyed for VolumeNode {
    open spec fn time_key_spec(&self) -> i64 {
        self.time_offset.micros
    }

    fn time_key(&self) -> (k: i64) {
        self.time_offset.micros
    }
}

/// Whether a node sits within the merge window of `time`.
pub open spec fn is_near(n: VolumeNode, time: TimeCode) -> bool {
    -MERGE_WINDOW_MICROS < n.time_offset.micros - time.micros < MERGE_WINDOW_MICROS
}

/// `i` is the first index of `s` whose node sits within the merge window of `time`.
pub open spec fn first_near(s: Seq<VolumeNode>, time: TimeCode, i: int) -> bool {
    &&& 0 <= i < s.len()
    &&& is_near(s[i], time)
    &&& forall|j: int| 0 <= j < i ==> !is_near(#[trigger] s[j], time)
}

/// No node of `s` sits within the merge window of `time`.
pub open spec fn none_near(s: Seq<VolumeNode>, time: TimeCode) -> bool {
    forall|j: int| 0 <= j < s.len() ==> !is_near(#[trigger] s[j], time)
}

/// `i` is the first index of `s` whose node has the id `id`.
pub open spec fn first_with_id(s: Seq<VolumeNode>, id: u64, i: int) -> bool {
    &&& 0 <= i < s.len()
    &&& s[i].id == id
    &&& forall|j: int| 0 <= j < i ==> (#[trigger] s[j]).id != id
}

/// No node of `s` has the id `id`.
pub open spec fn no_id(s: Seq<VolumeNode>, id: u64) -> bool {
    forall|j: int| 0 <= j < s.len() ==> (#[trigger] s[j]).id != id
}

/// The nodes of `s` whose id is not `id`, in order.
pub open spec fn without_id(s: Seq<VolumeNode>, id: u64) -> Seq<VolumeNode> {
    s.filter(|n: VolumeNode| n.id != id)
}

/// A collection of volume automation nodes representing the envelope curve over a clip.
#[derive(Clone, Debug)]
pub struct VolumeEnvelope {
    pub nodes: Vec<VolumeNode>,
    pub enabled: bool,
    /// The id the next added node will get.
    pub next_node_id: u64,
}

/// Where the gain at a time offset comes from.
#[derive(Clone, Copy, Debug, PartialEq, Eq, Structural)]
pub enum GainSource {
    /// The envelope is off, empty, or no span covers the time: a factor of 1.0.
    Unity,
    /// The gain of the node at this index, unchanged.
    Node(usize),
    /// A blend between the node at this index and the next one, by that node's curve.
    Blend(usize),
}

/// The nodes after `add_node(time, gain, curve)` on nodes `s` whose next id is `next_id`:
/// the first node within the merge window takes the gain and curve, or else a new node
/// with the next id is added and the nodes are sorted by time.
pub open spec fn nodes_after_add(
    s: Seq<VolumeNode>,
    next_id: u64,
    time: TimeCode,
    gain: u32,
    curve: CurveType,
) -> Seq<VolumeNode> {
    if exists|i: int| first_near(s, time, i) {
        let i = choose|i: int| first_near(s, time, i);
        s.update(i, VolumeNode { gain: clamp_gain(gain), curve, ..s[i] })
    } else {
        sort_by_key(
            s.push(VolumeNode { id: next_id, time_offset: time, gain: clamp_gain(gain), curve }),
            by_time::<VolumeNode>(),
        )
    }
}

/// Adding a node never leaves an envelope empty.
pub proof fn lemma_add_nonempty(
    s: Seq<VolumeNode>,
    next_id: u64,
    time: TimeCode,
    gain: u32,
    curve: CurveType,
)
    ensures
        nodes_after_add(s, next_id, time, gain, curve).len() == if exists|i: int|
            first_near(s, time, i) {
            s.len()
        } else {
            s.len() + 1
        },
{
    if !(exists|i: int| first_near(s, time, i)) {
        let t = s.push(VolumeNode { id: next_id, time_offset: time, gain: clamp_gain(gain), curve });
        lemma_sort_keeps(t, by_time::<VolumeNode>(), node_id());
    }
}

/// The id of a node, as an integer.
pub open spec fn node_id() -> spec_fn(VolumeNode) -> int {
    |n: VolumeNode| n.id as int
}

/// Every node of `s` has an id below `bound`.
pub open spec fn ids_below(s: Seq<VolumeNode>, bound: u64) -> bool {
    forall|k: int| 0 <= k < s.len() ==> (#[trigger] s[k]).id < bound
}

/// Keeping the nodes that pass a test every node passes keeps them all.
proof fn lemma_filter_keeps_all(t: Seq<VolumeNode>, pred: spec_fn(VolumeNode) -> bool)
    requires
        forall|k: int| 0 <= k < t.len() ==> pred(#[trigger] t[k]),
    ensures
        t.filter(pred) == t,
    decreases t.len(),
{
    reveal(Seq::filter);
    if t.len() > 0 {
        lemma_filter_keeps_all(t.drop_last(), pred);
        assert(t.drop_last().push(t.last()) =~= t);
    }
}

/// Removing the node that an add just made (one not merged into a nearby node) gives
/// back the nodes as they were before the add.
pub proof fn lemma_remove_undoes_add(s: Seq<VolumeNode>, next_id: u64, time: TimeCode, gain: u32, curve: CurveType)
    requires
        sorted_by_key(s, by_time::<VolumeNode>()),
        ids_below(s, next_id),
        none_near(s, time),
    ensures
        without_id(nodes_after_add(s, next_id, time, gain, curve), next_id) == s,
{
    let x = VolumeNode { id: next_id, time_offset: time, gain: clamp_gain(gain), curve };
    let key = by_time::<VolumeNode>();
    let pred = |n: VolumeNode| n.id != next_id;
    assert(!exists|i: int| first_near(s, time, i));
    lemma_sort_of_sorted(s, key);
    assert(s.push(x).drop_last() =~= s);
    assert(sort_by_key(s.push(x), key) == insert_by_key(s, x, key));
    let p = lemma_insert_shape(s, x, key);
    Seq::filter_distributes_over_add(s.take(p).push(x), s.skip(p), pred);
    s.take(p).lemma_filter_push(x, pred);
    lemma_filter_keeps_all(s.take(p), pred);
    lemma_filter_keeps_all(s.skip(p), pred);
    assert(s.take(p) + s.skip(p) =~= s);
}

/// Replacing a node by one with the same id and time keeps ids apart, ids below a
/// bound, and the order by time.
proof fn lemma_update_same_keys(s: Seq<VolumeNode>, i: int, n: VolumeNode, bound: u64)
    requires
        0 <= i < s.len(),
        s[i].id == n.id,
        s[i].time_offset == n.time_offset,
    ensures
        distinct_by(s, node_id()) ==> distinct_by(s.update(i, n), node_id()),
        ids_below(s, bound) ==> ids_below(s.update(i, n), bound),
        sorted_by_key(s, by_time::<VolumeNode>()) ==> sorted_by_key(
            s.update(i, n),
            by_time::<VolumeNode>(),
        ),
{
    let t = s.update(i, n);
    assert forall|k: int| 0 <= k < s.len() implies t[k].id == s[k].id && t[k].time_offset
        == s[k].time_offset by {}
    if distinct_by(s, node_id()) {
        assert forall|a: int, b: int| 0 <= a < b < t.len() implies node_id()(#[trigger] t[a])
            != node_id()(#[trigger] t[b]) by {
            assert(node_id()(s[a]) != node_id()(s[b]));
        }
    }
    if sorted_by_key(s, by_time::<VolumeNode>()) {
        assert forall|a: int, b: int| 0 <= a <= b < t.len() implies by_time::<VolumeNode>()(t[a])
            <= by_time::<VolumeNode>()(t[b]) by {
            assert(by_time::<VolumeNode>()(s[a]) <= by_time::<VolumeNode>()(s[b]));
        }
    }
}

/// Sorting a sequence of nodes with distinct ids below `bound` gives a sorted sequence
/// with distinct ids below `bound`.
proof fn lemma_sort_nodes_keeps(s: Seq<VolumeNode>, bound: u64)
    requires
        distinct_by(s, node_id()),
        ids_below(s, bound),
    ensures
        distinct_by(sort_by_key(s, by_time::<VolumeNode>()), node_id()),
        ids_below(sort_by_key(s, by_time::<VolumeNode>()), bound),
        sorted_by_key(sort_by_key(s, by_time::<VolumeNode>()), by_time::<VolumeNode>()),
{
    let t = sort_by_key(s, by_time::<VolumeNode>());
    lemma_sort_keeps(s, by_time::<VolumeNode>(), node_id());
    lemma_sort_sorted(s, by_time::<VolumeNode>());
    assert forall|k: int| 0 <= k < t.len() implies (#[trigger] t[k]).id < bound by {
        assert(s.contains(t[k]));
        let j = choose|j: int| 0 <= j < s.len() && s[j] == t[k];
        assert(s[j].id < bound);
    }
}

/// The nodes of a flat unity-gain envelope with nodes at zero and at `duration` (one
/// node when the two lie within the merge window of each other).
pub open spec fn flat_nodes(duration: TimeCode) -> Seq<VolumeNode> {
    let start = VolumeNode {
        id: 1,
        time_offset: TimeCode { micros: 0 },
        gain: UNITY_GAIN,
        curve: CurveType::Linear,
    };
    let end = VolumeNode { id: 2, time_offset: duration, gain: UNITY_GAIN, curve: CurveType::Linear };
    if is_near(start, duration) {
        seq![start]
    } else if duration.micros < 0 {
        seq![end, start]
    } else {
        seq![start, end]
    }
}

/// The span from node `i` to node `i + 1` of `s` covers `time`.
pub open spec fn covers(s: Seq<VolumeNode>, i: int, time: TimeCode) -> bool {
    s[i].time_offset.micros <= time.micros <= s[i + 1].time_offset.micros
}

/// `i` is the first span of `s` that covers `time`.
pub open spec fn first_span(s: Seq<VolumeNode>, time: TimeCode, i: int) -> bool {
    &&& 0 <= i < s.len() - 1
    &&& covers(s, i, time)
    &&& forall|j: int| 0 <= j < i ==> !covers(s, j, time)
}

/// Where the gain of an envelope at `time` comes from: unity when it is off or empty,
/// the first node's gain up to the first node, the last node's gain from the last node
/// on, and otherwise the first span that covers the time (a held or zero-length span
/// keeps its start node's gain).
pub open spec fn gain_source_of(s: Seq<VolumeNode>, enabled: bool, time: TimeCode) -> GainSource {
    if !enabled || s.len() == 0 {
        GainSource::Unity
    } else if time.micros <= s[0].time_offset.micros {
        GainSource::Node(0)
    } else if time.micros >= s[s.len() - 1].time_offset.micros {
        GainSource::Node((s.len() - 1) as usize)
    } else if exists|i: int| first_span(s, time, i) {
        let i = choose|i: int| first_span(s, time, i);
        if s[i].time_offset.micros == s[i + 1].time_offset.micros || s[i].curve == CurveType::Hold {
            GainSource::Node(i as usize)
        } else {
            GainSource::Blend(i as usize)
        }
    } else {
        GainSource::Unity
    }
}

impl VolumeEnvelope {
    /// Node ids are unique, and all of them are below the next id to be handed out.
    pub open spec fn ids_ok(&self) -> bool {
        distinct_by(self.nodes@, node_id()) && ids_below(self.nodes@, self.next_node_id)
    }

    /// The nodes are in order of time offset.
    pub open spec fn is_sorted(&self) -> bool {
        sorted_by_key(self.nodes@, by_time::<VolumeNode>())
    }

    /// An empty, enabled envelope.
    pub fn new() -> (e: Self)
        ensures
            e.nodes@ == Seq::<VolumeNode>::empty(),
            e.enabled,
            e.next_node_id == 1,
            e.ids_ok(),
            e.is_sorted(),
    {
        VolumeEnvelope { nodes: Vec::new(), enabled: true, next_node_id: 1 }
    }

    /// A flat unity-gain envelope with nodes at zero and at `duration`.
    pub fn default_for_duration(duration: TimeCode) -> (e: Self)
        ensures
            e.nodes@ == flat_nodes(duration),
            e.enabled,
            e.next_node_id == 3,
            e.ids_ok(),
            e.is_sorted(),
    {
        let mut env = Self::new();
        let zero = TimeCode::zero();
        env.add_node(zero, UNITY_GAIN, CurveType::Linear);
        let ghost start = VolumeNode { id: 1, time_offset: zero, gain: UNITY_GAIN, curve: CurveType::Linear };
        proof {
            reveal_with_fuel(sort_by_key, 2);
            assert(env.nodes@ =~= seq![start]);
        }
        env.add_node(duration, UNITY_GAIN, CurveType::Linear);
        proof {
            let end = VolumeNode { id: 2, time_offset: duration, gain: UNITY_GAIN, curve: CurveType::Linear };
            if !is_near(start, duration) {
                assert(none_near(seq![start], duration));
                reveal_with_fuel(sort_by_key, 3);
                reveal_with_fuel(crate::sorting::insert_by_key, 3);
                assert(seq![start].push(end).drop_last() =~= seq![start]);
                assert(seq![start].drop_last() =~= Seq::<VolumeNode>::empty());
                if duration.micros < 0 {
                    assert(env.nodes@ =~= seq![end, start]);
                } else {
                    assert(env.nodes@ =~= seq![start, end]);
                }
            } else {
                assert(first_near(seq![start], duration, 0));
                assert(env.nodes@ =~= seq![start]);
            }
        }
        env
    }

    /// Where the gain at `time` comes from (see `gain_source_of`).
    pub fn gain_source(&self, time: TimeCode) -> (g: GainSource)
        ensures
            g == gain_source_of(self.nodes@, self.enabled, time),
    {
        if !self.enabled || self.nodes.len() == 0 {
            return GainSource::Unity;
        }
        if time.micros <= self.nodes[0].time_offset.micros {
            return GainSource::Node(0);
        }
        let last = self.nodes.len() - 1;
        if time.micros >= self.nodes[last].time_offset.micros {
            return GainSource::Node(last);
        }
        let ghost s = self.nodes@;
        let mut i: usize = 0;
        while i < last
            invariant
                s == self.nodes@,
                self.enabled,
                s.len() > 0,
                last == s.len() - 1,
                time.micros > s[0].time_offset.micros,
                time.micros < s[last as int].time_offset.micros,
                i <= last,
                forall|j: int| 0 <= j < i ==> !covers(s, j, time),
            decreases last - i,
        {
            let t0 = self.nodes[i].time_offset.micros;
            let t1 = self.nodes[i + 1].time_offset.micros;
            if time.micros >= t0 && time.micros <= t1 {
                proof {
                    assert(first_span(s, time, i as int));
                    let k = choose|k: int| first_span(s, time, k);
                    assert(k == i);
                }
                if t0 == t1 {
                    return GainSource::Node(i);
                }
                return match self.nodes[i].curve {
                    CurveType::Hold => GainSource::Node(i),
                    _ => GainSource::Blend(i),
                };
            }
            i = i + 1;
        }
        GainSource::Unity
    }

    /// First index of a node within the merge window of `time`.
    fn position_near(&self, time: TimeCode) -> (r: Option<usize>)
        ensures
            match r {
                Some(i) => first_near(self.nodes@, time, i as int),
                None => none_near(self.nodes@, time),
            },
    {
        let mut i: usize = 0;
        while i < self.nodes.len()
            invariant
                i <= self.nodes.len(),
                forall|j: int| 0 <= j < i ==> !is_near(#[trigger] self.nodes@[j], time),
            decreases self.nodes.len() - i,
        {
            let d: i128 = self.nodes[i].time_offset.micros as i128 - time.micros as i128;
            if -5_000 < d && d < 5_000 {
                return Some(i);
            }
            i = i + 1;
        }
        None
    }

    /// First index of the node with id `id`.
    fn position_of(&self, id: u64) -> (r: Option<usize>)
        ensures
            match r {
                Some(i) => first_with_id(self.nodes@, id, i as int),
                None => no_id(self.nodes@, id),
            },
    {
        let mut i: usize = 0;
        while i < self.nodes.len()
            invariant
                i <= self.nodes.len(),
                forall|j: int| 0 <= j < i ==> (#[trigger] self.nodes@[j]).id != id,
            decreases self.nodes.len() - i,
        {
            if self.nodes[i].id == id {
                return Some(i);
            }
            i = i + 1;
        }
        None
    }

    /// Insert a node at `time_offset`, or, when a node already sits within 5 ms of it,
    /// give that node the new gain and curve. Returns the id of the node that holds the
    /// value. An id is used up either way.
    pub fn add_node(&mut self, time_offset: TimeCode, gain: u32, curve: CurveType) -> (id: u64)
        requires
            old(self).next_node_id < u64::MAX,
        ensures
            final(self).next_node_id == old(self).next_node_id + 1,
            final(self).enabled == old(self).enabled,
            none_near(old(self).nodes@, time_offset) ==> {
                &&& id == old(self).next_node_id
                &&& final(self).nodes@ == sort_by_key(
                    old(self).nodes@.push(
                        VolumeNode { id, time_offset, gain: clamp_gain(gain), curve },
                    ),
                    by_time::<VolumeNode>(),
                )
            },
            forall|i: int|
                first_near(old(self).nodes@, time_offset, i) ==> {
                    &&& id == old(self).nodes@[i].id
                    &&& final(self).nodes@ == old(self).nodes@.update(
                        i,
                        VolumeNode { gain: clamp_gain(gain), curve, ..old(self).nodes@[i] },
                    )
                },
            final(self).nodes@ == nodes_after_add(
                old(self).nodes@,
                old(self).next_node_id,
                time_offset,
                gain,
                curve,
            ),
            old(self).ids_ok() ==> final(self).ids_ok(),
            old(self).is_sorted() ==> final(self).is_sorted(),
            none_near(old(self).nodes@, time_offset) ==> final(self).is_sorted(),
    {
        let id = self.next_node_id;
        self.next_node_id = self.next_node_id + 1;
        let new_node = VolumeNode::new(id, time_offset, gain, curve);
        match self.position_near(time_offset) {
            Some(i) => {
                let existing = self.nodes[i];
                let updated = VolumeNode { gain: new_node.gain, curve: new_node.curve, ..existing };
                proof {
                    lemma_update_same_keys(self.nodes@, i as int, updated, self.next_node_id);
                    if ids_below(self.nodes@, (self.next_node_id - 1) as u64) {
                        assert(ids_below(self.nodes@, self.next_node_id));
                    }
                }
                self.nodes.set(i, updated);
                proof {
                    let k = choose|k: int| first_near(old(self).nodes@, time_offset, k);
                    assert(k == i);
                }
                existing.id
            },
            None => {
                let ghost before = self.nodes@;
                self.nodes.push(new_node);
                proof {
                    lemma_sort_keeps(self.nodes@, by_time::<VolumeNode>(), node_id());
                    lemma_sort_sorted(self.nodes@, by_time::<VolumeNode>());
                    if distinct_by(before, node_id()) && ids_below(before, id) {
                        assert(ids_below(self.nodes@, self.next_node_id));
                        assert forall|a: int, b: int| 0 <= a < b < self.nodes@.len() implies node_id()(
                            #[trigger] self.nodes@[a],
                        ) != node_id()(#[trigger] self.nodes@[b]) by {
                            if b < before.len() {
                                assert(node_id()(before[a]) != node_id()(before[b]));
                            }
                        }
                        lemma_sort_nodes_keeps(self.nodes@, self.next_node_id);
                    }
                }
                self.sort_nodes();
                id
            },
        }
    }

    /// Remove the nodes with id `id`; true when there was one.
    pub fn remove_node(&mut self, id: u64) -> (removed: bool)
        ensures
            final(self).nodes@ == without_id(old(self).nodes@, id),
            final(self).enabled == old(self).enabled,
            final(self).next_node_id == old(self).next_node_id,
            removed == !no_id(old(self).nodes@, id),
            old(self).ids_ok() ==> final(self).ids_ok(),
            old(self).is_sorted() ==> final(self).is_sorted(),
    {
        let ghost s = self.nodes@;
        let ghost keep = |n: VolumeNode| n.id != id;
        let mut kept: Vec<VolumeNode> = Vec::new();
        let mut i: usize = 0;
        proof {
            reveal(Seq::filter);
            assert(s.take(0) =~= Seq::<VolumeNode>::empty());
        }
        while i < self.nodes.len()
            invariant
                s == self.nodes@,
                i <= s.len(),
                keep == (|n: VolumeNode| n.id != id),
                kept@ == s.take(i as int).filter(keep),
                kept.len() <= i,
                (kept.len() == i) == no_id(s.take(i as int), id),
            decreases s.len() - i,
        {
            proof {
                reveal(Seq::filter);
                assert(s.take(i as int + 1).drop_last() =~= s.take(i as int));
                assert(s.take(i as int + 1).last() == s[i as int]);
            }
            let n = self.nodes[i];
            if n.id != id {
                kept.push(n);
            }
            proof {
                if no_id(s.take(i as int + 1), id) {
                    assert(no_id(s.take(i as int), id)) by {
                        assert forall|j: int| 0 <= j < i implies (#[trigger] s.take(
                            i as int,
                        )[j]).id != id by {
                            assert(s.take(i as int)[j] == s.take(i as int + 1)[j]);
                        }
                    }
                }
                if no_id(s.take(i as int), id) && n.id != id {
                    assert forall|j: int| 0 <= j < i + 1 implies (#[trigger] s.take(
                        i as int + 1,
                    )[j]).id != id by {
                        if j < i {
                            assert(s.take(i as int)[j] == s.take(i as int + 1)[j]);
                        }
                    }
                }
                if n.id == id {
                    assert(s.take(i as int + 1)[i as int].id == id);
                }
            }
            i = i + 1;
        }
        proof {
            assert(s.take(s.len() as int) =~= s);
            lemma_filter_keeps(s, keep, by_time::<VolumeNode>(), node_id());
            assert forall|k: int| 0 <= k < kept@.len() && ids_below(s, self.next_node_id)
                implies (#[trigger] kept@[k]).id < self.next_node_id by {
                assert(s.contains(kept@[k]));
                let j = choose|j: int| 0 <= j < s.len() && s[j] == kept@[k];
                assert(s[j].id < self.next_node_id);
            }
        }
        let removed = kept.len() != self.nodes.len();
        self.nodes = kept;
        removed
    }

    /// Move the node with id `id` to `new_time` with gain `new_gain`, then re-sort.
    /// False, and nothing changes, when no node has that id.
    pub fn update_node(&mut self, id: u64, new_time: TimeCode, new_gain: u32) -> (found: bool)
        ensures
            final(self).enabled == old(self).enabled,
            final(self).next_node_id == old(self).next_node_id,
            found == !no_id(old(self).nodes@, id),
            !found ==> final(self).nodes@ == old(self).nodes@,
            forall|i: int|
                first_with_id(old(self).nodes@, id, i) ==> final(self).nodes@ == sort_by_key(
                    old(self).nodes@.update(
                        i,
                        VolumeNode {
                            time_offset: new_time,
                            gain: clamp_gain(new_gain),
                            ..old(self).nodes@[i]
                        },
                    ),
                    by_time::<VolumeNode>(),
                ),
            old(self).ids_ok() ==> final(self).ids_ok(),
            found ==> final(self).is_sorted(),
            old(self).is_sorted() ==> final(self).is_sorted(),
    {
        match self.position_of(id) {
            Some(i) => {
                let node = self.nodes[i];
                let g = if new_gain > MAX_GAIN { MAX_GAIN } else { new_gain };
                let ghost before = self.nodes@;
                self.nodes.set(i, VolumeNode { time_offset: new_time, gain: g, ..node });
                proof {
                    lemma_sort_sorted(self.nodes@, by_time::<VolumeNode>());
                    if distinct_by(before, node_id()) && ids_below(before, self.next_node_id) {
                        assert forall|a: int, b: int| 0 <= a < b < self.nodes@.len() implies node_id()(
                            #[trigger] self.nodes@[a],
                        ) != node_id()(#[trigger] self.nodes@[b]) by {
                            assert(self.nodes@[a].id == before[a].id);
                            assert(self.nodes@[b].id == before[b].id);
                            assert(node_id()(before[a]) != node_id()(before[b]));
                        }
                        assert forall|k: int| 0 <= k < self.nodes@.len() implies (
                        #[trigger] self.nodes@[k]).id < self.next_node_id by {
                            assert(self.nodes@[k].id == before[k].id);
                        }
                        lemma_sort_nodes_keeps(self.nodes@, self.next_node_id);
                    }
                }
                self.sort_nodes();
                true
            },
            None => false,
        }
    }

    /// Set the gain of the node with id `id`; false when no node has that id.
    pub fn update_node_gain(&mut self, id: u64, new_gain: u32) -> (found: bool)
        ensures
            final(self).enabled == old(self).enabled,
            final(self).next_node_id == old(self).next_node_id,
            found == !no_id(old(self).nodes@, id),
            !found ==> final(self).nodes@ == old(self).nodes@,
            forall|i: int|
                first_with_id(old(self).nodes@, id, i) ==> final(self).nodes@ == old(
                    self,
                ).nodes@.update(i, VolumeNode { gain: clamp_gain(new_gain), ..old(self).nodes@[i] }),
            old(self).ids_ok() ==> final(self).ids_ok(),
            old(self).is_sorted() ==> final(self).is_sorted(),
    {
        match self.position_of(id) {
            Some(i) => {
                let node = self.nodes[i];
                let g = if new_gain > MAX_GAIN { MAX_GAIN } else { new_gain };
                proof {
                    lemma_update_same_keys(self.nodes@, i as int, VolumeNode { gain: g, ..node }, self.next_node_id);
                }
                self.nodes.set(i, VolumeNode { gain: g, ..node });
                true
            },
            None => false,
        }
    }

    /// Set the curve of the node with id `id`; false when no node has that id.
    pub fn update_node_curve(&mut self, id: u64, curve: CurveType) -> (found: bool)
        ensures
            final(self).enabled == old(self).enabled,
            final(self).next_node_id == old(self).next_node_id,
            found == !no_id(old(self).nodes@, id),
            !found ==> final(self).nodes@ == old(self).nodes@,
            forall|i: int|
                first_with_id(old(self).nodes@, id, i) ==> final(self).nodes@ == old(
                    self,
                ).nodes@.update(i, VolumeNode { curve, ..old(self).nodes@[i] }),
            old(self).ids_ok() ==> final(self).ids_ok(),
            old(self).is_sorted() ==> final(self).is_sorted(),
    {
        match self.position_of(id) {
            Some(i) => {
                let node = self.nodes[i];
                proof {
                    lemma_update_same_keys(self.nodes@, i as int, VolumeNode { curve, ..node }, self.next_node_id);
                }
                self.nodes.set(i, VolumeNode { curve, ..node });
                true
            },
            None => false,
        }
    }

    /// Stable sort of the nodes by time offset.
    fn sort_nodes(&mut self)
        ensures
            final(self).nodes@ == sort_by_key(old(self).nodes@, by_time::<VolumeNode>()),
            final(self).enabled == old(self).enabled,
            final(self).next_node_id == old(self).next_node_id,
    {
        sort_by_time(&mut self.nodes);
    }
}

} // verus!
