use video_editor::envelope::{CurveType, GainSource, VolumeEnvelope, VolumeNode, MAX_GAIN, UNITY_GAIN};
use video_editor::time::TimeCode;

fn t(micros: i64) -> TimeCode {
    TimeCode::from_micros(micros)
}

#[test]
fn node_gain_is_clamped() {
    let n = VolumeNode::new(7, t(0), 9_000_000, CurveType::Hold);
    assert_eq!(n.gain, MAX_GAIN);
    let n = VolumeNode::new(7, t(0), 500_000, CurveType::Hold);
    assert_eq!(n.gain, 500_000);
}

#[test]
fn flat_envelope_for_duration() {
    let e = VolumeEnvelope::default_for_duration(t(2_000_000));
    assert_eq!(e.nodes.len(), 2);
    assert_eq!(e.nodes[0].id, 1);
    assert_eq!(e.nodes[0].time_offset.micros, 0);
    assert_eq!(e.nodes[1].id, 2);
    assert_eq!(e.nodes[1].time_offset.micros, 2_000_000);
    assert_eq!(e.nodes[1].gain, UNITY_GAIN);
    assert_eq!(e.next_node_id, 3);
    assert!(e.enabled);
}

#[test]
fn very_short_duration_gives_one_node() {
    let e = VolumeEnvelope::default_for_duration(t(4_000));
    assert_eq!(e.nodes.len(), 1);
    assert_eq!(e.next_node_id, 3);
}

#[test]
fn added_nodes_are_sorted_by_time() {
    let mut e = VolumeEnvelope::new();
    let a = e.add_node(t(3_000_000), 100, CurveType::Linear);
    let b = e.add_node(t(1_000_000), 200, CurveType::Hold);
    let c = e.add_node(t(2_000_000), 300, CurveType::EaseInOut);
    assert_eq!((a, b, c), (1, 2, 3));
    let ids: Vec<u64> = e.nodes.iter().map(|n| n.id).collect();
    assert_eq!(ids, vec![2, 3, 1]);
}

#[test]
fn a_node_within_five_ms_is_replaced() {
    let mut e = VolumeEnvelope::new();
    e.add_node(t(1_000_000), 100, CurveType::Linear);
    let id = e.add_node(t(1_004_999), 700, CurveType::Hold);
    assert_eq!(id, 1);
    assert_eq!(e.nodes.len(), 1);
    assert_eq!(e.nodes[0].gain, 700);
    assert_eq!(e.nodes[0].curve, CurveType::Hold);
    assert_eq!(e.nodes[0].time_offset.micros, 1_000_000);
    // the id was used up all the same
    assert_eq!(e.next_node_id, 3);
    let id2 = e.add_node(t(1_005_000), 800, CurveType::Linear);
    assert_eq!(id2, 3);
    assert_eq!(e.nodes.len(), 2);
}

#[test]
fn remove_and_update_nodes() {
    let mut e = VolumeEnvelope::default_for_duration(t(10_000_000));
    assert!(e.update_node_gain(2, 5_000_000));
    assert_eq!(e.nodes[1].gain, MAX_GAIN);
    assert!(e.update_node_curve(1, CurveType::SmoothBezier));
    assert_eq!(e.nodes[0].curve, CurveType::SmoothBezier);
    assert!(e.update_node(1, t(20_000_000), 10));
    let ids: Vec<u64> = e.nodes.iter().map(|n| n.id).collect();
    assert_eq!(ids, vec![2, 1]);
    assert!(!e.update_node(99, t(0), 0));
    assert!(e.remove_node(2));
    assert!(!e.remove_node(2));
    assert_eq!(e.nodes.len(), 1);
}

#[test]
fn gain_sources() {
    let mut e = VolumeEnvelope::new();
    assert_eq!(e.gain_source(t(5)), GainSource::Unity);
    e.add_node(t(1_000_000), 100, CurveType::Linear);
    e.add_node(t(2_000_000), 200, CurveType::Hold);
    e.add_node(t(3_000_000), 300, CurveType::Linear);
    assert_eq!(e.gain_source(t(0)), GainSource::Node(0));
    assert_eq!(e.gain_source(t(1_500_000)), GainSource::Blend(0));
    assert_eq!(e.gain_source(t(2_500_000)), GainSource::Node(1));
    assert_eq!(e.gain_source(t(9_000_000)), GainSource::Node(2));
    e.enabled = false;
    assert_eq!(e.gain_source(t(1_500_000)), GainSource::Unity);
}

#[test]
fn default_curve_is_linear() {
    assert_eq!(CurveType::default(), CurveType::Linear);
}

#[test]
fn removing_the_added_node_restores_the_envelope() {
    let mut e = VolumeEnvelope::default_for_duration(t(4_000_000));
    let before = e.nodes.clone();
    let id = e.add_node(t(1_500_000), 2_000_000, CurveType::EaseInOut);
    assert_eq!(e.nodes.len(), 3);
    assert_eq!(e.nodes[1].id, id);
    assert!(e.remove_node(id));
    assert_eq!(e.nodes, before);
}
