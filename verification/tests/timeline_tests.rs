use video_editor::clip::{Clip, NORMAL_SPEED};
use video_editor::envelope::UNITY_GAIN;
use video_editor::mixer::MixSource;
use video_editor::music::music_source_offset;
use std::time::Duration;
use video_editor::time::TimeCode;
use video_editor::timeline::Timeline;
use video_editor::track::{Track, TrackKind};

fn t(micros: i64) -> TimeCode {
    TimeCode::from_micros(micros)
}

fn clip(id: u64, start: i64, len: i64) -> Clip<String> {
    let mut c = Clip::new(id, 0, t(len), true, true, format!("clip {}", id));
    c.timeline_start = t(start);
    c
}

#[test]
fn new_clip_spans_its_source() {
    let c = Clip::new(5, 9, t(4_000_000), true, false, "a".to_string());
    assert_eq!(c.source_in.micros, 0);
    assert_eq!(c.source_out.micros, 4_000_000);
    assert_eq!(c.speed, NORMAL_SPEED);
    assert_eq!(c.volume_envelope.nodes.len(), 2);
    assert_eq!(c.duration().micros, 4_000_000);
    assert!(!c.is_selected);
}

#[test]
fn duration_divides_by_speed_and_rounds() {
    let mut c = clip(1, 0, 1_000_000);
    c.speed = 2_000_000;
    assert_eq!(c.duration().micros, 500_000);
    c.speed = 3_000_000;
    assert_eq!(c.duration().micros, 333_333);
    c.speed = 1_500_000;
    assert_eq!(c.duration().micros, 666_667);
    c.speed = 5_000;
    assert_eq!(c.duration().micros, 1_000_000);
    c.source_in = t(2_000_000);
    assert_eq!(c.duration().micros, 0);
}

#[test]
fn clip_bounds_are_inclusive() {
    let c = clip(1, 1_000_000, 2_000_000);
    assert_eq!(c.timeline_end().micros, 3_000_000);
    assert!(c.contains_timeline_time(t(1_000_000)));
    assert!(c.contains_timeline_time(t(3_000_000)));
    assert!(!c.contains_timeline_time(t(3_000_001)));
    assert!(!c.contains_timeline_time(t(999_999)));
}

#[test]
fn timeline_to_source_time_scales_by_speed() {
    let mut c = clip(1, 2_000_000, 10_000_000);
    c.source_in = t(1_000_000);
    c.speed = 2_000_000;
    assert_eq!(c.timeline_to_source_time(t(3_000_000)), Some(t(3_000_000)));
    assert_eq!(c.timeline_to_source_time(t(1_000_000)), None);
}

#[test]
fn split_clip_in_two() {
    let mut c = clip(1, 0, 4_000_000);
    let second = c.split_at(t(1_000_000), 42).unwrap();
    assert_eq!(c.source_out.micros, 1_000_000);
    assert_eq!(c.duration().micros, 1_000_000);
    assert_eq!(c.volume_envelope.nodes.len(), 1);
    assert_eq!(second.id, 42);
    assert_eq!(second.source_in.micros, 1_000_000);
    assert_eq!(second.source_out.micros, 4_000_000);
    assert_eq!(second.timeline_start.micros, 1_000_000);
    assert_eq!(second.duration().micros, 3_000_000);
    assert_eq!(second.volume_envelope.nodes.len(), 1);
    assert_eq!(second.volume_envelope.nodes[0].time_offset.micros, 3_000_000);
    assert_eq!(second.volume_envelope.nodes[0].id, 1);
    assert_eq!(second.content, "clip 1");
    assert!(!second.is_selected);
}

#[test]
fn split_outside_or_on_the_edge_does_nothing() {
    let mut c = clip(1, 0, 4_000_000);
    assert!(c.split_at(t(0), 2).is_none());
    assert!(c.split_at(t(4_000_000), 2).is_none());
    assert_eq!(c.source_out.micros, 4_000_000);
}

#[test]
fn split_refills_an_emptied_envelope() {
    let mut c = clip(1, 0, 4_000_000);
    c.volume_envelope.nodes.clear();
    let second = c.split_at(t(1_000_000), 2).unwrap();
    assert_eq!(c.volume_envelope.nodes.len(), 2);
    assert_eq!(c.volume_envelope.nodes[1].time_offset.micros, 1_000_000);
    assert_eq!(second.volume_envelope.nodes.len(), 2);
    assert_eq!(second.volume_envelope.nodes[1].time_offset.micros, 3_000_000);
    assert_eq!(second.volume_envelope.nodes[1].gain, UNITY_GAIN);
}

#[test]
fn track_keeps_clips_sorted() {
    let mut tr: Track<String> = Track::new(7, "V".to_string(), TrackKind::Video);
    tr.add_clip(clip(1, 5_000_000, 1_000_000));
    tr.add_clip(clip(2, 1_000_000, 1_000_000));
    tr.add_clip(clip(3, 3_000_000, 1_000_000));
    let ids: Vec<u64> = tr.clips.iter().map(|c| c.id).collect();
    assert_eq!(ids, vec![2, 3, 1]);
    assert!(tr.clips.iter().all(|c| c.track_id == 7));
    assert_eq!(tr.duration().micros, 6_000_000);
    assert_eq!(tr.get_clip_at(t(3_500_000)).map(|c| c.id), Some(3));
    assert!(tr.get_clip_at(t(2_500_000)).is_none());
    let removed = tr.remove_clip(3).unwrap();
    assert_eq!(removed.id, 3);
    assert!(tr.remove_clip(3).is_none());
    assert_eq!(tr.volume, UNITY_GAIN);
}

#[test]
fn track_split_uses_an_id() {
    let mut tr: Track<String> = Track::new(7, "V".to_string(), TrackKind::Video);
    tr.add_clip(clip(1, 0, 4_000_000));
    let mut next = 100;
    assert!(tr.split_clip_at(t(2_000_000), &mut next));
    assert_eq!(next, 101);
    assert_eq!(tr.clips.len(), 2);
    assert_eq!(tr.clips[1].id, 100);
    // on the edge: the id is used up, nothing is split
    assert!(!tr.split_clip_at(t(0), &mut next));
    assert_eq!(next, 102);
    // nowhere: nothing happens
    assert!(!tr.split_clip_at(t(9_000_000), &mut next));
    assert_eq!(next, 102);
}

#[test]
fn new_timeline_has_two_tracks() {
    let tl: Timeline<String> = Timeline::new();
    assert_eq!(tl.tracks.len(), 2);
    assert_eq!(tl.tracks[0].id, 1);
    assert_eq!(tl.tracks[0].kind, TrackKind::Video);
    assert_eq!(tl.tracks[0].name, "🎬 Video Track");
    assert_eq!(tl.tracks[1].id, 2);
    assert_eq!(tl.tracks[1].kind, TrackKind::Audio);
    assert_eq!(tl.next_id, 3);
    assert!(tl.snapping_enabled);
    assert_eq!(tl.duration().micros, 0);
}

fn sample() -> Timeline<String> {
    let mut tl: Timeline<String> = Timeline::new();
    tl.tracks[0].add_clip(clip(10, 0, 2_000_000));
    tl.tracks[0].add_clip(clip(11, 2_000_000, 3_000_000));
    tl.tracks[1].add_clip(clip(12, 1_000_000, 1_000_000));
    tl
}

#[test]
fn tracks_can_be_added_and_removed() {
    let mut tl = sample();
    let id = tl.add_track("Extra".to_string(), TrackKind::Audio);
    assert_eq!(id, 3);
    assert_eq!(tl.next_id, 4);
    assert_eq!(tl.get_track(3).map(|t| t.name.clone()), Some("Extra".to_string()));
    assert!(tl.remove_track(3));
    assert!(!tl.remove_track(3));
    assert!(tl.get_track(3).is_none());
    assert_eq!(tl.duration().micros, 5_000_000);
}

#[test]
fn selection() {
    let mut tl = sample();
    tl.select_clip(11);
    assert_eq!(tl.get_selected_clip().map(|c| c.id), Some(11));
    tl.select_clip(12);
    assert_eq!(tl.get_selected_clip().map(|c| c.id), Some(12));
    assert!(!tl.tracks[0].clips[1].is_selected);
    tl.get_selected_clip_mut().unwrap().speed = 2_000_000;
    assert_eq!(tl.tracks[1].clips[0].speed, 2_000_000);
    tl.clear_selection();
    assert!(tl.get_selected_clip().is_none());
    tl.select_clip(99);
    assert!(tl.get_selected_clip().is_none());
}

#[test]
fn deleting_selected_clips() {
    let mut tl = sample();
    assert!(!tl.delete_selected_clips());
    tl.select_clip(10);
    assert!(tl.delete_selected_clips());
    assert_eq!(tl.tracks[0].clips.len(), 1);
    assert_eq!(tl.tracks[0].clips[0].id, 11);
}

#[test]
fn moving_a_clip() {
    let mut tl = sample();
    assert!(tl.move_clip(10, 2, t(7_000_000)));
    assert_eq!(tl.tracks[0].clips.len(), 1);
    assert_eq!(tl.tracks[1].clips.len(), 2);
    assert_eq!(tl.tracks[1].clips[1].id, 10);
    assert_eq!(tl.tracks[1].clips[1].track_id, 2);
    assert_eq!(tl.tracks[1].clips[1].timeline_start.micros, 7_000_000);
    // unknown destination: the clip is taken off and lost
    assert!(!tl.move_clip(11, 77, t(0)));
    assert_eq!(tl.tracks[0].clips.len(), 0);
    assert!(!tl.move_clip(999, 1, t(0)));
    let tr = tl.get_track_mut(1).unwrap();
    tr.is_muted = true;
    assert!(tl.tracks[0].is_muted);
}

#[test]
fn snapping() {
    let mut tl = sample();
    tl.playhead = t(10_000_000);
    // the end of clip 10 (2.0 s) is 50 ms away
    assert_eq!(tl.find_snap_point(t(2_050_000), 100_000), t(2_000_000));
    // nothing within 10 ms
    assert_eq!(tl.find_snap_point(t(2_050_000), 10_000), t(2_050_000));
    // leaving out clip 11 still finds the end of clip 10 first
    assert_eq!(tl.find_snap_point_excluding(t(2_050_000), 100_000, Some(11)), t(2_000_000));
    tl.snapping_enabled = false;
    assert_eq!(tl.find_snap_point(t(2_050_000), 100_000), t(2_050_000));
}

#[test]
fn split_at_playhead_splits_every_track_without_selection() {
    let mut tl = sample();
    tl.playhead = t(1_500_000);
    assert!(tl.split_at_playhead());
    assert_eq!(tl.tracks[0].clips.len(), 3);
    assert_eq!(tl.tracks[1].clips.len(), 2);
    assert_eq!(tl.next_id, 5);
}

#[test]
fn split_at_playhead_with_selection_only_touches_its_track() {
    let mut tl = sample();
    tl.playhead = t(1_500_000);
    tl.select_clip(10);
    assert!(tl.split_at_playhead());
    assert_eq!(tl.tracks[0].clips.len(), 3);
    assert_eq!(tl.tracks[1].clips.len(), 1);
    assert_eq!(tl.next_id, 4);
}

#[test]
fn slides_reflow_end_to_end() {
    let mut tl: Timeline<String> = Timeline::new();
    tl.tracks[0].clips.push(clip(1, 9_000_000, 2_000_000));
    tl.tracks[0].clips.push(clip(2, 0, 3_000_000));
    tl.reflow_slide_timeline_positions();
    assert_eq!(tl.tracks[0].clips[0].timeline_start.micros, 0);
    assert_eq!(tl.tracks[0].clips[1].timeline_start.micros, 2_000_000);
    tl.reorder_slide(1, 0);
    assert_eq!(tl.tracks[0].clips[0].id, 2);
    assert_eq!(tl.tracks[0].clips[1].timeline_start.micros, 3_000_000);
    tl.reorder_slide(5, 0);
    assert_eq!(tl.tracks[0].clips[0].id, 2);
    tl.delete_slide_by_id(2);
    assert_eq!(tl.tracks[0].clips.len(), 1);
    assert_eq!(tl.tracks[0].clips[0].timeline_start.micros, 0);
}

#[test]
fn active_slide_prefers_selection_then_playhead() {
    let mut tl = sample();
    tl.playhead = t(2_500_000);
    assert_eq!(tl.active_slide().map(|c| c.id), Some(11));
    tl.select_clip(10);
    assert_eq!(tl.active_slide().map(|c| c.id), Some(10));
    tl.clear_selection();
    tl.playhead = t(50_000_000);
    assert_eq!(tl.active_slide().map(|c| c.id), Some(10));
    let empty: Timeline<String> = Timeline::new();
    assert!(empty.active_slide().is_none());
}

#[test]
fn mixing_respects_mute_and_solo() {
    let mut tl = sample();
    assert_eq!(
        tl.mix_source(2, 12, t(1_500_000)),
        MixSource::Audible { track: 1, clip: 0, offset: t(500_000) }
    );
    assert_eq!(tl.mix_source(2, 12, t(2_500_000)), MixSource::Silent);
    assert_eq!(tl.mix_source(9, 12, t(1_500_000)), MixSource::Silent);
    tl.tracks[0].is_solo = true;
    assert_eq!(tl.mix_source(2, 12, t(1_500_000)), MixSource::Silent);
    tl.tracks[1].is_solo = true;
    tl.tracks[1].is_muted = true;
    assert_eq!(tl.mix_source(2, 12, t(1_500_000)), MixSource::Silent);
}

#[test]
fn music_offsets_and_songs() {
    assert_eq!(music_source_offset(t(1_000_000), t(2_000_000), t(1_500_000)), Duration::from_micros(2_500_000));
    assert_eq!(music_source_offset(t(1_000_000), t(2_000_000), t(500_000)), Duration::from_micros(2_000_000));
    let mut tl: Timeline<String> = Timeline::new();
    tl.tracks[1].add_clip(clip(1, 0, 2_000_000));
    tl.tracks[1].add_clip(clip(2, 2_000_000, 2_000_000));
    assert_eq!(tl.music_clip_at(t(1_000_000)), Some((1, 0)));
    // at the boundary the later song plays
    assert_eq!(tl.music_clip_at(t(2_000_000)), Some((1, 1)));
    assert_eq!(tl.music_clip_at(t(4_000_000)), None);
}

#[test]
fn duplicating_a_slide_inserts_a_selected_copy_after_it() {
    let mut tl: Timeline<String> = Timeline::new();
    tl.tracks[0].clips.push(clip(1, 0, 2_000_000));
    tl.tracks[0].clips.push(clip(2, 2_000_000, 3_000_000));
    tl.tracks[0].clips[1].is_selected = true;
    tl.duplicate_slide(1);
    assert_eq!(tl.next_id, 4);
    let ids: Vec<u64> = tl.tracks[0].clips.iter().map(|c| c.id).collect();
    assert_eq!(ids, vec![1, 3, 2]);
    let starts: Vec<i64> = tl.tracks[0].clips.iter().map(|c| c.timeline_start.micros).collect();
    assert_eq!(starts, vec![0, 2_000_000, 4_000_000]);
    let selected: Vec<bool> = tl.tracks[0].clips.iter().map(|c| c.is_selected).collect();
    assert_eq!(selected, vec![false, true, false]);
    assert_eq!(tl.tracks[0].clips[1].content, "clip 1");
    assert_eq!(tl.tracks[0].clips[1].source_out.micros, 2_000_000);
    assert_eq!(tl.tracks[0].clips[1].volume_envelope.nodes, tl.tracks[0].clips[0].volume_envelope.nodes);
}

#[test]
fn duplicating_a_missing_slide_only_uses_an_id() {
    let mut tl: Timeline<String> = Timeline::new();
    tl.tracks[0].clips.push(clip(1, 7_000_000, 2_000_000));
    tl.duplicate_slide(99);
    assert_eq!(tl.next_id, 4);
    assert_eq!(tl.tracks[0].clips.len(), 1);
    assert_eq!(tl.tracks[0].clips[0].timeline_start.micros, 0);
}

#[test]
fn split_at_playhead_with_selection_leaves_unselected_clips_alone() {
    let mut tl: Timeline<String> = Timeline::new();
    // Track 1: an unselected clip over the playhead and a selected clip elsewhere.
    tl.tracks[0].add_clip(clip(10, 0, 2_000_000));
    tl.tracks[0].add_clip(clip(11, 5_000_000, 1_000_000));
    tl.tracks[0].clips[1].is_selected = true;
    // Track 2: a selected clip over the playhead.
    tl.tracks[1].add_clip(clip(12, 500_000, 2_000_000));
    tl.tracks[1].clips[0].is_selected = true;
    tl.playhead = t(1_000_000);
    assert!(tl.split_at_playhead());
    assert_eq!(tl.tracks[0].clips.len(), 2);
    assert_eq!(tl.tracks[0].clips[0].source_out.micros, 2_000_000);
    assert_eq!(tl.tracks[1].clips.len(), 2);
    assert_eq!(tl.tracks[1].clips[0].source_out.micros, 500_000);
    assert_eq!(tl.tracks[1].clips[1].id, 3);
    assert_eq!(tl.next_id, 4);
}

#[test]
fn selected_split_takes_the_selected_clip_on_the_playhead() {
    let mut tr: video_editor::track::Track<String> = video_editor::track::Track::new(1, "v".to_string(), TrackKind::Video);
    tr.add_clip(clip(1, 0, 2_000_000));
    tr.add_clip(clip(2, 1_000_000, 2_000_000));
    tr.clips[1].is_selected = true;
    let mut next = 7u64;
    assert!(tr.split_selected_at(t(1_500_000), &mut next));
    assert_eq!(next, 8);
    assert_eq!(tr.clips.len(), 3);
    assert_eq!(tr.clips[0].source_out.micros, 2_000_000);
    assert_eq!(tr.clips[1].id, 2);
    assert_eq!(tr.clips[1].source_out.micros, 500_000);
    assert_eq!(tr.clips[2].id, 7);
}
