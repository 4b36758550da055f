use video_editor::clip::Clip;
use video_editor::media::{proxy_file_name, proxy_is_usable};
use video_editor::playback::{advance_playhead, PlayheadAdvance};
use video_editor::time::TimeCode;
use video_editor::timeline::Timeline;
use video_editor::track::TrackKind;

fn t(micros: i64) -> TimeCode {
    TimeCode::from_micros(micros)
}

fn media(id: u64, len: i64, has_video: bool, has_audio: bool) -> Clip<String> {
    Clip::new(id, 0, t(len), has_video, has_audio, format!("media {}", id))
}

#[test]
fn playhead_moves_by_elapsed_time() {
    assert_eq!(advance_playhead(t(1_000_000), t(10_000_000), 40_000), PlayheadAdvance::Playing(t(1_040_000)));
}

#[test]
fn playhead_stops_at_the_end() {
    assert_eq!(advance_playhead(t(9_990_000), t(10_000_000), 40_000), PlayheadAdvance::Finished(t(10_000_000)));
    assert_eq!(advance_playhead(t(9_960_000), t(10_000_000), 40_000), PlayheadAdvance::Finished(t(10_000_000)));
}

#[test]
fn playhead_runs_on_over_an_empty_timeline() {
    assert_eq!(advance_playhead(t(5_000_000), t(0), 40_000), PlayheadAdvance::Playing(t(5_040_000)));
}

#[test]
fn playhead_never_goes_below_zero() {
    assert_eq!(advance_playhead(t(10), t(1_000), -50), PlayheadAdvance::Playing(t(0)));
}

#[test]
fn playhead_stays_within_the_timeline_for_a_run_of_ticks() {
    let end = t(1_000_000);
    let mut at = t(0);
    let mut finished = false;
    for _ in 0..40 {
        match advance_playhead(at, end, 33_333) {
            PlayheadAdvance::Playing(p) => {
                assert!(p.micros >= at.micros && p.micros < end.micros);
                at = p;
            }
            PlayheadAdvance::Finished(p) => {
                assert_eq!(p, end);
                finished = true;
                break;
            }
        }
    }
    assert!(finished);
}

#[test]
fn proxy_names_and_cache_rule() {
    assert_eq!(proxy_file_name("holiday"), "holiday_proxy_360p.mp4");
    assert!(!proxy_is_usable(1000));
    assert!(proxy_is_usable(1001));
    assert!(!proxy_is_usable(0));
}

#[test]
fn video_clip_goes_to_the_end_of_the_first_video_track() {
    let mut tl: Timeline<String> = Timeline::new();
    let a = tl.next_id();
    assert_eq!(tl.append_clip_by_kind(media(a, 2_000_000, true, true)), Some(1));
    let b = tl.next_id();
    assert_eq!(tl.append_clip_by_kind(media(b, 3_000_000, true, false)), Some(1));
    let clips = &tl.tracks[0].clips;
    assert_eq!(clips.len(), 2);
    assert_eq!(clips[0].id, a);
    assert_eq!(clips[0].timeline_start.micros, 0);
    assert_eq!(clips[1].id, b);
    assert_eq!(clips[1].track_id, 1);
    assert_eq!(clips[1].timeline_start.micros, 2_000_000);
    assert!(tl.tracks[1].clips.is_empty());
}

#[test]
fn sound_only_clip_goes_to_the_audio_track() {
    let mut tl: Timeline<String> = Timeline::new();
    let a = tl.next_id();
    assert_eq!(tl.append_clip_by_kind(media(a, 5_000_000, false, true)), Some(2));
    assert_eq!(tl.tracks[1].clips.len(), 1);
    assert_eq!(tl.tracks[1].clips[0].track_id, 2);
    assert!(tl.tracks[0].clips.is_empty());
}

#[test]
fn clip_without_streams_is_left_out() {
    let mut tl: Timeline<String> = Timeline::new();
    assert_eq!(tl.append_clip_by_kind(media(9, 5_000_000, false, false)), None);
    assert!(tl.tracks.iter().all(|tr| tr.clips.is_empty()));
    assert_eq!(tl.next_id, 3);
}

#[test]
fn missing_track_kind_is_added() {
    let mut tl: Timeline<String> = Timeline::new();
    assert!(tl.remove_track(2));
    let a = tl.next_id();
    assert_eq!(a, 3);
    assert_eq!(tl.append_clip_by_kind(media(a, 5_000_000, false, true)), Some(4));
    assert_eq!(tl.tracks.len(), 2);
    assert_eq!(tl.tracks[1].kind, TrackKind::Audio);
    assert_eq!(tl.tracks[1].name, "Audio Track");
    assert_eq!(tl.tracks[1].clips[0].timeline_start.micros, 0);
    assert_eq!(tl.next_id, 5);
}

#[test]
fn video_track_is_found_or_made() {
    let mut tl: Timeline<String> = Timeline::new();
    assert_eq!(tl.video_track_or_add(), 1);
    assert_eq!(tl.tracks.len(), 2);
    assert!(tl.remove_track(1));
    assert_eq!(tl.video_track_or_add(), 3);
    assert_eq!(tl.tracks[1].name, "Video Track");
    assert_eq!(tl.tracks[1].kind, TrackKind::Video);
}

#[test]
fn drop_track_prefers_a_matching_target() {
    let tl: Timeline<String> = Timeline::new();
    assert_eq!(tl.resolve_drop_track(true, 1), 1);
    assert_eq!(tl.resolve_drop_track(false, 1), 2);
    assert_eq!(tl.resolve_drop_track(true, 2), 1);
    assert_eq!(tl.resolve_drop_track(false, 2), 2);
    assert_eq!(tl.resolve_drop_track(true, 77), 1);
}

#[test]
fn drop_track_falls_back_to_the_target_when_no_kind_matches() {
    let mut tl: Timeline<String> = Timeline::new();
    assert!(tl.remove_track(2));
    assert_eq!(tl.resolve_drop_track(false, 42), 42);
}

#[test]
fn dropped_clip_lands_at_the_track_end_and_rewinds() {
    let mut tl: Timeline<String> = Timeline::new();
    let a = tl.next_id();
    tl.append_clip_by_kind(media(a, 4_000_000, true, true));
    tl.playhead = t(3_000_000);
    let b = tl.next_id();
    tl.place_clip_on_track(media(b, 1_000_000, true, false), 2, t(500_000));
    assert_eq!(tl.playhead.micros, 0);
    let clips = &tl.tracks[0].clips;
    assert_eq!(clips.len(), 2);
    assert_eq!(clips[1].id, b);
    assert_eq!(clips[1].timeline_start.micros, 4_000_000);
    let c = tl.next_id();
    tl.place_clip_on_track(media(c, 1_000_000, true, false), 1, t(9_000_000));
    assert_eq!(tl.tracks[0].clips[2].timeline_start.micros, 5_000_000);
}

#[test]
fn dropped_clip_on_a_missing_track_is_left_out() {
    let mut tl: Timeline<String> = Timeline::new();
    assert!(tl.remove_track(2));
    tl.playhead = t(7);
    tl.place_clip_on_track(media(5, 1_000_000, false, true), 42, t(0));
    assert!(tl.tracks[0].clips.is_empty());
    assert_eq!(tl.playhead.micros, 0);
}

#[test]
fn range_check_spots_overlong_clips() {
    let mut tl: Timeline<String> = Timeline::new();
    let a = tl.next_id();
    tl.append_clip_by_kind(media(a, 4_000_000, true, true));
    assert!(tl.clips_in_range());
    assert!(tl.tracks[0].clips[0].spans_in_range());
    tl.tracks[0].clips[0].timeline_start = t(i64::MAX - 10);
    assert!(!tl.tracks[0].clips[0].spans_in_range());
    assert!(!tl.clips_in_range());
    tl.tracks[0].clips[0].timeline_start = t(0);
    tl.tracks[0].clips[0].source_in = TimeCode { micros: i64::MIN };
    tl.tracks[0].clips[0].source_out = t(i64::MAX);
    assert!(!tl.clips_in_range());
}
