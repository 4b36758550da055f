use std::path::Path;
use video_editor::calendar::{CalendarMonth, CalendarStyle, CustomCalendarEvent, HolidayCategory, HolidayItem};
use video_editor::export::ExportProblem;
use video_editor::media::is_still_image;
use video_editor::music::music_source_offset;
use video_editor::stickers::{StickerCatalog, StickerCategory};
use video_editor::time::TimeCode;
use video_editor::timeline::Timeline;
use video_editor::clip::Clip;

fn t(micros: i64) -> TimeCode {
    TimeCode::from_micros(micros)
}

#[test]
fn still_images_are_told_by_extension_in_any_case() {
    assert!(is_still_image(Path::new("/x/photo.PNG")));
    assert!(is_still_image(Path::new("a.Jpeg")));
    assert!(is_still_image(Path::new("a.gif")));
    assert!(is_still_image(Path::new("a.webp")));
    assert!(is_still_image(Path::new("a.BMP")));
    assert!(!is_still_image(Path::new("movie.mp4")));
    assert!(!is_still_image(Path::new("png")));
    assert!(!is_still_image(Path::new("a.pngx")));
}

#[test]
fn export_problems_come_in_order() {
    let mut tl: Timeline<String> = Timeline::new();
    assert_eq!(tl.export_problem(), Some(ExportProblem::EmptyTimeline));
    let id = tl.next_id();
    tl.append_clip_by_kind(Clip::new(id, 0, t(3_000_000), true, false, "c".to_string()));
    assert_eq!(tl.export_problem(), None);
    tl.tracks[0].clips[0].timeline_start = t(i64::MAX - 5);
    assert_eq!(tl.export_problem(), Some(ExportProblem::OutOfRange));
}

#[test]
fn music_offset_reads_back_in_microseconds() {
    assert_eq!(music_source_offset(t(1_000_000), t(2_000_000), t(1_500_000)).as_micros(), 2_500_000);
    assert_eq!(music_source_offset(t(1_000_000), t(0), t(0)).as_micros(), 0);
}

#[test]
fn nth_weekday_lands_in_its_week_on_its_weekday() {
    for n in 1..=4usize {
        for wd in 0..7usize {
            let d = CalendarMonth::nth_weekday_of_month(2026, 3, wd, n);
            let first = CalendarMonth::first_weekday_for(2026, 3);
            assert_eq!((first + d as usize - 1) % 7, wd);
            assert!(7 * (n as u32 - 1) < d && d <= 7 * n as u32);
        }
    }
}

#[test]
fn multi_month_text_clamps_count_and_ignores_lists_when_hidden() {
    let h = vec![HolidayItem::new("x", "Party", 3, 5, HolidayCategory::Custom, [1, 2, 3, 4])];
    let e = vec![CustomCalendarEvent::default()];
    let a = CalendarMonth::format_multi_month_string(2026, 3, 0, false, CalendarStyle::BoxedGrid, &h, &e);
    let b = CalendarMonth::format_multi_month_string(2026, 3, 1, false, CalendarStyle::BoxedGrid, &[], &[]);
    assert_eq!(a, b);
    let c = CalendarMonth::format_multi_month_string(2026, 3, 9, true, CalendarStyle::SimpleGrid, &h, &e);
    let d = CalendarMonth::format_multi_month_string(2026, 3, 3, true, CalendarStyle::SimpleGrid, &h, &e);
    assert_eq!(c, d);
    assert_eq!(c.trim_end(), c);
}

#[test]
fn sticker_catalog_shape() {
    let all = StickerCatalog::all_stickers();
    assert!(all.iter().all(|s| s.category != StickerCategory::All));
    for c in &StickerCategory::all_filter_categories()[1..] {
        assert!(all.iter().any(|s| s.category == *c));
    }
    for i in 0..all.len() {
        for j in i + 1..all.len() {
            assert_ne!(all[i].id, all[j].id);
        }
    }
}

#[test]
fn snapping_picks_the_nearest_and_the_first_on_ties() {
    let mut tl: Timeline<String> = Timeline::new();
    let id = tl.next_id();
    tl.append_clip_by_kind(Clip::new(id, 0, t(2_000_000), true, false, "c".to_string()));
    tl.playhead = t(1_000_000);
    assert_eq!(tl.find_snap_point(t(1_040_000), 100_000), t(1_000_000));
    assert_eq!(tl.find_snap_point(t(1_990_000), 100_000), t(2_000_000));
    assert_eq!(tl.find_snap_point(t(1_500_000), 100_000), t(1_500_000));
}

fn slide(id: u64, len: i64) -> Clip<String> {
    Clip::new(id, 1, t(len), false, false, format!("s{}", id))
}

#[test]
fn split_readiness_is_checked() {
    let mut tl: Timeline<String> = Timeline::new();
    let id = tl.next_id();
    tl.append_clip_by_kind(Clip::new(id, 0, t(3_000_000), true, false, "c".to_string()));
    tl.playhead = t(1_000_000);
    assert!(tl.split_ready_at_playhead());
    assert!(tl.tracks[0].clips[0].split_ready_at(t(1_000_000)));
    tl.tracks[0].clips[0].volume_envelope.next_node_id = u64::MAX;
    assert!(!tl.tracks[0].clips[0].split_ready_at(t(1_000_000)));
    assert!(tl.tracks[0].clips[0].split_ready_at(t(9_000_000)));
    assert!(!tl.split_ready_at_playhead());
    tl.tracks[0].clips[0].volume_envelope.next_node_id = 3;
    tl.next_id = u64::MAX - 2;
    assert!(!tl.split_ready_at_playhead());
}

#[test]
fn reflow_check_and_moves_that_keep_it() {
    let mut tl: Timeline<String> = Timeline::new();
    tl.tracks[0].clips.push(slide(1, 2_000_000));
    tl.tracks[0].clips.push(slide(2, 3_000_000));
    assert!(tl.can_reflow_slides());
    tl.reorder_slide(0, 1);
    assert!(tl.can_reflow_slides());
    tl.delete_slide_by_id(2);
    assert!(tl.can_reflow_slides());
    tl.tracks[0].clips.push(slide(3, i64::MAX));
    assert!(!tl.can_reflow_slides());
    tl.tracks[0].clips[1].source_in = TimeCode { micros: i64::MIN };
    assert!(!tl.can_reflow_slides());
}

use video_editor::export::{export_args, export_sources, source_index, still_input_micros, xfade_offsets, EncoderType};

fn strs(v: &[&str]) -> Vec<String> {
    v.iter().map(|s| s.to_string()).collect()
}

#[test]
fn export_inputs_are_first_uses() {
    let s = export_sources(&strs(&["a.mp4", "b.png", "a.mp4", "c.mp3", "b.png"]));
    assert_eq!(s, strs(&["a.mp4", "b.png", "c.mp3"]));
    assert_eq!(source_index(&s, "c.mp3"), Some(2));
    assert_eq!(source_index(&s, "z"), None);
    assert!(export_sources(&Vec::new()).is_empty());
}

#[test]
fn still_inputs_run_as_long_as_needed() {
    let mut tl: Timeline<String> = Timeline::new();
    let id = tl.next_id();
    tl.append_clip_by_kind(Clip::new(id, 0, t(3_000_000), true, false, "c".to_string()));
    let id = tl.next_id();
    let mut long = Clip::new(id, 0, t(6_000_000), true, false, "d".to_string());
    long.source_in = t(4_000_000);
    long.source_out = t(5_000_000);
    tl.append_clip_by_kind(long);
    let track = tl.tracks.iter().position(|tr| tr.clips.len() == 2).unwrap();
    let mut reads: Vec<Vec<bool>> = tl.tracks.iter().map(|tr| vec![false; tr.clips.len()]).collect();
    assert_eq!(still_input_micros(&tl, &vec![]), 4_000_000);
    reads[track][0] = true;
    assert_eq!(still_input_micros(&tl, &reads), 4_000_000);
    reads[track][1] = true;
    assert_eq!(still_input_micros(&tl, &reads), 5_000_000);
    let empty: Timeline<String> = Timeline::new();
    assert_eq!(still_input_micros(&empty, &vec![vec![true]]), 40_000);
}

#[test]
fn export_argument_order() {
    let args = export_args(
        &strs(&["a.mp4", "b.png"]),
        &vec![None, Some("3.000".to_string())],
        "G",
        "v",
        "a",
        EncoderType::NvencH264,
        8000,
        192,
        "out.mp4",
    );
    let want_head = strs(&["-y", "-i", "a.mp4", "-loop", "1", "-t", "3.000", "-i", "b.png", "-filter_complex", "G", "-map", "[v]", "-map", "[a]", "-c:v", "h264_nvenc"]);
    assert_eq!(args[..want_head.len()].to_vec(), want_head);
    let n = args.len();
    assert_eq!(args[n - 4..].to_vec(), strs(&["-y", "-progress", "pipe:1", "out.mp4"]));
    assert!(args.windows(2).any(|w| w[0] == "-c:a" && w[1] == "aac"));
}

#[test]
fn cross_fade_offsets() {
    let (offs, total) = xfade_offsets(&vec![2_000_000, 3_000_000, 1_000_000], &vec![0, 500_000, 250_000]);
    assert_eq!(offs, vec![0, 1_500_000, 4_250_000]);
    assert_eq!(total, 5_250_000);
    let (offs, total) = xfade_offsets(&vec![100, 100], &vec![0, 500]);
    assert_eq!(offs, vec![0, 0]);
    assert_eq!(total, 0);
}

#[test]
fn simple_grid_has_eight_lines_with_the_header() {
    // February 2026 begins on a Sunday and fills exactly four weeks.
    let lines = CalendarMonth::get_simple_month_grid_lines(2026, 2, false);
    assert_eq!(lines.len(), 8);
    assert_eq!(lines[1], "Sun  Mon  Tue  Wed  Thu  Fri  Sat");
    assert!(!lines[5].is_empty());
    assert!(lines[6].is_empty() && lines[7].is_empty());
    // August 2026 begins on a Saturday and spans six weeks.
    let lines = CalendarMonth::get_simple_month_grid_lines(2026, 8, true);
    assert_eq!(lines.len(), 8);
    assert_eq!(lines[1], "Su Mo Tu We Th Fr Sa");
    assert!(lines.iter().all(|l| !l.is_empty()));
}

#[test]
fn boxed_grid_lines_share_one_width() {
    let four_weeks = CalendarMonth::get_boxed_month_lines(2026, 2, 1, false, &[], &[]);
    assert_eq!(four_weeks.len(), 17);
    for line in &four_weeks[..16] {
        assert_eq!(line.chars().count(), 7 * 8 + 8);
    }
    assert!(four_weeks[16].is_empty());
    let six_weeks = CalendarMonth::get_boxed_month_lines(2026, 8, 3, false, &[], &[]);
    assert_eq!(six_weeks.len(), 4 + 3 * 6);
    for line in &six_weeks {
        assert_eq!(line.chars().count(), 7 * 4 + 8);
    }
}

#[test]
fn easter_is_a_spring_sunday() {
    for year in [1583, 1700, 1818, 1900, 2000, 2008, 2038, 2285, 2400, 9999] {
        let (m, d) = CalendarMonth::calculate_easter(year);
        assert!((m == 3 && (22..=31).contains(&d)) || (m == 4 && (1..=25).contains(&d)));
        assert_eq!((CalendarMonth::first_weekday_for(year, m) + d as usize - 1) % 7, 0);
    }
    // The extremes of the range: 22 March 1818 and 25 April 2038.
    assert_eq!(CalendarMonth::calculate_easter(1818), (3, 22));
    assert_eq!(CalendarMonth::calculate_easter(2038), (4, 25));
}
