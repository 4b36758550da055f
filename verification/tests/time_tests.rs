use video_editor::time::{smpte_from_frames, TimeCode};

#[test]
fn timecode_text_truncates_to_milliseconds() {
    assert_eq!(TimeCode::from_micros(61_500_999).to_timecode_str(), "00:01:01.500");
    assert_eq!(TimeCode::from_micros(3_723_004_000).to_timecode_str(), "01:02:03.004");
    assert_eq!(TimeCode::zero().to_timecode_str(), "00:00:00.000");
}

#[test]
fn negative_micros_clamp_to_zero() {
    assert_eq!(TimeCode::from_micros(-5).micros, 0);
    assert_eq!(TimeCode::from_micros(7).micros, 7);
}

#[test]
fn subtraction_never_goes_below_zero() {
    let a = TimeCode::from_micros(1_000);
    let b = TimeCode::from_micros(3_000);
    assert_eq!(a.sub(b).micros, 0);
    assert_eq!(b.sub(a).micros, 2_000);
    assert_eq!(a.add(b).micros, 4_000);
    let mut c = b;
    c.sub_assign(a);
    assert_eq!(c.micros, 2_000);
    c.add_assign(a);
    assert_eq!(c.micros, 3_000);
}

#[test]
fn smpte_formatting() {
    assert_eq!(smpte_from_frames(0, 30), "00:00:00:00");
    assert_eq!(smpte_from_frames(30 * 61 + 5, 30), "00:01:01:05");
    assert_eq!(smpte_from_frames(25 * 3600, 25), "01:00:00:00");
    assert_eq!(smpte_from_frames(7, 0), "00:00:07:00");
}

#[test]
fn timecodes_order_by_micros() {
    assert!(TimeCode::from_micros(1) < TimeCode::from_micros(2));
    assert_eq!(TimeCode::default(), TimeCode::zero());
}
