use video_editor::history::TimelineHistory;

#[test]
fn undo_returns_the_snapshot() {
    let mut h: TimelineHistory<u32> = TimelineHistory::new(10);
    assert!(!h.can_undo());
    h.push_snapshot(&1);
    h.push_snapshot(&2);
    assert!(h.can_undo());
    assert_eq!(h.undo(&3), Some(2));
    assert!(h.can_redo());
    assert_eq!(h.redo(&2), Some(3));
    assert_eq!(h.undo(&3), Some(2));
    assert_eq!(h.undo(&2), Some(1));
    assert_eq!(h.undo(&1), None);
}

#[test]
fn redo_after_undo_restores_current() {
    let mut h: TimelineHistory<String> = TimelineHistory::new(5);
    h.push_snapshot(&"before".to_string());
    let back = h.undo(&"now".to_string()).unwrap();
    assert_eq!(back, "before");
    let forward = h.redo(&back).unwrap();
    assert_eq!(forward, "now");
    assert!(h.can_undo());
    assert!(!h.can_redo());
}

#[test]
fn a_new_snapshot_clears_redo() {
    let mut h: TimelineHistory<u32> = TimelineHistory::new(5);
    h.push_snapshot(&1);
    h.undo(&2);
    assert!(h.can_redo());
    h.push_snapshot(&3);
    assert!(!h.can_redo());
    assert_eq!(h.redo(&4), None);
}

#[test]
fn history_is_bounded() {
    let mut h: TimelineHistory<u32> = TimelineHistory::new(2);
    h.push_snapshot(&1);
    h.push_snapshot(&2);
    h.push_snapshot(&3);
    assert_eq!(h.undo(&9), Some(3));
    assert_eq!(h.undo(&9), Some(2));
    assert_eq!(h.undo(&9), None);
}

#[test]
fn discard_and_clear() {
    let mut h: TimelineHistory<u32> = TimelineHistory::new(4);
    h.push_snapshot(&1);
    h.push_snapshot(&2);
    h.discard_last_snapshot();
    assert_eq!(h.undo(&5), Some(1));
    h.clear();
    assert!(!h.can_undo());
    assert!(!h.can_redo());
    h.discard_last_snapshot();
    assert!(!h.can_undo());
}

#[test]
fn a_zero_bound_keeps_nothing() {
    let mut h: TimelineHistory<i32> = TimelineHistory::new(0);
    h.push_snapshot(&1);
    assert!(!h.can_undo());
    assert!(!h.can_redo());
    assert_eq!(h.undo(&5), None);
    let mut d: TimelineHistory<i32> = TimelineHistory::default();
    d.push_snapshot(&1);
    assert!(!d.can_undo());
}
