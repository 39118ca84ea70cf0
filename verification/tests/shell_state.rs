use chartview::config::{Storage, WinInfo};
use chartview::find_dlg::{FindDlg, Response};
use chartview::geom::{Pos, Size};
use chartview::touch::{check_time, LongPressTracker, TouchPhase, TrackerCommand};

#[test]
fn fresh_storage_has_nothing() {
    let s = Storage::new();
    assert!(s.get_win_info().is_none());
    assert!(s.get_night_mode().is_none());
    assert!(s.get_asset_path().is_none());
}

#[test]
fn storage_returns_what_was_set() {
    let mut s = Storage::new();
    let wi = WinInfo { pos: Pos { x: 30, y: 40 }, size: Size { w: 800, h: 600 } };
    s.set_win_info(&wi);
    s.set_night_mode(true);
    s.set_asset_path("/home/pilot/charts".to_string());
    assert_eq!(s.get_win_info(), Some(wi));
    assert_eq!(s.get_night_mode(), Some(true));
    assert_eq!(s.get_asset_path().as_deref(), Some("/home/pilot/charts"));
    s.set_night_mode(false);
    assert_eq!(s.get_night_mode(), Some(false));
}

#[test]
fn storage_load_restores_persisted_values() {
    let s = Storage::load(None, Some(true), Some("/tmp/assets".to_string()));
    assert!(s.get_win_info().is_none());
    assert_eq!(s.get_night_mode(), Some(true));
    assert_eq!(s.get_asset_path().as_deref(), Some("/tmp/assets"));
}

#[test]
fn find_dialog_opens_empty_and_focused() {
    let d = FindDlg::open();
    assert_eq!(d.text, "");
    assert!(d.focus);
}

#[test]
fn submitting_takes_the_text() {
    let mut d = FindDlg::open();
    d.text = "KSFO".to_string();
    match d.resolve(false, true, false) {
        Response::Term(t) => assert_eq!(t, "KSFO"),
        other => panic!("expected Term, got {other:?}"),
    }
    assert_eq!(d.text, "");
}

#[test]
fn escape_dismisses_even_with_a_submission() {
    let mut d = FindDlg::open();
    d.text = "KSFO".to_string();
    assert!(matches!(d.resolve(true, true, false), Response::Cancel));
    assert_eq!(d.text, "");
}

#[test]
fn cancel_and_idle_frames() {
    let mut d = FindDlg::open();
    assert!(matches!(d.resolve(false, false, true), Response::Cancel));
    assert!(matches!(d.resolve(false, false, false), Response::Idle));
}

#[test]
fn check_time_needs_a_full_second() {
    assert!(!check_time(None, 5_000));
    assert!(!check_time(Some(4_500), 5_000));
    assert!(!check_time(Some(4_001), 5_000));
    assert!(check_time(Some(4_000), 5_000));
    assert!(check_time(Some(1_000), 5_000));
    // A start time in the future counts for nothing.
    assert!(!check_time(Some(9_000), 5_000));
}

#[test]
fn a_resting_touch_becomes_a_long_press() {
    let mut t = LongPressTracker::new();
    let cmd = t.set(7, TouchPhase::Start, Pos { x: 12, y: 34 }, 1_000);
    assert_eq!(cmd, Some(TrackerCommand::Refresh(1_000)));
    t.update(1_500);
    assert!(t.pos.is_none());
    t.update(2_000);
    assert_eq!(t.pos, Some(Pos { x: 12, y: 34 }));
}

#[test]
fn movement_cancels_the_press() {
    let mut t = LongPressTracker::new();
    t.set(7, TouchPhase::Start, Pos { x: 1, y: 2 }, 1_000);
    let cmd = t.set(7, TouchPhase::Move, Pos { x: 3, y: 4 }, 1_100);
    assert_eq!(cmd, Some(TrackerCommand::Cancel));
    t.update(3_000);
    assert!(t.pos.is_none());
}

#[test]
fn a_second_touch_cancels_the_press() {
    let mut t = LongPressTracker::new();
    t.set(7, TouchPhase::Start, Pos { x: 1, y: 2 }, 1_000);
    let cmd = t.set(8, TouchPhase::Start, Pos { x: 9, y: 9 }, 1_050);
    assert_eq!(cmd, Some(TrackerCommand::Cancel));
    t.update(3_000);
    assert!(t.pos.is_none());
}

#[test]
fn lifting_the_touch_cancels_the_press() {
    let mut t = LongPressTracker::new();
    t.set(7, TouchPhase::Start, Pos { x: 1, y: 2 }, 1_000);
    let cmd = t.set(7, TouchPhase::End, Pos { x: 1, y: 2 }, 1_200);
    assert_eq!(cmd, Some(TrackerCommand::Cancel));
    // With every touch lifted, a new touch can start a fresh press.
    let cmd = t.set(7, TouchPhase::Start, Pos { x: 5, y: 6 }, 2_000);
    assert_eq!(cmd, Some(TrackerCommand::Refresh(2_000)));
    t.update(3_000);
    assert_eq!(t.pos, Some(Pos { x: 5, y: 6 }));
}
