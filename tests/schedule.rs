use asterctl::schedule::{is_active_at, is_display_active};

#[test]
fn wraparound_schedule() {
    assert!(is_active_at(23, Some(22), Some(6)));
    assert!(is_active_at(3, Some(22), Some(6)));
    assert!(!is_active_at(10, Some(22), Some(6)));
    assert!(is_active_at(22, Some(22), Some(6)));
    assert!(!is_active_at(6, Some(22), Some(6)));
}

#[test]
fn on_hour_only_schedule() {
    assert!(!is_active_at(5, Some(8), None));
    assert!(is_active_at(9, Some(8), None));
    assert!(is_active_at(8, Some(8), None));
}

#[test]
fn off_hour_only_schedule() {
    assert!(is_active_at(5, None, Some(8)));
    assert!(!is_active_at(8, None, Some(8)));
}

#[test]
fn plain_range_schedule() {
    assert!(is_active_at(8, Some(8), Some(22)));
    assert!(is_active_at(21, Some(8), Some(22)));
    assert!(!is_active_at(22, Some(8), Some(22)));
    assert!(!is_active_at(7, Some(8), Some(22)));
}

#[test]
fn no_schedule_is_always_active() {
    for h in 0..24 {
        assert!(is_active_at(h, None, None));
    }
    assert!(is_display_active(None, None));
}

#[test]
fn empty_range_is_never_active() {
    assert!(!is_display_active(Some(5), Some(5)));
    assert!(is_display_active(Some(0), None));
    assert!(!is_display_active(None, Some(0)));
}
