use patto_mobile::progress::{
    analysis_throttle, analysis_update, apply_throttle, apply_update, building_event,
    complete_event, fixing_event, starting_event, transfer_throttle, transfer_update,
};

#[test]
fn transfer_emits_every_five_points() {
    let mut t = transfer_throttle();
    assert!(transfer_update(&mut t, 1, 100).is_none());
    assert!(transfer_update(&mut t, 4, 100).is_none());
    let ev = transfer_update(&mut t, 5, 100).expect("5% must emit");
    assert_eq!(ev.percent, 5);
    assert_eq!(ev.stage, "Receiving objects");
    assert_eq!(ev.received, 5);
    assert_eq!(ev.total, 100);
    assert!(transfer_update(&mut t, 7, 100).is_none());
    let ev = transfer_update(&mut t, 10, 100).expect("10% must emit");
    assert_eq!(ev.percent, 10);
}

#[test]
fn transfer_always_emits_at_hundred() {
    let mut t = transfer_throttle();
    let ev = transfer_update(&mut t, 20, 20).expect("full transfer must emit");
    assert_eq!(ev.percent, 100);
    let ev = transfer_update(&mut t, 20, 20).expect("100 emits even without advance");
    assert_eq!(ev.percent, 100);
}

#[test]
fn transfer_with_unknown_total_stays_quiet() {
    let mut t = transfer_throttle();
    assert!(transfer_update(&mut t, 0, 0).is_none());
}

#[test]
fn transfer_percents_non_decreasing() {
    let mut t = transfer_throttle();
    let mut last = 0u32;
    for received in 0..=57usize {
        if let Some(ev) = transfer_update(&mut t, received, 57) {
            assert!(ev.percent >= last);
            last = ev.percent;
        }
    }
    assert_eq!(last, 100);
}

#[test]
fn analysis_emits_every_ten_points() {
    let mut t = analysis_throttle();
    assert!(analysis_update(&mut t, 1, 10).is_none());
    let ev = analysis_update(&mut t, 2, 10).expect("10 points must emit");
    assert_eq!(ev.percent, 10);
    assert_eq!(ev.stage, "Analyzing commits");
    assert!(analysis_update(&mut t, 3, 10).is_none());
    let ev = analysis_update(&mut t, 4, 10).expect("20 points must emit");
    assert_eq!(ev.percent, 20);
    let ev = analysis_update(&mut t, 10, 10).expect("50 must emit");
    assert_eq!(ev.percent, 50);
}

#[test]
fn analysis_always_emits_its_completion() {
    let mut t = analysis_throttle();
    for processed in [20usize, 40, 60, 80] {
        analysis_update(&mut t, processed, 100);
    }
    assert!(analysis_update(&mut t, 96, 100).is_none());
    let ev = analysis_update(&mut t, 100, 100).expect("sub-stage completion must emit");
    assert_eq!(ev.percent, 50);
}

#[test]
fn apply_covers_second_half_and_ends_at_hundred() {
    let mut t = apply_throttle();
    let mut last = 50u32;
    let mut final_percent = 0u32;
    for applied in 1..=4usize {
        if let Some(ev) = apply_update(&mut t, applied, 4) {
            assert_eq!(ev.stage, "Setting timestamps");
            assert!(ev.percent >= 50);
            assert!(ev.percent >= last);
            last = ev.percent;
            final_percent = ev.percent;
        }
    }
    assert_eq!(final_percent, 100);
}

#[test]
fn apply_single_file_jumps_straight_to_hundred() {
    let mut t = apply_throttle();
    let ev = apply_update(&mut t, 1, 1).expect("last file must emit");
    assert_eq!(ev.percent, 100);
}

#[test]
fn lifecycle_events_have_fixed_shape() {
    let s = starting_event();
    assert_eq!(s.stage, "Starting clone");
    assert_eq!(s.percent, 0);
    let f = fixing_event();
    assert_eq!(f.stage, "Fixing timestamps");
    assert_eq!(f.percent, 100);
    let b = building_event();
    assert_eq!(b.stage, "Building file history");
    assert_eq!(b.percent, 0);
    let c = complete_event();
    assert_eq!(c.stage, "Complete");
    assert_eq!(c.percent, 100);
    assert_eq!(c.received, 0);
    assert_eq!(c.total, 0);
}

#[test]
fn empty_clone_still_ends_complete_at_hundred() {
    // A clone of an empty repository: no transfer objects, no commits, no
    // files to fix; the event stream is just the fixed lifecycle events and
    // the final one is Complete at 100.
    let mut t = transfer_throttle();
    assert!(transfer_update(&mut t, 0, 0).is_none());
    let mut a = analysis_throttle();
    assert!(analysis_update(&mut a, 0, 0).is_none());
    let c = complete_event();
    assert_eq!(c.stage, "Complete");
    assert_eq!(c.percent, 100);
}
