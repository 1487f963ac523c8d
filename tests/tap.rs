use android_view::tap::{PointerEvent, PointerState, TapConfig, TapCounter};

const MS: u64 = 1_000_000;

fn config() -> TapConfig {
    TapConfig { scaled_double_tap_slop: 100, multi_press_timeout: 300 }
}

fn state(time: u64, x: i32, y: i32) -> PointerState {
    PointerState { time, x, y, count: 0 }
}

fn down(tc: &mut TapCounter, id: u64, time: u64, x: i32, y: i32) -> u8 {
    match tc.attach_count(PointerEvent::Down { pointer_id: Some(id), state: state(time, x, y) }) {
        PointerEvent::Down { state, .. } => state.count,
        _ => panic!("Down must stay Down"),
    }
}

fn up(tc: &mut TapCounter, id: u64, time: u64, x: i32, y: i32) -> u8 {
    match tc.attach_count(PointerEvent::Up { pointer_id: Some(id), state: state(time, x, y) }) {
        PointerEvent::Up { state, .. } => state.count,
        _ => panic!("Up must stay Up"),
    }
}

#[test]
fn second_quick_tap_counts_two() {
    let mut tc = TapCounter::new(config());
    assert_eq!(down(&mut tc, 1, 0, 10, 10), 1);
    assert_eq!(up(&mut tc, 1, 50 * MS, 10, 10), 1);
    assert_eq!(down(&mut tc, 1, 100 * MS, 10, 10), 2);
}

#[test]
fn quick_taps_count_up() {
    let mut tc = TapCounter::new(config());
    let mut t = 0;
    for n in 1..=5u8 {
        assert_eq!(down(&mut tc, 7, t, 40, 40), n);
        assert_eq!(up(&mut tc, 7, t + 30 * MS, 40, 40), n);
        t += 300 * MS;
    }
}

#[test]
fn long_gap_resets_count() {
    let mut tc = TapCounter::new(config());
    assert_eq!(down(&mut tc, 1, 0, 10, 10), 1);
    assert_eq!(up(&mut tc, 1, 10 * MS, 10, 10), 1);
    assert_eq!(down(&mut tc, 1, 100 * MS, 10, 10), 2);
    assert_eq!(up(&mut tc, 1, 110 * MS, 10, 10), 2);
    // The timeout of 300 ms counts as 400 ms: a gap of exactly 400 ms resets.
    assert_eq!(down(&mut tc, 1, 510 * MS, 10, 10), 1);
    assert_eq!(tc.len(), 1);
}

#[test]
fn gap_just_inside_floor_still_counts() {
    let mut tc = TapCounter::new(config());
    assert_eq!(down(&mut tc, 1, 0, 10, 10), 1);
    assert_eq!(up(&mut tc, 1, 10 * MS, 10, 10), 1);
    assert_eq!(down(&mut tc, 1, 410 * MS - 1, 10, 10), 2);
}

#[test]
fn longer_timeout_widens_window() {
    let mut tc = TapCounter::new(TapConfig { scaled_double_tap_slop: 100, multi_press_timeout: 600 });
    assert_eq!(down(&mut tc, 1, 0, 10, 10), 1);
    assert_eq!(up(&mut tc, 1, 10 * MS, 10, 10), 1);
    assert_eq!(down(&mut tc, 1, 500 * MS, 10, 10), 2);
}

#[test]
fn distant_downs_each_count_one() {
    let mut tc = TapCounter::new(config());
    assert_eq!(down(&mut tc, 1, 0, 0, 0), 1);
    assert_eq!(down(&mut tc, 2, 0, 100, 0), 1);
    assert_eq!(down(&mut tc, 3, 0, 300, 300), 1);
}

#[test]
fn slop_is_euclidean() {
    let mut tc = TapCounter::new(config());
    assert_eq!(down(&mut tc, 1, 0, 0, 0), 1);
    assert_eq!(up(&mut tc, 1, MS, 0, 0), 1);
    // Distance sqrt(60^2 + 80^2) = 100: not strictly closer than the slop.
    assert_eq!(down(&mut tc, 1, 2 * MS, 60, 80), 1);
    assert_eq!(up(&mut tc, 1, 3 * MS, 60, 80), 1);
    // Distance sqrt(59^2 + 80^2) < 100 from the second tap: joins it.
    assert_eq!(down(&mut tc, 1, 4 * MS, 119, 160), 2);
}

#[test]
fn move_takes_count_of_pressed_tap() {
    let mut tc = TapCounter::new(config());
    down(&mut tc, 4, 0, 5, 5);
    up(&mut tc, 4, MS, 5, 5);
    assert_eq!(down(&mut tc, 4, 2 * MS, 5, 5), 2);
    let e = PointerEvent::Move {
        pointer_id: Some(4),
        current: state(3 * MS, 6, 6),
        coalesced: vec![state(2 * MS + 1, 5, 6), state(2 * MS + 2, 6, 5)],
        predicted: vec![],
    };
    match tc.attach_count(e) {
        PointerEvent::Move { current, coalesced, predicted, .. } => {
            assert_eq!(current.count, 2);
            assert_eq!(coalesced.len(), 2);
            assert!(coalesced.iter().all(|s| s.count == 2));
            assert!(predicted.is_empty());
            assert_eq!(coalesced[1].time, 2 * MS + 2);
        }
        _ => panic!("Move must stay Move"),
    }
}

#[test]
fn move_after_release_passes_unchanged() {
    let mut tc = TapCounter::new(config());
    down(&mut tc, 4, 0, 5, 5);
    up(&mut tc, 4, MS, 5, 5);
    let e = PointerEvent::Move {
        pointer_id: Some(4),
        current: state(2 * MS, 6, 6),
        coalesced: vec![state(2 * MS, 6, 6)],
        predicted: vec![],
    };
    match tc.attach_count(e) {
        PointerEvent::Move { current, coalesced, .. } => {
            assert_eq!(current.count, 0);
            assert_eq!(coalesced[0].count, 0);
        }
        _ => panic!("Move must stay Move"),
    }
}

#[test]
fn up_of_unknown_pointer_passes_unchanged() {
    let mut tc = TapCounter::new(config());
    assert_eq!(up(&mut tc, 9, MS, 0, 0), 0);
    assert_eq!(tc.len(), 0);
}

#[test]
fn cancel_and_leave_drop_pointer_taps() {
    let mut tc = TapCounter::new(config());
    down(&mut tc, 1, 0, 0, 0);
    down(&mut tc, 2, 0, 500, 500);
    assert_eq!(tc.len(), 2);
    match tc.attach_count(PointerEvent::Cancel { pointer_id: Some(1) }) {
        PointerEvent::Cancel { pointer_id } => assert_eq!(pointer_id, Some(1)),
        _ => panic!("Cancel must stay Cancel"),
    }
    assert_eq!(tc.len(), 1);
    tc.attach_count(PointerEvent::Leave { pointer_id: Some(2) });
    assert_eq!(tc.len(), 0);
    assert_eq!(down(&mut tc, 1, MS, 0, 0), 1);
}

#[test]
fn enter_and_scroll_pass_through() {
    let mut tc = TapCounter::new(config());
    match tc.attach_count(PointerEvent::Scroll { pointer_id: None, state: state(5, 1, 2) }) {
        PointerEvent::Scroll { state, .. } => {
            assert_eq!(state.count, 0);
            assert_eq!(state.time, 5);
        }
        _ => panic!("Scroll must stay Scroll"),
    }
    match tc.attach_count(PointerEvent::Enter { pointer_id: Some(3) }) {
        PointerEvent::Enter { pointer_id } => assert_eq!(pointer_id, Some(3)),
        _ => panic!("Enter must stay Enter"),
    }
    assert_eq!(tc.len(), 0);
}

#[test]
fn zero_slop_never_joins() {
    let mut tc = TapCounter::new(TapConfig { scaled_double_tap_slop: 0, multi_press_timeout: 300 });
    assert_eq!(down(&mut tc, 1, 0, 0, 0), 1);
    assert_eq!(up(&mut tc, 1, MS, 0, 0), 1);
    assert_eq!(down(&mut tc, 1, 2 * MS, 0, 0), 1);
}

#[test]
fn count_saturates() {
    let mut tc = TapCounter::new(config());
    let mut last = 0;
    for i in 0..300u64 {
        last = down(&mut tc, 1, i * 10 * MS, 0, 0);
        up(&mut tc, 1, i * 10 * MS + MS, 0, 0);
    }
    assert_eq!(last, 255);
}

#[test]
fn config_is_kept() {
    let tc = TapCounter::new(config());
    assert_eq!(tc.config().scaled_double_tap_slop, 100);
    assert_eq!(tc.config().multi_press_timeout, 300);
}
