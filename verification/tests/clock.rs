use chess_server::clock::{
    first_move_delay, match_start, millis, remaining_after_move, ClockError, INCREMENT,
    INITIAL_TIME, START_WINDOW,
};

#[test]
fn constants_of_the_clock() {
    assert_eq!(INITIAL_TIME, 180000);
    assert_eq!(INCREMENT, 2000);
    assert_eq!(START_WINDOW, 20000);
}

#[test]
fn the_first_move_is_free() {
    assert_eq!(remaining_after_move(true, 180000, 0, 999999999), 180000);
}

#[test]
fn a_fast_move_gains_time() {
    assert_eq!(remaining_after_move(false, 180000, 1000, 1500), 181500);
    assert_eq!(remaining_after_move(false, 180000, 1000, 1000), 182000);
    assert_eq!(remaining_after_move(false, 180000, 1000, 3000), 180000);
}

#[test]
fn a_slow_move_costs_time() {
    assert_eq!(remaining_after_move(false, 180000, 1000, 3001), 179999);
    assert_eq!(remaining_after_move(false, 180000, 0, 181999), 1);
    assert_eq!(remaining_after_move(false, 180000, 0, 182000), 0);
    assert_eq!(remaining_after_move(false, 180000, 0, u64::MAX), 0);
}

#[test]
fn slower_moves_never_leave_more() {
    let mut before = u64::MAX;
    for elapsed in 0..4000u64 {
        let left = remaining_after_move(false, 1500, 0, elapsed);
        assert!(left <= before);
        assert!(left <= 3500);
        assert_eq!(left == 0, elapsed >= 3500);
        before = left;
    }
}

#[test]
fn readings_of_clocks() {
    assert_eq!(millis(0), Ok(0));
    assert_eq!(millis(u64::MAX as u128), Ok(u64::MAX));
    assert_eq!(millis(u64::MAX as u128 + 1), Err(ClockError::TooLarge));
}

#[test]
fn a_match_is_called_off_one_window_after_its_start() {
    let start = match_start(70000, 1000000, 1000400);
    assert_eq!(start, 69600);
    let delay = first_move_delay(1000000, 1000400);
    assert_eq!(delay, 19600);
    assert_eq!(70000 + delay, start + START_WINDOW);
    assert_eq!(first_move_delay(1000000, 1020000), 0);
    assert_eq!(first_move_delay(1000000, 2000000), 0);
}
