use cleanbot::clock::Stamp;
use cleanbot::schedule::{
    delete_messages, get_to_delete_messages, next_wait_time, wait_time, wait_times, Wait, WaitRow,
    MAX_WAIT_SECS,
};

fn stamp(secs: i64, nanos: u32) -> Stamp {
    Stamp { secs, nanos }
}

fn row(created: Stamp, delay: i64, message: i64, channel: i64) -> WaitRow {
    WaitRow { created_at: created, delay, message, channel }
}

fn wait(delta: i128, message: i64, channel: i64) -> Wait {
    Wait { delta, message, channel }
}

#[test]
fn wait_time_is_deadline_minus_now() {
    // recorded at 1000 s, delay 5 minutes: due at 1300 s; seen at 1100.5 s
    let w = wait_time(&row(stamp(1_000, 0), 5, 7, 9), stamp(1_100, 500_000_000));
    assert_eq!(w, wait(199_500_000_000, 7, 9));
}

#[test]
fn wait_time_negative_once_past_deadline() {
    let w = wait_time(&row(stamp(1_000, 250), 1, 1, 2), stamp(1_061, 0));
    assert_eq!(w.delta, -999_999_750);
}

#[test]
fn wait_time_zero_exactly_at_deadline() {
    let w = wait_time(&row(stamp(0, 0), 2, 3, 4), stamp(120, 0));
    assert_eq!(w.delta, 0);
}

#[test]
fn wait_times_skips_channels_without_positive_delay() {
    let rows = [
        row(stamp(0, 0), 0, 1, 10),
        row(stamp(0, 0), 3, 2, 10),
        row(stamp(0, 0), -4, 3, 10),
        row(stamp(0, 0), 1, 4, 11),
    ];
    let waits = wait_times(&rows).unwrap();
    assert_eq!(waits.len(), 2);
    assert_eq!((waits[0].message, waits[0].channel), (2, 10));
    assert_eq!((waits[1].message, waits[1].channel), (4, 11));
    // recorded at the epoch: long overdue by now
    assert!(waits[0].delta < 0);
    assert!(waits[1].delta < 0);
}

#[test]
fn wait_times_reads_the_clock() {
    // recorded in the year 2200 with a one-minute delay: far in the future
    let rows = [row(stamp(7_258_118_400, 0), 1, 5, 6)];
    let waits = wait_times(&rows).unwrap();
    assert_eq!(waits.len(), 1);
    let now = std::time::SystemTime::now().duration_since(std::time::UNIX_EPOCH).unwrap();
    let expected = (7_258_118_460i128 - now.as_secs() as i128) * 1_000_000_000;
    // the two clock readings are close together
    assert!((waits[0].delta - expected).abs() < 60 * 1_000_000_000);
}

#[test]
fn wait_times_of_nothing_is_empty() {
    assert!(wait_times(&[]).unwrap().is_empty());
}

#[test]
fn next_wait_with_nothing_recorded_is_max() {
    assert_eq!(next_wait_time(&[]), MAX_WAIT_SECS);
    assert_eq!(MAX_WAIT_SECS, 9_223_372_036_854_775);
}

#[test]
fn next_wait_is_whole_seconds_of_smallest() {
    let waits = [wait(90_500_000_000, 1, 1), wait(30_999_999_999, 2, 1), wait(45_000_000_000, 3, 2)];
    assert_eq!(next_wait_time(&waits), 30);
}

#[test]
fn next_wait_zero_when_something_due() {
    let waits = [wait(90_000_000_000, 1, 1), wait(-5, 2, 1)];
    assert_eq!(next_wait_time(&waits), 0);
    let waits = [wait(0, 1, 1)];
    assert_eq!(next_wait_time(&waits), 0);
}

#[test]
fn next_wait_zero_when_under_a_second() {
    let waits = [wait(999_999_999, 1, 1), wait(5_000_000_000, 2, 1)];
    assert_eq!(next_wait_time(&waits), 0);
}

#[test]
fn next_wait_never_oversleeps_a_deadline() {
    let waits = [wait(3_700_000_000, 1, 1), wait(2_100_000_000, 2, 1), wait(9_000_000_000, 3, 1)];
    let secs = next_wait_time(&waits) as i128;
    for w in &waits {
        assert!(secs * 1_000_000_000 <= w.delta);
    }
}

#[test]
fn due_messages_are_exactly_the_non_positive_ones_in_order() {
    let waits = [
        wait(-3, 11, 100),
        wait(5, 12, 100),
        wait(0, 13, 101),
        wait(1_000, 14, 102),
        wait(-1_000_000_000_000, 15, 103),
    ];
    assert_eq!(get_to_delete_messages(&waits), vec![(11, 100), (13, 101), (15, 103)]);
}

#[test]
fn due_messages_reinterpret_negative_keys() {
    let waits = [wait(-1, -1, -2)];
    assert_eq!(get_to_delete_messages(&waits), vec![(u64::MAX, u64::MAX - 1)]);
}

#[test]
fn due_messages_empty_when_nothing_due() {
    assert!(get_to_delete_messages(&[wait(1, 1, 1)]).is_empty());
    assert!(get_to_delete_messages(&[]).is_empty());
}

#[test]
fn something_due_means_no_sleep() {
    let waits = [wait(40_000_000_000, 1, 1), wait(-7, 2, 2)];
    assert!(!get_to_delete_messages(&waits).is_empty());
    assert_eq!(next_wait_time(&waits), 0);
}

#[test]
fn delete_keys_are_message_ids_as_stored() {
    let keys = delete_messages(&[(5, 1), (u64::MAX, 2), (1 << 63, 3)]);
    assert_eq!(keys, vec![5, -1, i64::MIN]);
}

#[test]
fn wait_shrinks_by_elapsed_time() {
    let r = row(stamp(5_000, 100), 10, 1, 2);
    let w1 = wait_time(&r, stamp(5_100, 0));
    let w2 = wait_time(&r, stamp(5_400, 250));
    assert_eq!(w1.delta - w2.delta, 300_000_000_250);
    assert_eq!((w1.message, w1.channel), (w2.message, w2.channel));
}

#[test]
fn due_stays_due_later() {
    let rows = [row(stamp(0, 0), 1, 1, 1), row(stamp(100, 0), 1, 2, 1)];
    let early: Vec<Wait> = rows.iter().map(|r| wait_time(r, stamp(130, 0))).collect();
    let late: Vec<Wait> = rows.iter().map(|r| wait_time(r, stamp(200, 0))).collect();
    let due_early = get_to_delete_messages(&early);
    let due_late = get_to_delete_messages(&late);
    assert_eq!(due_early, vec![(1, 1)]);
    for x in &due_early {
        assert!(due_late.contains(x));
    }
    assert_eq!(due_late, vec![(1, 1), (2, 1)]);
}

#[test]
fn clock_reading_is_now() {
    let now = cleanbot::clock::clock_now().unwrap();
    let sys = std::time::SystemTime::now().duration_since(std::time::UNIX_EPOCH).unwrap().as_secs() as i64;
    assert!(now.nanos < 1_000_000_000);
    assert!((sys - now.secs).abs() <= 1);
}

#[test]
fn wait_times_without_cleaned_rows_is_empty() {
    let rows = [row(stamp(0, 0), 0, 1, 1), row(stamp(0, 0), -3, 2, 1)];
    assert_eq!(wait_times(&rows), Ok(vec![]));
}
