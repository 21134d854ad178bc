use cleanbot::clock::Stamp;
use cleanbot::commands::{plan_auto_clean, ChannelWrite};
use cleanbot::schedule::{get_to_delete_messages, wait_time, WaitRow};
use cleanbot::events::{add_message, plan_event, BotEvent, ChannelRecord, EventPlan};

#[test]
fn first_login_starts_cleaner() {
    assert_eq!(
        plan_event(BotEvent::Ready, false),
        EventPlan { start_cleaner: true, record: None, started: true }
    );
}

#[test]
fn later_logins_do_not_restart_cleaner() {
    let mut started = false;
    let mut starts = 0;
    for e in [BotEvent::Other, BotEvent::Ready, BotEvent::Message { channel: 1, message: 2 }, BotEvent::Ready, BotEvent::Ready] {
        let plan = plan_event(e, started);
        if plan.start_cleaner {
            starts += 1;
        }
        started = plan.started;
    }
    assert_eq!(starts, 1);
    assert!(started);
}

#[test]
fn posted_message_is_offered_for_recording() {
    assert_eq!(
        plan_event(BotEvent::Message { channel: 5, message: 6 }, true),
        EventPlan { start_cleaner: false, record: Some((5, 6)), started: true }
    );
    assert_eq!(
        plan_event(BotEvent::Other, false),
        EventPlan { start_cleaner: false, record: None, started: false }
    );
}

#[test]
fn message_in_uncleaned_channel_not_recorded() {
    assert_eq!(add_message(None, 99), Ok(None));
}

#[test]
fn message_in_cleaned_channel_recorded_now() {
    let before = std::time::SystemTime::now().duration_since(std::time::UNIX_EPOCH).unwrap().as_secs() as i64;
    let rec = ChannelRecord { id: 77, channel: 3, delay: 10 };
    let row = add_message(Some(rec), u64::MAX).unwrap().unwrap();
    let after = std::time::SystemTime::now().duration_since(std::time::UNIX_EPOCH).unwrap().as_secs() as i64;
    assert_eq!(row.channel, 77);
    assert_eq!(row.message, -1);
    assert!(before <= row.created_at.secs && row.created_at.secs <= after);
    assert!(row.created_at.nanos < 1_000_000_000);
}

#[test]
fn recorded_message_comes_back_when_due() {
    let channel: u64 = 1_234_567_890_123_456_789;
    let message: u64 = 9_876_543_210_987_654_321;
    let Some(ChannelWrite::Insert { stored_channel, delay }) = plan_auto_clean(channel, 3, false).write else {
        panic!("a new channel is inserted");
    };
    let rec = ChannelRecord { id: 1, channel: stored_channel, delay };
    let row = add_message(Some(rec), message).unwrap().unwrap();
    let wait_row = WaitRow { created_at: row.created_at, delay, message: row.message, channel: stored_channel };

    let early = Stamp { secs: row.created_at.secs + 179, nanos: row.created_at.nanos };
    assert!(wait_time(&wait_row, early).delta > 0);
    let due_at = Stamp { secs: row.created_at.secs + 180, nanos: row.created_at.nanos };
    let w = wait_time(&wait_row, due_at);
    assert_eq!(w.delta, 0);
    assert_eq!(get_to_delete_messages(&[w]), vec![(message, channel)]);
}
