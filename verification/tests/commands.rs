use cleanbot::clock::Stamp;
use cleanbot::commands::{
    check_delay, is_recent, judge_age, PurgeFailure, plan_auto_clean, plan_stop_auto_clean, purge_fetch_limit, purge_reply,
    purge_split, ChannelWrite, CommandError, CommandPlan, Reply, BULK_DELETE_WINDOW_SECS,
};

#[test]
fn delay_bounds() {
    assert_eq!(check_delay(0), Err(CommandError::DelayOutOfRange));
    assert_eq!(check_delay(1), Ok(()));
    assert_eq!(check_delay(30), Ok(()));
    assert_eq!(check_delay(1439), Ok(()));
    assert_eq!(check_delay(1440), Ok(()));
    assert_eq!(check_delay(1441), Err(CommandError::DelayOutOfRange));
    assert_eq!(check_delay(u64::MAX), Err(CommandError::DelayOutOfRange));
}

#[test]
fn auto_clean_new_channel_inserts() {
    let plan = plan_auto_clean(42, 15, false);
    assert_eq!(
        plan,
        CommandPlan {
            write: Some(ChannelWrite::Insert { stored_channel: 42, delay: 15 }),
            reply: Reply::NowCleaning { delay: 15 },
            wake_cleaner: true,
        }
    );
}

#[test]
fn auto_clean_known_channel_updates() {
    let plan = plan_auto_clean(42, 60, true);
    assert_eq!(
        plan,
        CommandPlan {
            write: Some(ChannelWrite::UpdateDelay { channel: 42, delay: 60 }),
            reply: Reply::DelayUpdated { delay: 60 },
            wake_cleaner: true,
        }
    );
}

#[test]
fn auto_clean_stores_large_ids_as_signed() {
    let plan = plan_auto_clean(u64::MAX, 1, false);
    assert_eq!(plan.write, Some(ChannelWrite::Insert { stored_channel: -1, delay: 1 }));
}

#[test]
fn stop_known_channel_deletes() {
    assert_eq!(
        plan_stop_auto_clean(7, true),
        CommandPlan { write: Some(ChannelWrite::Delete { channel: 7 }), reply: Reply::Stopped, wake_cleaner: false }
    );
}

#[test]
fn stop_unknown_channel_does_nothing() {
    assert_eq!(
        plan_stop_auto_clean(7, false),
        CommandPlan { write: None, reply: Reply::NotCleaned, wake_cleaner: false }
    );
}

#[test]
fn purge_fetches_one_more() {
    assert_eq!(purge_fetch_limit(0), 1);
    assert_eq!(purge_fetch_limit(10), 11);
    assert_eq!(purge_fetch_limit(254), 255);
    assert_eq!(purge_reply(9), Reply::Purging { count: 9 });
}

#[test]
fn recent_means_newer_than_fourteen_days() {
    let now = Stamp { secs: 2_000_000, nanos: 999_999_999 };
    assert_eq!(BULK_DELETE_WINDOW_SECS, 14 * 24 * 60 * 60);
    assert!(is_recent(2_000_000 - 1_209_600 + 1, now));
    assert!(!is_recent(2_000_000 - 1_209_600, now));
    assert!(!is_recent(0, now));
    assert!(is_recent(2_000_000, now));
}

#[test]
fn purge_split_by_age_in_order() {
    let now = std::time::SystemTime::now().duration_since(std::time::UNIX_EPOCH).unwrap().as_secs() as i64;
    let messages = [
        (1, now - 60),
        (2, now - 20 * 86_400),
        (3, now - 86_400),
        (4, now - 15 * 86_400),
        (5, now),
    ];
    let split = purge_split(&messages).unwrap();
    assert_eq!(split.bulk, vec![1, 3, 5]);
    assert_eq!(split.single, vec![2, 4]);
}

#[test]
fn purge_split_of_nothing() {
    let split = purge_split(&[]).unwrap();
    assert!(split.bulk.is_empty());
    assert!(split.single.is_empty());
}

#[test]
fn reply_texts() {
    assert_eq!(
        Reply::NowCleaning { delay: 15 }.text("<#42>"),
        "Now cleaning messages in channel: <#42>, after a delay of 15 minute."
    );
    assert_eq!(
        Reply::DelayUpdated { delay: 1439 }.text("<#42>"),
        "Updated delay for channel: <#42>, to 1439 minute."
    );
    assert_eq!(Reply::Stopped.text("<#7>"), "Stopped cleaning messages in channel: <#7>");
    assert_eq!(Reply::NotCleaned.text("alice"), "No auto-clean setup for channel: alice");
    assert_eq!(Reply::Purging { count: 0 }.text("<#1>"), "Purging 0 messages in channel: <#1>");
    assert_eq!(Reply::Purging { count: 255 }.text("<#1>"), "Purging 255 messages in channel: <#1>");
}

#[test]
fn refusal_text() {
    assert_eq!(
        CommandError::DelayOutOfRange.message(),
        "Delay must be between 1 and 1440 minutes (24 hours)."
    );
    let err = check_delay(5000).unwrap_err();
    assert_eq!(err.message(), "Delay must be between 1 and 1440 minutes (24 hours).");
}

#[test]
fn reply_text_of_plan() {
    let plan = plan_auto_clean(3, 10, false);
    assert_eq!(plan.reply.text("<#3>"), "Now cleaning messages in channel: <#3>, after a delay of 10 minute.");
    let plan = plan_stop_auto_clean(3, true);
    assert_eq!(plan.reply.text("<#3>"), "Stopped cleaning messages in channel: <#3>");
}

#[test]
fn judge_age_against_reading() {
    let now = Stamp { secs: 10_000_000, nanos: 0 };
    assert_eq!(judge_age(10_000_000 - 1_209_599, now), Ok(true));
    assert_eq!(judge_age(10_000_000 - 1_209_600, now), Ok(false));
    let earliest = Stamp { secs: -8_334_601_315_200 + 1_209_599, nanos: 0 };
    assert_eq!(judge_age(0, earliest), Err(PurgeFailure::WindowOutOfRange));
    let just_enough = Stamp { secs: -8_334_601_315_200 + 1_209_600, nanos: 0 };
    assert_eq!(judge_age(0, just_enough), Ok(true));
}

#[test]
fn clean_then_stop_targets_same_channel() {
    let ch: u64 = 1_100_000_000_000_000_000;
    let Some(ChannelWrite::Insert { stored_channel, .. }) = plan_auto_clean(ch, 1440, false).write else {
        panic!("a new channel is inserted");
    };
    assert_eq!(stored_channel as u64, ch);
    assert_eq!(plan_stop_auto_clean(ch, true).write, Some(ChannelWrite::Delete { channel: ch }));
}
