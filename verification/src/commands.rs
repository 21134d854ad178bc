//! What the bot's commands decide: the delay they accept, the table write they
//! issue, the reply they give, and how a purge splits messages by age.
//!
//! Each command runs in the binary: it asks the database whether the channel is
//! cleaned, hands the answer to a planning function here, then performs the
//! planned write, sends the reply, and wakes the cleaner when the plan says so,
//! stopping at the first failure.

use vstd::prelude::*;
use vstd::string::*;
use crate::clock::{Stamp, ClockError, Reading, read_clock, MIN_TIMESTAMP};
use crate::text::{decimal, decimal_text};

verus! {

/// Smallest accepted cleaning delay, in minutes.
pub const MIN_DELAY: u64 = 1;

/// Largest accepted cleaning delay, in minutes (a day).
pub const MAX_DELAY: u64 = 1440;

/// Seconds in the fourteen days past which the chat service refuses bulk deletion.
pub const BULK_DELETE_WINDOW_SECS: i64 = 1_209_600;

/// Why a command refused its arguments.
#[derive(Clone, Copy, Debug, PartialEq, Eq)]
pub enum CommandError {
    /// The cleaning delay is not between `MIN_DELAY` and `MAX_DELAY` minutes, both included.
    DelayOutOfRange,
}

/// Why a purge could not judge the age of its messages.
#[derive(Clone, Copy, Debug, PartialEq, Eq)]
pub enum PurgeFailure {
    /// A reading of the clock failed.
    ClockUnreadable(ClockError),
    /// Fourteen days before the clock's reading is earlier than any date-time chrono represents.
    WindowOutOfRange,
}

/// A write to the table of cleaned channels.
#[derive(Clone, Copy, Debug, PartialEq, Eq)]
pub enum ChannelWrite {
    /// Add a record for the channel, with the channel id and the delay as the table stores
    /// them (reinterpreted as signed).
    Insert { stored_channel: i64, delay: i64 },
    /// Set the stored delay of the record of `channel`.
    UpdateDelay { channel: u64, delay: i64 },
    /// Remove every record of `channel`; the schema removes its recorded messages with it.
    Delete { channel: u64 },
}

/// The reply a command sends to the channel it was invoked in.
#[derive(Clone, Copy, Debug, PartialEq, Eq)]
pub enum Reply {
    /// The channel was not cleaned and now is, after `delay` minutes.
    NowCleaning { delay: u64 },
    /// The channel was cleaned and its delay is now `delay` minutes.
    DelayUpdated { delay: u64 },
    /// The channel was cleaned and no longer is.
    Stopped,
    /// The channel was not cleaned; nothing changed.
    NotCleaned,
    /// `count` messages are about to be purged.
    Purging { count: u8 },
}

/// What a command does once it knows whether the channel is cleaned: the write (if
/// any), then the reply, then whether the cleaner is woken to reconsider its sleep.
#[derive(Clone, Copy, Debug, PartialEq, Eq)]
pub struct CommandPlan {
    pub write: Option<ChannelWrite>,
    pub reply: Reply,
    pub wake_cleaner: bool,
}

/// How a purge disposes of the messages it fetched: ids removed in one bulk request,
/// and ids removed one by one (too old for the bulk request), each in fetch order; and
/// the clock reading against which each fetched message was judged.
#[derive(Debug, PartialEq, Eq)]
pub struct PurgeSplit {
    pub bulk: Vec<u64>,
    pub single: Vec<u64>,
    pub judged_at: Vec<Reading>,
}

/// The instants of clock readings.
pub open spec fn instants(readings: Seq<Reading>) -> Seq<Stamp> {
    readings.map_values(|r: Reading| r.at())
}

/// The delay is one the cleaning command accepts.
pub open spec fn delay_accepted(delay: u64) -> bool {
    MIN_DELAY <= delay <= MAX_DELAY
}

/// The plan of the cleaning command for a channel that is or is not cleaned yet.
pub open spec fn spec_auto_clean(channel: u64, delay: u64, exists: bool) -> CommandPlan {
    if exists {
        CommandPlan {
            write: Some(ChannelWrite::UpdateDelay { channel, delay: delay as i64 }),
            reply: Reply::DelayUpdated { delay },
            wake_cleaner: true,
        }
    } else {
        CommandPlan {
            write: Some(ChannelWrite::Insert { stored_channel: channel as i64, delay: delay as i64 }),
            reply: Reply::NowCleaning { delay },
            wake_cleaner: true,
        }
    }
}

/// The plan of the command that stops cleaning a channel.
pub open spec fn spec_stop_auto_clean(channel: u64, exists: bool) -> CommandPlan {
    if exists {
        CommandPlan {
            write: Some(ChannelWrite::Delete { channel }),
            reply: Reply::Stopped,
            wake_cleaner: false,
        }
    } else {
        CommandPlan { write: None, reply: Reply::NotCleaned, wake_cleaner: false }
    }
}

/// The instant fourteen days before `now` can be formed (chrono's `checked_sub_days`
/// succeeds, so the purge does not panic on it).
pub open spec fn window_computable(now: Stamp) -> bool {
    now.valid() && now.secs - BULK_DELETE_WINDOW_SECS >= MIN_TIMESTAMP
}

/// A message sent at Unix second `sent` may be removed in bulk at instant `now`: it is
/// strictly newer than fourteen days before `now`, counted in whole seconds.
pub open spec fn spec_recent(sent: i64, now: Stamp) -> bool {
    sent > now.secs - BULK_DELETE_WINDOW_SECS
}

/// The ids, in order, of the `messages` (id and Unix second sent) whose age at their
/// reading matches `recent` (newer than fourteen days, or not), when the `i`-th is
/// judged at `nows[i]`.
pub open spec fn purge_part(messages: Seq<(u64, i64)>, nows: Seq<Stamp>, recent: bool) -> Seq<u64>
    decreases messages.len(),
{
    if messages.len() == 0 {
        Seq::empty()
    } else {
        let rest = purge_part(messages.drop_last(), nows.take(messages.len() - 1), recent);
        if spec_recent(messages.last().1, nows[messages.len() - 1]) == recent {
            rest.push(messages.last().0)
        } else {
            rest
        }
    }
}

/// The split of `messages` when the `i`-th is judged at `nows[i]`: the ids removed in
/// bulk, then those removed one by one.
pub open spec fn spec_purge_split(messages: Seq<(u64, i64)>, nows: Seq<Stamp>) -> (Seq<u64>, Seq<u64>) {
    (purge_part(messages, nows, true), purge_part(messages, nows, false))
}

/// `id` is the id of a message of `messages` that is (`recent`) or is not newer than
/// fourteen days at its reading.
pub open spec fn sent_with_age(messages: Seq<(u64, i64)>, nows: Seq<Stamp>, id: u64, recent: bool) -> bool {
    exists|i: int|
        0 <= i < messages.len() && spec_recent(messages[i].1, nows[i]) == recent && id == (
        #[trigger] messages[i]).0
}

/// `split` is the split of `messages` judged at the instants `nows`, all of which allow
/// forming the fourteen-day window.
pub open spec fn split_taken_at(messages: Seq<(u64, i64)>, nows: Seq<Stamp>, split: (Seq<u64>, Seq<u64>)) -> bool {
    &&& nows.len() == messages.len()
    &&& forall|i: int| 0 <= i < nows.len() ==> window_computable(#[trigger] nows[i])
    &&& split == spec_purge_split(messages, nows)
}

/// The text of a reply about the channel shown as `channel`.
pub open spec fn reply_text(r: Reply, channel: Seq<char>) -> Seq<char> {
    match r {
        Reply::NowCleaning { delay } => "Now cleaning messages in channel: "@ + channel + ", after a delay of "@
            + decimal(delay as nat) + " minute."@,
        Reply::DelayUpdated { delay } => "Updated delay for channel: "@ + channel + ", to "@ + decimal(
            delay as nat,
        ) + " minute."@,
        Reply::Stopped => "Stopped cleaning messages in channel: "@ + channel,
        Reply::NotCleaned => "No auto-clean setup for channel: "@ + channel,
        Reply::Purging { count } => "Purging "@ + decimal(count as nat) + " messages in channel: "@ + channel,
    }
}

/// The text with which a command refuses its arguments.
pub open spec fn error_text(e: CommandError) -> Seq<char> {
    match e {
        CommandError::DelayOutOfRange => "Delay must be between 1 and 1440 minutes (24 hours)."@,
    }
}

impl Reply {
    /// The reply's text, about the channel shown as `channel`.
    pub fn text(&self, channel: &str) -> (s: String)
        ensures
            s@ == reply_text(*self, channel@),
    {
        match *self {
            Reply::NowCleaning { delay } => {
                let mut s = String::from_str("Now cleaning messages in channel: ");
                s.append(channel);
                s.append(", after a delay of ");
                let d = decimal_text(delay);
                s.append(d.as_str());
                s.append(" minute.");
                s
            },
            Reply::DelayUpdated { delay } => {
                let mut s = String::from_str("Updated delay for channel: ");
                s.append(channel);
                s.append(", to ");
                let d = decimal_text(delay);
                s.append(d.as_str());
                s.append(" minute.");
                s
            },
            Reply::Stopped => {
                let mut s = String::from_str("Stopped cleaning messages in channel: ");
                s.append(channel);
                s
            },
            Reply::NotCleaned => {
                let mut s = String::from_str("No auto-clean setup for channel: ");
                s.append(channel);
                s
            },
            Reply::Purging { count } => {
                let mut s = String::from_str("Purging ");
                let d = decimal_text(count as u64);
                s.append(d.as_str());
                s.append(" messages in channel: ");
                s.append(channel);
                s
            },
        }
    }
}

impl CommandError {
    /// The text with which the command refuses its arguments.
    pub fn message(&self) -> (s: String)
        ensures
            s@ == error_text(*self),
    {
        match self {
            CommandError::DelayOutOfRange => String::from_str("Delay must be between 1 and 1440 minutes (24 hours)."),
        }
    }
}

/// Accepts a cleaning delay of at least one minute and at most a day.
pub fn check_delay(delay: u64) -> (r: Result<(), CommandError>)
    ensures
        r is Ok <==> delay_accepted(delay),
        r is Err ==> r == Err::<(), CommandError>(CommandError::DelayOutOfRange),
{
    if MIN_DELAY <= delay && delay <= MAX_DELAY {
        Ok(())
    } else {
        Err(CommandError::DelayOutOfRange)
    }
}

/// The cleaning command on a channel: update the delay of a channel already cleaned,
/// start cleaning one that is not, reply accordingly, and wake the cleaner.
pub fn plan_auto_clean(channel: u64, delay: u64, exists: bool) -> (plan: CommandPlan)
    ensures
        plan == spec_auto_clean(channel, delay, exists),
{
    if exists {
        CommandPlan {
            write: Some(ChannelWrite::UpdateDelay { channel, delay: delay as i64 }),
            reply: Reply::DelayUpdated { delay },
            wake_cleaner: true,
        }
    } else {
        CommandPlan {
            write: Some(ChannelWrite::Insert { stored_channel: channel as i64, delay: delay as i64 }),
            reply: Reply::NowCleaning { delay },
            wake_cleaner: true,
        }
    }
}

/// The command that stops cleaning a channel: remove its record if it has one, and say
/// which of the two it found.
pub fn plan_stop_auto_clean(channel: u64, exists: bool) -> (plan: CommandPlan)
    ensures
        plan == spec_stop_auto_clean(channel, exists),
{
    if exists {
        CommandPlan {
            write: Some(ChannelWrite::Delete { channel }),
            reply: Reply::Stopped,
            wake_cleaner: false,
        }
    } else {
        CommandPlan { write: None, reply: Reply::NotCleaned, wake_cleaner: false }
    }
}

/// The reply a purge sends before it starts.
pub fn purge_reply(count: u8) -> (r: Reply)
    ensures
        r == (Reply::Purging { count }),
{
    Reply::Purging { count }
}

/// How many messages a purge of `count` fetches: one more, for the message that
/// invoked it.
pub fn purge_fetch_limit(count: u8) -> (limit: u8)
    requires
        count < 255,
    ensures
        limit == count + 1,
{
    count + 1
}

/// Whether a message sent at Unix second `sent` may be removed in bulk at instant `now`.
pub fn is_recent(sent: i64, now: Stamp) -> (r: bool)
    requires
        window_computable(now),
    ensures
        r == spec_recent(sent, now),
{
    sent > now.secs - BULK_DELETE_WINDOW_SECS
}

/// Judges a message sent at Unix second `sent` against the reading `now`: whether it may
/// be removed in bulk, or a failure when fourteen days before `now` is earlier than any
/// date-time chrono represents.
pub fn judge_age(sent: i64, now: Stamp) -> (r: Result<bool, PurgeFailure>)
    requires
        now.valid(),
    ensures
        r is Err <==> !window_computable(now),
        r is Err ==> r == Err::<bool, PurgeFailure>(PurgeFailure::WindowOutOfRange),
        r matches Ok(b) ==> b == spec_recent(sent, now),
{
    if now.secs < MIN_TIMESTAMP + BULK_DELETE_WINDOW_SECS {
        Err(PurgeFailure::WindowOutOfRange)
    } else {
        Ok(is_recent(sent, now))
    }
}

/// Splits fetched messages (id and Unix second sent) into those removed in bulk and
/// those removed one by one, judging each against a fresh reading of the clock; a failure
/// as soon as a reading fails or lies within fourteen days of chrono's earliest date-time.
/// Without messages the clock is not read and both lists are empty.
pub fn purge_split(messages: &[(u64, i64)]) -> (r: Result<PurgeSplit, PurgeFailure>)
    ensures
        r matches Ok(split) ==> exists|nows: Seq<Stamp>| #[trigger] split_taken_at(
            messages@,
            nows,
            (split.bulk@, split.single@),
        ),
        r matches Ok(split) ==> split.judged_at@.len() == messages@.len() && split_taken_at(
            messages@,
            instants(split.judged_at@),
            (split.bulk@, split.single@),
        ),
        r is Err ==> messages@.len() > 0,
        messages@.len() == 0 ==> (r matches Ok(split) && split.bulk@.len() == 0 && split.single@.len() == 0),
{
    let mut bulk: Vec<u64> = Vec::new();
    let mut single: Vec<u64> = Vec::new();
    let mut judged_at: Vec<Reading> = Vec::new();
    let n = messages.len();
    for i in 0..n
        invariant
            n == messages@.len(),
            judged_at@.len() == i,
            forall|j: int| 0 <= j < i ==> window_computable(#[trigger] instants(judged_at@)[j]),
            (bulk@, single@) == spec_purge_split(messages@.take(i as int), instants(judged_at@)),
    {
        let reading = match read_clock() {
            Ok(reading) => reading,
            Err(e) => return Err(PurgeFailure::ClockUnreadable(e)),
        };
        let now = reading.instant();
        let (id, sent) = messages[i];
        let recent = match judge_age(sent, now) {
            Ok(recent) => recent,
            Err(e) => return Err(e),
        };
        let ghost before = instants(judged_at@);
        judged_at.push(reading);
        proof {
            assert(instants(judged_at@) =~= before.push(now));
            assert(messages@.take(i + 1).drop_last() == messages@.take(i as int));
            assert(instants(judged_at@).take(i as int) =~= before);
        }
        if recent {
            bulk.push(id);
        } else {
            single.push(id);
        }
    }
    assert(messages@.take(n as int) == messages@);
    let ghost nows = instants(judged_at@);
    let split = PurgeSplit { bulk, single, judged_at };
    let r: Result<PurgeSplit, PurgeFailure> = Ok(split);
    assert(split_taken_at(messages@, nows, (r->Ok_0.bulk@, r->Ok_0.single@)));
    r
}

/// Accepted delays are exactly one to 1440 minutes (a day), as the refusal says.
pub proof fn law_delay_range(delay: u64)
    ensures
        delay_accepted(delay) <==> 1 <= delay <= 1440,
{
}

/// The cleaning command never adds a second record for a channel already cleaned, always
/// writes the requested delay, and always wakes the cleaner.
pub proof fn law_auto_clean_upserts(channel: u64, delay: u64, exists: bool)
    ensures
        spec_auto_clean(channel, delay, exists).write matches Some(w) && (exists <==> w is UpdateDelay)
            && (!exists <==> w is Insert),
        spec_auto_clean(channel, delay, exists).write == Some(ChannelWrite::UpdateDelay { channel, delay: delay as i64 })
            || spec_auto_clean(channel, delay, exists).write == Some(
            ChannelWrite::Insert { stored_channel: channel as i64, delay: delay as i64 },
        ),
        spec_auto_clean(channel, delay, exists).wake_cleaner,
{
}

/// The cleaning command's reply tells the user what happened, for every channel id and
/// delay: "now cleaning" with the requested delay exactly when the channel was not cleaned
/// before, "delay updated" with the requested delay exactly when it was.
pub proof fn law_auto_clean_reply_matches_state(channel: u64, delay: u64, exists: bool)
    ensures
        spec_auto_clean(channel, delay, exists).reply == (Reply::NowCleaning { delay }) <==> !exists,
        spec_auto_clean(channel, delay, exists).reply == (Reply::DelayUpdated { delay }) <==> exists,
{
}

/// The stop command's reply tells the user what happened, for every channel id: "stopped"
/// exactly when the channel was cleaned (and is now removed), "no auto-clean" exactly when
/// it was not.
pub proof fn law_stop_reply_matches_state(channel: u64, exists: bool)
    ensures
        spec_stop_auto_clean(channel, exists).reply == Reply::Stopped <==> exists,
        spec_stop_auto_clean(channel, exists).reply == Reply::NotCleaned <==> !exists,
        exists <==> spec_stop_auto_clean(channel, exists).write == Some(ChannelWrite::Delete { channel }),
{
}

/// Stopping writes exactly when the channel is cleaned, and then removes that channel.
pub proof fn law_stop_removes_only_cleaned(channel: u64, exists: bool)
    ensures
        spec_stop_auto_clean(channel, exists).write is Some <==> exists,
        exists ==> spec_stop_auto_clean(channel, exists).write == Some(ChannelWrite::Delete { channel }),
{
}

proof fn lemma_purge_lengths(messages: Seq<(u64, i64)>, nows: Seq<Stamp>)
    requires
        nows.len() == messages.len(),
    ensures
        purge_part(messages, nows, true).len() + purge_part(messages, nows, false).len() == messages.len(),
    decreases messages.len(),
{
    if messages.len() > 0 {
        lemma_purge_lengths(messages.drop_last(), nows.take(messages.len() - 1));
    }
}

proof fn lemma_purge_part(messages: Seq<(u64, i64)>, nows: Seq<Stamp>, recent: bool)
    requires
        nows.len() == messages.len(),
    ensures
        forall|i: int|
            0 <= i < messages.len() && #[trigger] spec_recent(messages[i].1, nows[i]) == recent
                ==> purge_part(messages, nows, recent).contains(messages[i].0),
        forall|k: int|
            0 <= k < purge_part(messages, nows, recent).len() ==> sent_with_age(
                messages,
                nows,
                #[trigger] purge_part(messages, nows, recent)[k],
                recent,
            ),
    decreases messages.len(),
{
    if messages.len() > 0 {
        let last = messages.len() - 1;
        let ms = messages.drop_last();
        let ns = nows.take(last);
        lemma_purge_part(ms, ns, recent);
        let b = purge_part(ms, ns, recent);
        let b2 = purge_part(messages, nows, recent);
        let matches_age = spec_recent(messages[last].1, nows[last]) == recent;
        if matches_age {
            assert(b2 == b.push(messages[last].0));
        } else {
            assert(b2 == b);
        }
        assert forall|i: int|
            0 <= i < messages.len() && #[trigger] spec_recent(messages[i].1, nows[i]) == recent implies b2.contains(
            messages[i].0,
        ) by {
            if i < last {
                assert(ms[i] == messages[i] && ns[i] == nows[i]);
                assert(spec_recent(ms[i].1, ns[i]) == recent);
                assert(b.contains(ms[i].0));
                let k = choose|k: int| 0 <= k < b.len() && b[k] == ms[i].0;
                assert(b2[k] == b[k]);
            } else {
                assert(b2[b2.len() - 1] == messages[i].0);
            }
        }
        assert forall|k: int| 0 <= k < b2.len() implies sent_with_age(messages, nows, #[trigger] b2[k], recent) by {
            if k < b.len() {
                assert(sent_with_age(ms, ns, b[k], recent));
                let i = choose|i: int|
                    0 <= i < ms.len() && spec_recent(ms[i].1, ns[i]) == recent && b[k] == (#[trigger] ms[i]).0;
                assert(ms[i] == messages[i] && ns[i] == nows[i]);
                assert(b2[k] == messages[i].0);
            } else {
                assert(matches_age);
                assert(b2[k] == messages[last].0);
            }
        }
    } else {
        assert(purge_part(messages, nows, recent).len() == 0);
    }
}

/// A purge disposes of every fetched message exactly once: the two lists together are as
/// long as the fetch, every fetched message lands in the bulk list when it is newer than
/// fourteen days at its reading and in the other list otherwise, and each listed id is
/// that of a fetched message of the matching age.
pub proof fn law_purge_partitions(messages: Seq<(u64, i64)>, nows: Seq<Stamp>)
    requires
        nows.len() == messages.len(),
    ensures
        spec_purge_split(messages, nows).0.len() + spec_purge_split(messages, nows).1.len() == messages.len(),
        forall|i: int|
            0 <= i < messages.len() && #[trigger] spec_recent(messages[i].1, nows[i])
                ==> spec_purge_split(messages, nows).0.contains(messages[i].0),
        forall|i: int|
            0 <= i < messages.len() && !#[trigger] spec_recent(messages[i].1, nows[i])
                ==> spec_purge_split(messages, nows).1.contains(messages[i].0),
        forall|k: int|
            0 <= k < spec_purge_split(messages, nows).0.len() ==> sent_with_age(
                messages,
                nows,
                #[trigger] spec_purge_split(messages, nows).0[k],
                true,
            ),
        forall|k: int|
            0 <= k < spec_purge_split(messages, nows).1.len() ==> sent_with_age(
                messages,
                nows,
                #[trigger] spec_purge_split(messages, nows).1[k],
                false,
            ),
{
    lemma_purge_lengths(messages, nows);
    lemma_purge_part(messages, nows, true);
    lemma_purge_part(messages, nows, false);
}

} // verus!
