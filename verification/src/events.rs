//! How the bot reacts to what the chat service reports: it starts the cleaner
//! once it is logged in, and records each new message of a cleaned channel.

use vstd::prelude::*;
use crate::clock::{Stamp, ClockError, clock_now};
use crate::commands::{delay_accepted, spec_auto_clean, ChannelWrite};
use crate::schedule::{row_ids, rows_computable, scheduled_rows, spec_due, waits_taken_at, law_due_exactly_after_delay, Wait, WaitRow};

verus! {

/// What the chat service reports, as far as the bot cares.
#[derive(Clone, Copy, Debug, PartialEq, Eq)]
pub enum BotEvent {
    /// The bot is logged in (reported again after each reconnection).
    Ready,
    /// A message was posted.
    Message { channel: u64, message: u64 },
    /// Anything else.
    Other,
}

/// The bot's reaction to one report: whether to start the cleaner, which message to
/// offer for recording (the store records it only when its channel is cleaned; once the
/// store has answered without error the cleaner is woken, whether or not a row was
/// written), and whether the cleaner has been started from now on.
#[derive(Clone, Copy, Debug, PartialEq, Eq)]
pub struct EventPlan {
    pub start_cleaner: bool,
    pub record: Option<(u64, u64)>,
    pub started: bool,
}

/// A row of the table of cleaned channels: its key, the channel id and the delay in
/// minutes as stored.
#[derive(Clone, Copy, Debug, PartialEq, Eq)]
pub struct ChannelRecord {
    pub id: u128,
    pub channel: i64,
    pub delay: i64,
}

/// A message row to insert: the key of its channel's row, the message id as stored, and
/// when it was recorded.
#[derive(Clone, Copy, Debug, PartialEq, Eq)]
pub struct NewMessage {
    pub channel: u128,
    pub message: i64,
    pub created_at: Stamp,
}

/// The reaction to `event` when the cleaner has (`started`) or has not been started.
pub open spec fn spec_plan_event(event: BotEvent, started: bool) -> EventPlan {
    match event {
        BotEvent::Ready => EventPlan { start_cleaner: !started, record: None, started: true },
        BotEvent::Message { channel, message } => EventPlan {
            start_cleaner: false,
            record: Some((channel, message)),
            started,
        },
        BotEvent::Other => EventPlan { start_cleaner: false, record: None, started },
    }
}

/// How many times the cleaner is started over a sequence of reports.
pub open spec fn starts(events: Seq<BotEvent>, started: bool) -> nat
    decreases events.len(),
{
    if events.len() == 0 {
        0
    } else {
        let plan = spec_plan_event(events[0], started);
        (if plan.start_cleaner { 1nat } else { 0nat }) + starts(events.drop_first(), plan.started)
    }
}

/// Reacts to one report of the chat service.
pub fn plan_event(event: BotEvent, started: bool) -> (plan: EventPlan)
    ensures
        plan == spec_plan_event(event, started),
{
    match event {
        BotEvent::Ready => EventPlan { start_cleaner: !started, record: None, started: true },
        BotEvent::Message { channel, message } => EventPlan {
            start_cleaner: false,
            record: Some((channel, message)),
            started,
        },
        BotEvent::Other => EventPlan { start_cleaner: false, record: None, started },
    }
}

/// The row that records `message` posted in the channel whose stored row is `channel`,
/// stamped with the current time; nothing, without reading the clock, when the channel is
/// not cleaned; an error when the clock cannot be read.
pub fn add_message(channel: Option<ChannelRecord>, message: u64) -> (r: Result<Option<NewMessage>, ClockError>)
    ensures
        channel is None ==> r == Ok::<Option<NewMessage>, ClockError>(None),
        channel is Some ==> match r {
            Ok(Some(row)) => {
                &&& row.channel == channel->0.id
                &&& row.message == message as i64
                &&& row.created_at.valid()
            },
            Ok(None) => false,
            Err(e) => e is Unreadable,
        },
{
    match channel {
        Some(c) => {
            match clock_now() {
                Ok(now) => Ok(Some(NewMessage { channel: c.id, message: message as i64, created_at: now })),
                Err(e) => Err(e),
            }
        },
        None => Ok(None),
    }
}

/// The cleaner is started at most once, on the first login report: never again once
/// started, and only logins start it.
pub proof fn law_cleaner_started_once(events: Seq<BotEvent>, started: bool)
    ensures
        started ==> starts(events, started) == 0,
        starts(events, started) <= 1,
        starts(events, started) == 1 ==> !started && events.contains(BotEvent::Ready),
    decreases events.len(),
{
    if events.len() > 0 {
        let plan = spec_plan_event(events[0], started);
        law_cleaner_started_once(events.drop_first(), plan.started);
        if plan.start_cleaner {
            assert(plan.started);
            assert(events[0] == BotEvent::Ready);
        } else if starts(events, started) == 1 {
            let rest = events.drop_first();
            assert(rest.contains(BotEvent::Ready));
            let k = choose|k: int| 0 <= k < rest.len() && rest[k] == BotEvent::Ready;
            assert(events[k + 1] == BotEvent::Ready);
        }
    }
}

/// Every posted message is offered for recording, and nothing else is.
pub proof fn law_messages_recorded(event: BotEvent, started: bool)
    ensures
        spec_plan_event(event, started).record is Some <==> event is Message,
        event matches BotEvent::Message { channel, message } ==> spec_plan_event(event, started).record
            == Some((channel, message)),
{
}

/// An id stored in the tables as a signed key and read back as unsigned is the same id.
pub proof fn law_stored_ids_round_trip(id: u64)
    ensures
        #[verifier::truncate] ((#[verifier::truncate] (id as i64)) as u64) == id,
{
    assert(((id as i64) as u64) == id) by (bit_vector);
}

/// A message posted in a cleaned channel, recorded as `recorded` and handed back by the
/// store among `rows`, is in the list of messages the cleaner removes, under its own
/// message id and channel id, exactly once the channel's delay (any positive delay) has
/// elapsed since it was recorded; provided no other row carries the same message key.
pub proof fn law_recorded_message_removed_when_due(
    channel_id: u64,
    channel: ChannelRecord,
    message: u64,
    recorded: NewMessage,
    rows: Seq<WaitRow>,
    nows: Seq<Stamp>,
    waits: Seq<Wait>,
    j: int,
)
    requires
        channel.channel == channel_id as i64,
        channel.delay > 0,
        recorded.message == message as i64,
        recorded.channel == channel.id,
        rows_computable(rows),
        waits_taken_at(rows, nows, waits),
        0 <= j < rows.len(),
        rows[j] == (WaitRow {
            created_at: recorded.created_at,
            delay: channel.delay,
            message: recorded.message,
            channel: channel.channel,
        }),
        forall|i: int| 0 <= i < rows.len() && #[trigger] rows[i].message == recorded.message ==> i == j,
    ensures
        exists|k: int|
            0 <= k < waits.len() && #[trigger] scheduled_rows(rows)[k] == rows[j] && (spec_due(waits).contains(
                (message, channel_id),
            ) <==> nows[k].total_nanos() >= recorded.created_at.total_nanos() + channel.delay
                * 60_000_000_000),
{
    law_stored_ids_round_trip(message);
    law_stored_ids_round_trip(channel_id);
    assert(row_ids(rows[j]) == (message, channel_id));
    law_due_exactly_after_delay(rows, nows, waits, j);
}

/// The cleaning command stores a new channel under the key and delay that the law above
/// reads back: the channel id as a signed key, and the accepted delay, which is positive.
pub proof fn law_cleaning_stores_readable_channel(channel_id: u64, delay: u64)
    requires
        delay_accepted(delay),
    ensures
        spec_auto_clean(channel_id, delay, false).write == Some(
            ChannelWrite::Insert { stored_channel: channel_id as i64, delay: delay as i64 },
        ),
        delay as i64 > 0,
        #[verifier::truncate] ((#[verifier::truncate] (channel_id as i64)) as u64) == channel_id,
{
    law_stored_ids_round_trip(channel_id);
}

} // verus!
