//! When recorded messages fall due, how long the cleaner sleeps, and which
//! messages it removes.
//!
//! A message recorded at `created_at` in a channel whose delay is `d` minutes
//! falls due at `created_at + d` minutes. Channels whose delay is not positive
//! are never cleaned.

use vstd::prelude::*;
use crate::clock::{Stamp, ClockError, clock_now, NANOS_PER_SEC, MIN_TIMESTAMP, MAX_TIMESTAMP, MAX_DELTA_SECS};

verus! {

/// Nanoseconds in a minute.
pub const NANOS_PER_MINUTE: i128 = 60_000_000_000;

/// Seconds the cleaner sleeps when nothing at all is recorded: the whole seconds of
/// chrono's largest `TimeDelta`.
pub const MAX_WAIT_SECS: u64 = 9_223_372_036_854_775;

/// Largest magnitude, in nanoseconds, of a chrono `TimeDelta` (`i64::MAX` milliseconds).
pub const MAX_DELTA_NANOS: i128 = 9_223_372_036_854_775_807_000_000;

/// A recorded message joined with its channel: when it was recorded, the channel's
/// delay in minutes, and the raw message and channel keys as the tables store them.
#[derive(Clone, Copy, Debug, PartialEq, Eq)]
pub struct WaitRow {
    pub created_at: Stamp,
    pub delay: i64,
    pub message: i64,
    pub channel: i64,
}

/// How far a recorded message is from falling due: `delta` nanoseconds
/// (zero or negative once it is due).
#[derive(Clone, Copy, Debug, PartialEq, Eq)]
pub struct Wait {
    pub delta: i128,
    pub message: i64,
    pub channel: i64,
}

impl WaitRow {
    /// The channel of this row is cleaned at all.
    pub open spec fn scheduled(self) -> bool {
        self.delay > 0
    }

    /// Instant, in nanoseconds since the epoch, at which the message falls due.
    pub open spec fn deadline(self) -> int {
        self.created_at.total_nanos() + self.delay * 60_000_000_000
    }

    /// The due instant can be computed the way chrono computes it without panicking:
    /// the delay in seconds fits a `TimeDelta`, and the sum stays in the date-time range.
    pub open spec fn computable(self) -> bool {
        &&& self.created_at.valid()
        &&& self.delay * 60 <= MAX_DELTA_SECS
        &&& self.deadline() < MAX_TIMESTAMP * 1_000_000_000 + 1_000_000_000
    }
}

impl Wait {
    /// The distance fits a chrono `TimeDelta`.
    pub open spec fn valid(self) -> bool {
        -MAX_DELTA_NANOS <= self.delta <= MAX_DELTA_NANOS
    }
}

/// The wait of `row` as seen at instant `now`.
pub open spec fn spec_wait(row: WaitRow, now: Stamp) -> Wait {
    Wait {
        delta: (row.deadline() - now.total_nanos()) as i128,
        message: row.message,
        channel: row.channel,
    }
}

/// `waits` are the waits of the cleaned rows of `rows`, in order, the `i`-th taken at
/// the valid instant `nows[i]`.
pub open spec fn waits_taken_at(rows: Seq<WaitRow>, nows: Seq<Stamp>, waits: Seq<Wait>) -> bool {
    &&& nows.len() == waits.len()
    &&& waits.len() == scheduled_rows(rows).len()
    &&& forall|i: int| 0 <= i < nows.len() ==> (#[trigger] nows[i]).valid()
    &&& forall|i: int|
        0 <= i < waits.len() ==> #[trigger] waits[i] == spec_wait(scheduled_rows(rows)[i], nows[i])
}

/// The rows whose channel is cleaned, in order.
pub open spec fn scheduled_rows(rows: Seq<WaitRow>) -> Seq<WaitRow>
    decreases rows.len(),
{
    if rows.len() == 0 {
        Seq::empty()
    } else {
        let rest = scheduled_rows(rows.drop_last());
        if rows.last().scheduled() {
            rest.push(rows.last())
        } else {
            rest
        }
    }
}

/// Every row that the cleaner schedules can be computed on.
pub open spec fn rows_computable(rows: Seq<WaitRow>) -> bool {
    forall|i: int| 0 <= i < rows.len() && #[trigger] rows[i].scheduled() ==> rows[i].computable()
}

/// The smallest distance among non-empty `waits`.
pub open spec fn min_delta(waits: Seq<Wait>) -> int
    recommends
        waits.len() > 0,
    decreases waits.len(),
{
    if waits.len() <= 1 {
        waits[0].delta as int
    } else {
        let m = min_delta(waits.drop_last());
        if waits.last().delta < m {
            waits.last().delta as int
        } else {
            m
        }
    }
}

/// Seconds to sleep before the next message falls due: the whole seconds of the
/// smallest distance, none if a message is already due, and the largest wait if
/// nothing is recorded.
pub open spec fn spec_next_wait(waits: Seq<Wait>) -> int {
    if waits.len() == 0 {
        MAX_WAIT_SECS as int
    } else if min_delta(waits) <= 0 {
        0
    } else {
        min_delta(waits) / 1_000_000_000
    }
}

/// The message and channel ids of a wait as the chat service numbers them: the stored
/// keys reinterpreted as unsigned.
pub open spec fn ids(w: Wait) -> (u64, u64) {
    (#[verifier::truncate] (w.message as u64), #[verifier::truncate] (w.channel as u64))
}

/// `x` is the ids of some due wait of `waits`.
pub open spec fn from_due_wait(waits: Seq<Wait>, x: (u64, u64)) -> bool {
    exists|i: int| 0 <= i < waits.len() && waits[i].delta <= 0 && x == ids(#[trigger] waits[i])
}

/// The message and channel ids of the waits that are due, in order.
pub open spec fn spec_due(waits: Seq<Wait>) -> Seq<(u64, u64)>
    decreases waits.len(),
{
    if waits.len() == 0 {
        Seq::empty()
    } else {
        let rest = spec_due(waits.drop_last());
        let w = waits.last();
        if w.delta <= 0 {
            rest.push(ids(w))
        } else {
            rest
        }
    }
}

/// How far the message of `row` is from falling due at instant `now`
/// (`created_at + delay minutes - now`).
pub fn wait_time(row: &WaitRow, now: Stamp) -> (w: Wait)
    requires
        row.scheduled(),
        row.computable(),
        now.valid(),
    ensures
        w == spec_wait(*row, now),
        w.valid(),
{
    let created = row.created_at.nanos_since_epoch();
    let current = now.nanos_since_epoch();
    let delay = row.delay as i128;
    let deadline = created + delay * NANOS_PER_MINUTE;
    Wait { delta: deadline - current, message: row.message, channel: row.channel }
}

/// Whether the cleaner can compute the due instant of `row` (rows whose channel is not
/// cleaned are never computed on); the rows of `wait_times` must all pass.
pub fn row_computable(row: &WaitRow) -> (ok: bool)
    ensures
        ok == (row.scheduled() ==> row.computable()),
{
    if row.delay <= 0 {
        return true;
    }
    let s = row.created_at.secs;
    if !(MIN_TIMESTAMP <= s && s <= MAX_TIMESTAMP && row.created_at.nanos < 1_000_000_000) {
        return false;
    }
    if row.delay > MAX_DELTA_SECS / 60 {
        return false;
    }
    let created = row.created_at.nanos_since_epoch();
    let deadline = created + (row.delay as i128) * NANOS_PER_MINUTE;
    deadline < (MAX_TIMESTAMP as i128) * NANOS_PER_SEC + NANOS_PER_SEC
}

/// The waits of the rows whose channel is cleaned, in order, each taken against a
/// fresh reading of the clock; an error as soon as a reading fails. Without any cleaned row
/// the clock is not read and the list is empty.
pub fn wait_times(rows: &[WaitRow]) -> (r: Result<Vec<Wait>, ClockError>)
    requires
        rows_computable(rows@),
    ensures
        r matches Ok(waits) ==> {
            &&& exists|nows: Seq<Stamp>| #[trigger] waits_taken_at(rows@, nows, waits@)
            &&& forall|i: int| 0 <= i < waits@.len() ==> (#[trigger] waits@[i]).valid()
        },
        r is Err ==> r->Err_0 is Unreadable,
        r is Err ==> scheduled_rows(rows@).len() > 0,
        scheduled_rows(rows@).len() == 0 ==> (r matches Ok(waits) && waits@.len() == 0),
{
    let mut waits: Vec<Wait> = Vec::new();
    let ghost mut nows: Seq<Stamp> = Seq::empty();
    let n = rows.len();
    for i in 0..n
        invariant
            n == rows@.len(),
            rows_computable(rows@),
            waits@.len() == nows.len(),
            waits@.len() == scheduled_rows(rows@.take(i as int)).len(),
            forall|j: int| 0 <= j < nows.len() ==> (#[trigger] nows[j]).valid(),
            forall|j: int|
                0 <= j < waits@.len() ==> #[trigger] waits@[j] == spec_wait(
                    scheduled_rows(rows@.take(i as int))[j],
                    nows[j],
                ),
            forall|j: int| 0 <= j < waits@.len() ==> (#[trigger] waits@[j]).valid(),
    {
        assert(rows@.take(i + 1).drop_last() == rows@.take(i as int));
        let row = &rows[i];
        if row.delay > 0 {
            assert(rows@[i as int].scheduled());
            let now = match clock_now() {
                Ok(now) => now,
                Err(e) => {
                    proof {
                        law_only_positive_delays_scheduled(rows@);
                        assert(scheduled_rows(rows@).contains(rows@[i as int]));
                    }
                    return Err(e);
                },
            };
            let w = wait_time(row, now);
            waits.push(w);
            proof {
                nows = nows.push(now);
            }
        }
    }
    assert(rows@.take(n as int) == rows@);
    let r: Result<Vec<Wait>, ClockError> = Ok(waits);
    assert(waits_taken_at(rows@, nows, r->Ok_0@));
    r
}

/// Seconds the cleaner sleeps before it looks for due messages.
pub fn next_wait_time(waits: &[Wait]) -> (secs: u64)
    requires
        forall|i: int| 0 <= i < waits@.len() ==> (#[trigger] waits@[i]).valid(),
    ensures
        secs == spec_next_wait(waits@),
{
    let n = waits.len();
    if n == 0 {
        return MAX_WAIT_SECS;
    }
    let mut best: i128 = waits[0].delta;
    assert(waits@.take(1).drop_last().len() == 0);
    for i in 1..n
        invariant
            n == waits@.len(),
            n > 0,
            best == min_delta(waits@.take(i as int)),
            -MAX_DELTA_NANOS <= best <= MAX_DELTA_NANOS,
            forall|j: int| 0 <= j < waits@.len() ==> (#[trigger] waits@[j]).valid(),
    {
        assert(waits@.take(i + 1).drop_last() == waits@.take(i as int));
        if waits[i].delta < best {
            best = waits[i].delta;
        }
    }
    assert(waits@.take(n as int) == waits@);
    if best <= 0 {
        0
    } else {
        (best / NANOS_PER_SEC) as u64
    }
}

/// Message and channel ids of the due waits, in order, as the chat service numbers
/// them (the stored keys reinterpreted as unsigned).
pub fn get_to_delete_messages(waits: &[Wait]) -> (due: Vec<(u64, u64)>)
    ensures
        due@ == spec_due(waits@),
{
    let mut due: Vec<(u64, u64)> = Vec::new();
    let n = waits.len();
    for i in 0..n
        invariant
            n == waits@.len(),
            due@ == spec_due(waits@.take(i as int)),
    {
        assert(waits@.take(i + 1).drop_last() == waits@.take(i as int));
        let w = waits[i];
        if w.delta <= 0 {
            due.push((w.message as u64, w.channel as u64));
        }
    }
    assert(waits@.take(n as int) == waits@);
    due
}

/// The stored keys of the given messages, in order, as the messages table holds them
/// (the ids reinterpreted as signed).
pub fn delete_messages(messages: &[(u64, u64)]) -> (keys: Vec<i64>)
    ensures
        keys@.len() == messages@.len(),
        forall|i: int| 0 <= i < keys@.len() ==> #[trigger] keys@[i] == messages@[i].0 as i64,
{
    let mut keys: Vec<i64> = Vec::new();
    let n = messages.len();
    for i in 0..n
        invariant
            n == messages@.len(),
            keys@.len() == i,
            forall|j: int| 0 <= j < i ==> #[trigger] keys@[j] == messages@[j].0 as i64,
    {
        keys.push(messages[i].0 as i64);
    }
    keys
}

/// The smallest distance is no larger than any distance, and is one of them.
proof fn lemma_min_delta_bounds(waits: Seq<Wait>)
    requires
        waits.len() > 0,
    ensures
        forall|i: int| 0 <= i < waits.len() ==> min_delta(waits) <= #[trigger] waits[i].delta,
        exists|i: int| 0 <= i < waits.len() && min_delta(waits) == #[trigger] waits[i].delta,
    decreases waits.len(),
{
    if waits.len() > 1 {
        let init = waits.drop_last();
        lemma_min_delta_bounds(init);
        assert forall|i: int| 0 <= i < waits.len() implies min_delta(waits) <= #[trigger] waits[i].delta by {
            if i < waits.len() - 1 {
                assert(waits[i] == init[i]);
            }
        }
        if waits.last().delta < min_delta(init) {
            assert(min_delta(waits) == waits[waits.len() - 1].delta);
        } else {
            let j = choose|j: int| 0 <= j < init.len() && min_delta(init) == #[trigger] init[j].delta;
            assert(min_delta(waits) == waits[j].delta);
        }
    } else {
        assert(min_delta(waits) == waits[0].delta);
    }
}

/// Each due entry comes from a due wait, and every due wait gives an entry.
proof fn lemma_due_members(waits: Seq<Wait>)
    ensures
        forall|k: int| 0 <= k < spec_due(waits).len() ==> from_due_wait(waits, #[trigger] spec_due(waits)[k]),
        forall|i: int|
            0 <= i < waits.len() && #[trigger] waits[i].delta <= 0 ==> spec_due(waits).contains(ids(waits[i])),
    decreases waits.len(),
{
    if waits.len() > 0 {
        let init = waits.drop_last();
        lemma_due_members(init);
        let rest = spec_due(init);
        let last = waits.len() - 1;
        if waits[last].delta <= 0 {
            assert(spec_due(waits) == rest.push(ids(waits[last])));
        } else {
            assert(spec_due(waits) == rest);
        }
        assert forall|k: int| 0 <= k < spec_due(waits).len() implies from_due_wait(waits, #[trigger] spec_due(waits)[k]) by {
            if k < rest.len() {
                assert(from_due_wait(init, spec_due(init)[k]));
                let i = choose|i: int|
                    0 <= i < init.len() && init[i].delta <= 0 && spec_due(init)[k] == ids(#[trigger] init[i]);
                assert(spec_due(waits)[k] == rest[k]);
                assert(waits[i] == init[i]);
                assert(spec_due(waits)[k] == ids(waits[i]));
            } else {
                assert(waits[last].delta <= 0);
                assert(spec_due(waits)[k] == ids(waits[last]));
            }
        }
        assert forall|i: int| 0 <= i < waits.len() && #[trigger] waits[i].delta <= 0 implies spec_due(waits).contains(ids(waits[i])) by {
            if i < last {
                assert(init[i] == waits[i]);
                let k = choose|k: int| 0 <= k < rest.len() && rest[k] == ids(init[i]);
                assert(spec_due(waits)[k] == rest[k]);
            } else {
                assert(spec_due(waits)[spec_due(waits).len() - 1] == ids(waits[i]));
            }
        }
    } else {
        assert(spec_due(waits).len() == 0);
    }
}

/// A message falls due exactly when the clock has reached its recording instant plus
/// its channel's delay.
pub proof fn law_due_once_delay_elapsed(row: WaitRow, now: Stamp)
    ensures
        spec_wait(row, now).delta <= 0 <==> now.total_nanos() >= row.created_at.total_nanos()
            + row.delay * 60_000_000_000,
{
}

/// Messages of channels whose delay is not positive are never scheduled, and every
/// message of a channel with a positive delay is, in the order recorded.
pub proof fn law_only_positive_delays_scheduled(rows: Seq<WaitRow>)
    ensures
        forall|k: int| 0 <= k < scheduled_rows(rows).len() ==> (#[trigger] scheduled_rows(rows)[k]).delay > 0,
        forall|k: int| 0 <= k < scheduled_rows(rows).len() ==> rows.contains(#[trigger] scheduled_rows(rows)[k]),
        forall|i: int| 0 <= i < rows.len() && #[trigger] rows[i].delay > 0 ==> scheduled_rows(rows).contains(rows[i]),
    decreases rows.len(),
{
    if rows.len() > 0 {
        let init = rows.drop_last();
        law_only_positive_delays_scheduled(init);
        let rest = scheduled_rows(init);
        let last = rows.len() - 1;
        assert forall|k: int| 0 <= k < scheduled_rows(rows).len() implies rows.contains(#[trigger] scheduled_rows(rows)[k]) by {
            if k < rest.len() {
                let j = choose|j: int| 0 <= j < init.len() && init[j] == rest[k];
                assert(rows[j] == init[j]);
            } else {
                assert(rows[last] == scheduled_rows(rows)[k]);
            }
        }
        assert forall|i: int| 0 <= i < rows.len() && #[trigger] rows[i].delay > 0 implies scheduled_rows(rows).contains(rows[i]) by {
            if i < last {
                assert(init[i] == rows[i]);
                let k = choose|k: int| 0 <= k < rest.len() && rest[k] == init[i];
                assert(scheduled_rows(rows)[k] == rest[k]);
            } else {
                assert(scheduled_rows(rows)[scheduled_rows(rows).len() - 1] == rows[i]);
            }
        }
    }
}

/// The cleaner never sleeps past a deadline: the sleep, in nanoseconds, is at most the
/// distance of every message not yet due, and is zero when any message is due.
pub proof fn law_next_wait_never_oversleeps(waits: Seq<Wait>)
    requires
        forall|i: int| 0 <= i < waits.len() ==> (#[trigger] waits[i]).valid(),
    ensures
        forall|i: int|
            0 <= i < waits.len() && 0 < #[trigger] waits[i].delta ==> spec_next_wait(waits)
                * 1_000_000_000 <= waits[i].delta,
        forall|i: int| 0 <= i < waits.len() && #[trigger] waits[i].delta <= 0 ==> spec_next_wait(waits) == 0,
        0 <= spec_next_wait(waits) <= MAX_WAIT_SECS,
{
    if waits.len() > 0 {
        lemma_min_delta_bounds(waits);
        let m = min_delta(waits);
        assert(m <= MAX_DELTA_NANOS);
        if m > 0 {
            assert((m / 1_000_000_000) * 1_000_000_000 <= m) by (nonlinear_arith)
                requires m > 0;
            assert(m / 1_000_000_000 <= MAX_WAIT_SECS) by (nonlinear_arith)
                requires m <= MAX_DELTA_NANOS, m > 0;
        }
    }
}

/// The sleep is as long as it can be: when something is recorded, some message falls due
/// less than a second after the sleep ends, so the sleep in seconds is the smallest distance
/// rounded down to whole seconds (zero when a message is already due); and it never runs
/// past a deadline.
pub proof fn law_next_wait_is_tight(waits: Seq<Wait>)
    requires
        forall|i: int| 0 <= i < waits.len() ==> (#[trigger] waits[i]).valid(),
    ensures
        waits.len() > 0 ==> exists|i: int|
            0 <= i < waits.len() && (#[trigger] waits[i]).delta < spec_next_wait(waits) * 1_000_000_000
                + 1_000_000_000,
        forall|i: int|
            0 <= i < waits.len() && 0 < #[trigger] waits[i].delta ==> spec_next_wait(waits)
                * 1_000_000_000 <= waits[i].delta,
{
    law_next_wait_never_oversleeps(waits);
    if waits.len() > 0 {
        lemma_min_delta_bounds(waits);
        let m = min_delta(waits);
        let j = choose|j: int| 0 <= j < waits.len() && m == #[trigger] waits[j].delta;
        if m > 0 {
            assert(m < (m / 1_000_000_000) * 1_000_000_000 + 1_000_000_000) by (nonlinear_arith)
                requires m > 0;
        }
        assert(waits[j].delta < spec_next_wait(waits) * 1_000_000_000 + 1_000_000_000);
    }
}

/// The cleaner sleeps zero seconds exactly when some message is less than a second from
/// falling due; with nothing recorded it sleeps the largest wait.
pub proof fn law_next_wait_zero_iff_imminent(waits: Seq<Wait>)
    requires
        forall|i: int| 0 <= i < waits.len() ==> (#[trigger] waits[i]).valid(),
    ensures
        waits.len() == 0 ==> spec_next_wait(waits) == MAX_WAIT_SECS,
        waits.len() > 0 ==> (spec_next_wait(waits) == 0 <==> exists|i: int|
            0 <= i < waits.len() && #[trigger] waits[i].delta < 1_000_000_000),
{
    if waits.len() > 0 {
        lemma_min_delta_bounds(waits);
        let m = min_delta(waits);
        if m > 0 && m / 1_000_000_000 == 0 {
            let j = choose|j: int| 0 <= j < waits.len() && m == #[trigger] waits[j].delta;
            assert(waits[j].delta < 1_000_000_000);
        }
        if exists|i: int| 0 <= i < waits.len() && #[trigger] waits[i].delta < 1_000_000_000 {
            let i = choose|i: int| 0 <= i < waits.len() && #[trigger] waits[i].delta < 1_000_000_000;
            assert(m <= waits[i].delta);
        }
        if m <= 0 {
            let j = choose|j: int| 0 <= j < waits.len() && m == #[trigger] waits[j].delta;
            assert(waits[j].delta < 1_000_000_000);
        }
    }
}

/// The messages removed are exactly the due ones: each removed message comes from a wait
/// that is due, every due wait is removed, and whenever something is removed the cleaner
/// would not have slept.
pub proof fn law_removes_exactly_due(waits: Seq<Wait>)
    requires
        forall|i: int| 0 <= i < waits.len() ==> (#[trigger] waits[i]).valid(),
    ensures
        forall|k: int| 0 <= k < spec_due(waits).len() ==> from_due_wait(waits, #[trigger] spec_due(waits)[k]),
        forall|i: int|
            0 <= i < waits.len() && #[trigger] waits[i].delta <= 0 ==> spec_due(waits).contains(ids(waits[i])),
        spec_due(waits).len() > 0 ==> spec_next_wait(waits) == 0,
{
    lemma_due_members(waits);
    law_next_wait_never_oversleeps(waits);
    if spec_due(waits).len() > 0 {
        assert(from_due_wait(waits, spec_due(waits)[0]));
        let i = choose|i: int|
            0 <= i < waits.len() && waits[i].delta <= 0 && spec_due(waits)[0] == ids(#[trigger] waits[i]);
        assert(waits[i].delta <= 0);
    }
}

/// The ids under which the message of `row` is removed.
pub open spec fn row_ids(row: WaitRow) -> (u64, u64) {
    (#[verifier::truncate] (row.message as u64), #[verifier::truncate] (row.channel as u64))
}

/// Stored keys that read back as the same unsigned id are the same key.
proof fn lemma_key_cast_injective(a: i64, b: i64)
    ensures
        (#[verifier::truncate] (a as u64)) == (#[verifier::truncate] (b as u64)) ==> a == b,
{
    assert((a as u64) == (b as u64) ==> a == b) by (bit_vector);
}

/// The distance of a row whose due instant can be computed, seen at a valid instant, is
/// exactly its due instant minus that instant.
proof fn lemma_wait_exact(row: WaitRow, now: Stamp)
    requires
        row.scheduled(),
        row.computable(),
        now.valid(),
    ensures
        spec_wait(row, now).delta == row.deadline() - now.total_nanos(),
        spec_wait(row, now).valid(),
{
}

/// Between two readings of the clock, a row's distance shrinks by exactly the time that
/// elapsed between them, and it still names the same message.
pub proof fn law_wait_shrinks_by_elapsed(row: WaitRow, earlier: Stamp, later: Stamp)
    requires
        row.scheduled(),
        row.computable(),
        earlier.valid(),
        later.valid(),
    ensures
        spec_wait(row, later).delta == spec_wait(row, earlier).delta - (later.total_nanos()
            - earlier.total_nanos()),
        ids(spec_wait(row, later)) == ids(spec_wait(row, earlier)),
        ids(spec_wait(row, later)) == row_ids(row),
{
    lemma_wait_exact(row, earlier);
    lemma_wait_exact(row, later);
}

/// Two lists of waits computed from the same rows: position by position, each distance
/// of the second shrank by exactly the time between the two readings, and the messages
/// are the same, in the same order.
pub proof fn law_waits_shrink_by_elapsed(
    rows: Seq<WaitRow>,
    nows1: Seq<Stamp>,
    waits1: Seq<Wait>,
    nows2: Seq<Stamp>,
    waits2: Seq<Wait>,
)
    requires
        rows_computable(rows),
        waits_taken_at(rows, nows1, waits1),
        waits_taken_at(rows, nows2, waits2),
    ensures
        waits1.len() == waits2.len(),
        forall|i: int|
            0 <= i < waits2.len() ==> (#[trigger] waits2[i]).delta == waits1[i].delta - (
            nows2[i].total_nanos() - nows1[i].total_nanos()),
        forall|i: int| 0 <= i < waits2.len() ==> ids(#[trigger] waits2[i]) == ids(waits1[i]),
{
    law_only_positive_delays_scheduled(rows);
    assert forall|i: int| 0 <= i < waits2.len() implies (#[trigger] waits2[i]).delta == waits1[i].delta - (
    nows2[i].total_nanos() - nows1[i].total_nanos()) && ids(waits2[i]) == ids(waits1[i]) by {
        let r = scheduled_rows(rows)[i];
        assert(rows.contains(r));
        let p = choose|p: int| 0 <= p < rows.len() && rows[p] == r;
        assert(rows[p].scheduled());
        law_wait_shrinks_by_elapsed(r, nows1[i], nows2[i]);
    }
}

/// A message that is due stays due: when every row is read again no earlier than before,
/// each message due in the first list is due in the second.
pub proof fn law_due_stays_due(
    rows: Seq<WaitRow>,
    nows1: Seq<Stamp>,
    waits1: Seq<Wait>,
    nows2: Seq<Stamp>,
    waits2: Seq<Wait>,
)
    requires
        rows_computable(rows),
        waits_taken_at(rows, nows1, waits1),
        waits_taken_at(rows, nows2, waits2),
        forall|i: int| 0 <= i < nows1.len() ==> (#[trigger] nows1[i]).total_nanos() <= nows2[i].total_nanos(),
    ensures
        forall|x: (u64, u64)| #[trigger] spec_due(waits1).contains(x) ==> spec_due(waits2).contains(x),
{
    law_waits_shrink_by_elapsed(rows, nows1, waits1, nows2, waits2);
    lemma_due_members(waits1);
    lemma_due_members(waits2);
    assert forall|x: (u64, u64)| #[trigger] spec_due(waits1).contains(x) implies spec_due(waits2).contains(x) by {
        let k = choose|k: int| 0 <= k < spec_due(waits1).len() && spec_due(waits1)[k] == x;
        assert(from_due_wait(waits1, spec_due(waits1)[k]));
        let i = choose|i: int| 0 <= i < waits1.len() && waits1[i].delta <= 0 && x == ids(#[trigger] waits1[i]);
        assert(waits2[i].delta <= waits1[i].delta);
        assert(ids(waits2[i]) == x);
    }
}

/// When only one row has a given message key, only one cleaned row has it.
proof fn lemma_scheduled_unique(rows: Seq<WaitRow>, m: i64)
    requires
        forall|i: int, i2: int|
            0 <= i < rows.len() && 0 <= i2 < rows.len() && #[trigger] rows[i].message == m
                && #[trigger] rows[i2].message == m ==> i == i2,
    ensures
        forall|k: int, k2: int|
            0 <= k < scheduled_rows(rows).len() && 0 <= k2 < scheduled_rows(rows).len()
                && #[trigger] scheduled_rows(rows)[k].message == m
                && #[trigger] scheduled_rows(rows)[k2].message == m ==> k == k2,
    decreases rows.len(),
{
    if rows.len() > 0 {
        let init = rows.drop_last();
        let last = rows.len() - 1;
        assert forall|i: int, i2: int|
            0 <= i < init.len() && 0 <= i2 < init.len() && #[trigger] init[i].message == m
                && #[trigger] init[i2].message == m implies i == i2 by {
            assert(rows[i] == init[i] && rows[i2] == init[i2]);
        }
        lemma_scheduled_unique(init, m);
        law_only_positive_delays_scheduled(init);
        let si = scheduled_rows(init);
        if rows[last].scheduled() {
            assert(scheduled_rows(rows) == si.push(rows[last]));
            if rows[last].message == m {
                assert forall|k: int| 0 <= k < si.len() implies (#[trigger] si[k]).message != m by {
                    assert(init.contains(si[k]));
                    let p = choose|p: int| 0 <= p < init.len() && init[p] == si[k];
                    assert(rows[p] == init[p]);
                    if si[k].message == m {
                        assert(rows[p].message == m && rows[last].message == m);
                    }
                }
            }
            assert forall|k: int, k2: int|
                0 <= k < scheduled_rows(rows).len() && 0 <= k2 < scheduled_rows(rows).len()
                    && #[trigger] scheduled_rows(rows)[k].message == m
                    && #[trigger] scheduled_rows(rows)[k2].message == m implies k == k2 by {
                if k < si.len() && k2 < si.len() {
                    assert(scheduled_rows(rows)[k] == si[k] && scheduled_rows(rows)[k2] == si[k2]);
                } else if k < si.len() {
                    assert(scheduled_rows(rows)[k] == si[k]);
                } else if k2 < si.len() {
                    assert(scheduled_rows(rows)[k2] == si[k2]);
                }
            }
        } else {
            assert(scheduled_rows(rows) == si);
        }
    }
}

/// A recorded message whose channel is cleaned is in the list of messages to remove
/// exactly once its channel's delay has elapsed since it was recorded (at the reading
/// taken for its row), provided no other row carries the same message key.
pub proof fn law_due_exactly_after_delay(rows: Seq<WaitRow>, nows: Seq<Stamp>, waits: Seq<Wait>, j: int)
    requires
        rows_computable(rows),
        waits_taken_at(rows, nows, waits),
        0 <= j < rows.len(),
        rows[j].delay > 0,
        forall|i: int| 0 <= i < rows.len() && #[trigger] rows[i].message == rows[j].message ==> i == j,
    ensures
        exists|k: int|
            0 <= k < waits.len() && #[trigger] scheduled_rows(rows)[k] == rows[j] && (spec_due(waits).contains(
                row_ids(rows[j]),
            ) <==> nows[k].total_nanos() >= rows[j].created_at.total_nanos() + rows[j].delay
                * 60_000_000_000),
{
    let row = rows[j];
    let sr = scheduled_rows(rows);
    law_only_positive_delays_scheduled(rows);
    assert(sr.contains(row));
    let k = choose|k: int| 0 <= k < sr.len() && sr[k] == row;
    lemma_wait_exact(row, nows[k]);
    assert(waits[k] == spec_wait(row, nows[k]));
    assert(ids(waits[k]) == row_ids(row));
    lemma_due_members(waits);
    assert forall|i: int, i2: int|
        0 <= i < rows.len() && 0 <= i2 < rows.len() && #[trigger] rows[i].message == row.message
            && #[trigger] rows[i2].message == row.message implies i == i2 by {
    }
    lemma_scheduled_unique(rows, row.message);
    if spec_due(waits).contains(row_ids(row)) {
        let q = choose|q: int| 0 <= q < spec_due(waits).len() && spec_due(waits)[q] == row_ids(row);
        assert(from_due_wait(waits, spec_due(waits)[q]));
        let i = choose|i: int| 0 <= i < waits.len() && waits[i].delta <= 0 && spec_due(waits)[q] == ids(#[trigger] waits[i]);
        let r = sr[i];
        assert(waits[i] == spec_wait(r, nows[i]));
        lemma_key_cast_injective(r.message, row.message);
        assert(r.message == row.message);
        assert(sr[k].message == row.message);
        assert(i == k);
    }
    if nows[k].total_nanos() >= row.created_at.total_nanos() + row.delay * 60_000_000_000 {
        assert(waits[k].delta <= 0);
    }
    assert(scheduled_rows(rows)[k] == rows[j]);
}

} // verus!
