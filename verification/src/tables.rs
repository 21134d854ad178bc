//! What the commands' writes and the recording of messages ask of the two tables,
//! stated over a mathematical picture of them; the store that carries the writes
//! out lives in the binary.
//!
//! The table of cleaned channels holds rows of a stored channel key and a delay;
//! the table of recorded messages holds rows of a stored message key and the key
//! of the channel they belong to. The store finds a channel by comparing the stored
//! key with the channel id as numbers, and removing a channel removes its messages.

use vstd::prelude::*;
use crate::commands::{spec_auto_clean, spec_stop_auto_clean, ChannelWrite};

verus! {

/// The rows of the two tables, in the order they were written.
pub struct TablesView {
    pub channels: Seq<(i64, i64)>,
    pub messages: Seq<(i64, i64)>,
}

/// A row whose column `col` (0: the first, 1: the second) does not name channel `ch`.
pub open spec fn keeps(row: (i64, i64), ch: u64, col: int) -> bool {
    (if col == 0 { row.0 } else { row.1 }) as int != ch as int
}

/// The rows of `s` whose column `col` does not name channel `ch`, in order.
pub open spec fn drop_channel(s: Seq<(i64, i64)>, ch: u64, col: int) -> Seq<(i64, i64)>
    decreases s.len(),
{
    if s.len() == 0 {
        Seq::empty()
    } else {
        let rest = drop_channel(s.drop_last(), ch, col);
        if keeps(s.last(), ch, col) {
            rest.push(s.last())
        } else {
            rest
        }
    }
}

/// Channel `ch` has a row in the table of cleaned channels.
pub open spec fn cleaned(t: TablesView, ch: u64) -> bool {
    exists|i: int| 0 <= i < t.channels.len() && !keeps(#[trigger] t.channels[i], ch, 0)
}

/// What a planned write asks of the tables. Updating the delay of a channel without a row
/// fails and leaves the tables as they were; removing a channel removes its messages.
pub open spec fn apply_write(t: TablesView, w: ChannelWrite) -> TablesView {
    match w {
        ChannelWrite::Insert { stored_channel, delay } => TablesView {
            channels: t.channels.push((stored_channel, delay)),
            messages: t.messages,
        },
        ChannelWrite::UpdateDelay { channel, delay } => if cleaned(t, channel) {
            let i = choose|i: int|
                0 <= i < t.channels.len() && !keeps(t.channels[i], channel, 0) && forall|j: int|
                    0 <= j < i ==> keeps(#[trigger] t.channels[j], channel, 0);
            TablesView { channels: t.channels.update(i, (t.channels[i].0, delay)), messages: t.messages }
        } else {
            t
        },
        ChannelWrite::Delete { channel } => TablesView {
            channels: drop_channel(t.channels, channel, 0),
            messages: drop_channel(t.messages, channel, 1),
        },
    }
}

/// Recording `message` posted in channel `ch`: a row when the channel is cleaned, keyed
/// by the ids as stored.
pub open spec fn record_message(t: TablesView, message: u64, ch: u64) -> TablesView {
    if cleaned(t, ch) {
        TablesView {
            channels: t.channels,
            messages: t.messages.push((message as i64, ch as i64)),
        }
    } else {
        t
    }
}

/// Recording each of `posted`, in order, all posted in channel `ch`.
pub open spec fn record_all(t: TablesView, posted: Seq<u64>, ch: u64) -> TablesView
    decreases posted.len(),
{
    if posted.len() == 0 {
        t
    } else {
        record_message(record_all(t, posted.drop_last(), ch), posted.last(), ch)
    }
}

proof fn lemma_drop_none(s: Seq<(i64, i64)>, ch: u64, col: int)
    requires
        forall|i: int| 0 <= i < s.len() ==> keeps(#[trigger] s[i], ch, col),
    ensures
        drop_channel(s, ch, col) == s,
    decreases s.len(),
{
    if s.len() > 0 {
        lemma_drop_none(s.drop_last(), ch, col);
        assert(keeps(s[s.len() - 1], ch, col));
        assert(s.drop_last().push(s.last()) =~= s);
    }
}

proof fn lemma_drop_append(s: Seq<(i64, i64)>, r: Seq<(i64, i64)>, ch: u64, col: int)
    requires
        forall|i: int| 0 <= i < r.len() ==> !keeps(#[trigger] r[i], ch, col),
    ensures
        drop_channel(s + r, ch, col) == drop_channel(s, ch, col),
    decreases r.len(),
{
    if r.len() > 0 {
        let r0 = r.drop_last();
        assert((s + r).drop_last() =~= s + r0);
        assert((s + r).last() == r[r.len() - 1]);
        lemma_drop_append(s, r0, ch, col);
    } else {
        assert(s + r =~= s);
    }
}

proof fn lemma_record_all(t: TablesView, posted: Seq<u64>, ch: u64)
    requires
        cleaned(t, ch),
    ensures
        record_all(t, posted, ch).channels == t.channels,
        record_all(t, posted, ch).messages == t.messages + Seq::new(
            posted.len(),
            |i: int| (posted[i] as i64, ch as i64),
        ),
    decreases posted.len(),
{
    if posted.len() == 0 {
        assert(t.messages + Seq::new(0, |i: int| (posted[i] as i64, ch as i64)) =~= t.messages);
    } else {
        let init = posted.drop_last();
        lemma_record_all(t, init, ch);
        let before = record_all(t, init, ch);
        assert(cleaned(before, ch));
        assert(t.messages + Seq::new(posted.len(), |i: int| (posted[i] as i64, ch as i64)) =~= (t.messages
            + Seq::new(init.len(), |i: int| (init[i] as i64, ch as i64))).push(
            (posted.last() as i64, ch as i64),
        ));
    }
}

/// Cleaning a channel and then stopping leaves the tables as they were: a channel without
/// a row is inserted, the messages posted in it meanwhile are recorded, the stop finds the
/// channel cleaned and removes its row together with those messages, and afterwards the
/// channel is no longer cleaned. Channel ids above `i64::MAX` are left out: they are stored
/// as negative keys, which the store's lookup by the unsigned id never matches.
pub proof fn law_clean_then_stop_round_trip(t: TablesView, ch: u64, delay: u64, posted: Seq<u64>)
    requires
        ch <= i64::MAX,
        !cleaned(t, ch),
        forall|i: int| 0 <= i < t.messages.len() ==> keeps(#[trigger] t.messages[i], ch, 1),
    ensures
        ({
            let start = spec_auto_clean(ch, delay, cleaned(t, ch)).write->0;
            let during = record_all(apply_write(t, start), posted, ch);
            let stop = spec_stop_auto_clean(ch, cleaned(during, ch));
            &&& cleaned(apply_write(t, start), ch)
            &&& cleaned(during, ch)
            &&& stop.write is Some
            &&& apply_write(during, stop.write->0) == t
            &&& !cleaned(apply_write(during, stop.write->0), ch)
        }),
{
    let start = spec_auto_clean(ch, delay, false).write->0;
    let t1 = apply_write(t, start);
    let row = (ch as i64, delay as i64);
    assert(t1.channels == t.channels.push(row));
    assert(t1.channels[t.channels.len() as int] == row);
    assert(!keeps(row, ch, 0));
    assert(cleaned(t1, ch));
    lemma_record_all(t1, posted, ch);
    let during = record_all(t1, posted, ch);
    let added = Seq::new(posted.len(), |i: int| (posted[i] as i64, ch as i64));
    assert(during.channels == t1.channels);
    assert(cleaned(during, ch)) by {
        assert(during.channels[t.channels.len() as int] == row);
    }
    let end = apply_write(during, ChannelWrite::Delete { channel: ch });
    assert forall|i: int| 0 <= i < t.channels.len() implies keeps(#[trigger] t.channels[i], ch, 0) by {
        if !keeps(t.channels[i], ch, 0) {
            assert(cleaned(t, ch));
        }
    }
    lemma_drop_none(t.channels, ch, 0);
    assert(t.channels.push(row) =~= t.channels + seq![row]);
    lemma_drop_append(t.channels, seq![row], ch, 0);
    assert(end.channels == t.channels);
    assert forall|i: int| 0 <= i < added.len() implies !keeps(#[trigger] added[i], ch, 1) by {
    }
    lemma_drop_none(t.messages, ch, 1);
    lemma_drop_append(t.messages, added, ch, 1);
    assert(end.messages == t.messages);
    assert(end =~= t);
    if cleaned(end, ch) {
        let i = choose|i: int| 0 <= i < end.channels.len() && !keeps(#[trigger] end.channels[i], ch, 0);
        assert(end.channels[i] == t.channels[i]);
        assert(cleaned(t, ch));
    }
}

/// Stopping removes every row of the channel and every message recorded for it, and keeps
/// every other row in order.
pub proof fn law_stop_removes_channel_and_messages(t: TablesView, ch: u64)
    ensures
        ({
            let end = apply_write(t, ChannelWrite::Delete { channel: ch });
            &&& forall|i: int| 0 <= i < end.channels.len() ==> keeps(#[trigger] end.channels[i], ch, 0)
            &&& forall|i: int| 0 <= i < end.messages.len() ==> keeps(#[trigger] end.messages[i], ch, 1)
            &&& !cleaned(end, ch)
        }),
{
    lemma_drop_keeps(t.channels, ch, 0);
    lemma_drop_keeps(t.messages, ch, 1);
}

proof fn lemma_drop_keeps(s: Seq<(i64, i64)>, ch: u64, col: int)
    ensures
        forall|i: int| 0 <= i < drop_channel(s, ch, col).len() ==> keeps(#[trigger] drop_channel(s, ch, col)[i], ch, col),
    decreases s.len(),
{
    if s.len() > 0 {
        let rest = drop_channel(s.drop_last(), ch, col);
        lemma_drop_keeps(s.drop_last(), ch, col);
        if keeps(s.last(), ch, col) {
            assert(drop_channel(s, ch, col) == rest.push(s.last()));
            assert forall|i: int| 0 <= i < drop_channel(s, ch, col).len() implies keeps(
                #[trigger] drop_channel(s, ch, col)[i],
                ch,
                col,
            ) by {
                if i < rest.len() {
                    assert(drop_channel(s, ch, col)[i] == rest[i]);
                }
            }
        } else {
            assert(drop_channel(s, ch, col) == rest);
        }
    } else {
        assert(drop_channel(s, ch, col).len() == 0);
    }
}

} // verus!
