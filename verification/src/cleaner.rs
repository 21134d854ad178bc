//! The cleaner: the background loop that sleeps until the next recorded message
//! falls due, removes the due messages from the chat, and forgets them.
//!
//! The loop's decisions are a state machine: the binary performs each action
//! (a store query, a sleep that a command may cut short, a removal), and feeds
//! back what happened as the next event. Outcomes that the loop only logs
//! (a failed removal, a failed forget) carry no value here.

use vstd::prelude::*;
use crate::schedule::{ids, spec_due, law_removes_exactly_due, Wait};

verus! {

/// Seconds the cleaner pauses after the store failed to say how long to sleep.
pub const RETRY_SECS: u64 = 5;

/// Seconds the cleaner pauses after each round of removals.
pub const REST_SECS: u64 = 5;

/// Where the cleaner stands.
#[derive(Debug, PartialEq, Eq)]
pub enum CleanerState {
    /// About to ask the store how long to sleep.
    Planning,
    /// The store failed; pausing before asking again.
    Retrying,
    /// Sleeping until the next message falls due, unless a command wakes it first.
    Sleeping,
    /// Asking the store which messages are due.
    Collecting,
    /// Removing the due messages one by one; `next` is the one being removed.
    Removing { batch: Vec<(u64, u64)>, next: usize },
    /// Asking the store to forget the batch just removed.
    Forgetting,
    /// Pausing after a round.
    Resting,
}

/// What the binary reports back to the cleaner.
#[derive(Debug, PartialEq, Eq)]
pub enum CleanerEvent {
    /// The store said how many seconds to sleep (`None`: the query failed).
    NextWait(Option<u64>),
    /// The sleep ran to its end.
    TimerFired,
    /// A command woke the cleaner during its sleep.
    Woken,
    /// The store listed the due messages as message and channel ids (`None`: the query failed).
    DueMessages(Option<Vec<(u64, u64)>>),
    /// The removal of the current message finished, whatever its outcome.
    MessageRemoved,
    /// The store finished forgetting the batch, whatever its outcome.
    Forgotten,
    /// A pause ran to its end.
    Slept,
}

/// What the cleaner asks the binary to do next.
#[derive(Debug, PartialEq, Eq)]
pub enum CleanerAction {
    /// Ask the store how many seconds to sleep.
    FetchNextWait,
    /// Sleep this many seconds, or until a command wakes the cleaner.
    SleepOrWake(u64),
    /// Sleep this many seconds.
    Pause(u64),
    /// Ask the store which messages are due.
    FetchDue,
    /// Remove one message from a channel.
    RemoveMessage { message: u64, channel: u64 },
    /// Ask the store to forget these messages.
    Forget(Vec<(u64, u64)>),
    /// The event does not fit the state; nothing to do.
    Ignore,
}

/// The cleaner's state as a mathematical value.
pub enum Phase {
    Planning,
    Retrying,
    Sleeping,
    Collecting,
    Removing { batch: Seq<(u64, u64)>, next: int },
    Forgetting,
    Resting,
}

/// A report as a mathematical value.
pub enum Report {
    NextWait(Option<u64>),
    TimerFired,
    Woken,
    DueMessages(Option<Seq<(u64, u64)>>),
    MessageRemoved,
    Forgotten,
    Slept,
}

/// A request as a mathematical value.
pub enum Request {
    FetchNextWait,
    SleepOrWake(u64),
    Pause(u64),
    FetchDue,
    RemoveMessage { message: u64, channel: u64 },
    Forget(Seq<(u64, u64)>),
    Ignore,
}

impl View for CleanerState {
    type V = Phase;

    open spec fn view(&self) -> Phase {
        match self {
            CleanerState::Planning => Phase::Planning,
            CleanerState::Retrying => Phase::Retrying,
            CleanerState::Sleeping => Phase::Sleeping,
            CleanerState::Collecting => Phase::Collecting,
            CleanerState::Removing { batch, next } => Phase::Removing { batch: batch@, next: *next as int },
            CleanerState::Forgetting => Phase::Forgetting,
            CleanerState::Resting => Phase::Resting,
        }
    }
}

impl View for CleanerEvent {
    type V = Report;

    open spec fn view(&self) -> Report {
        match self {
            CleanerEvent::NextWait(w) => Report::NextWait(*w),
            CleanerEvent::TimerFired => Report::TimerFired,
            CleanerEvent::Woken => Report::Woken,
            CleanerEvent::DueMessages(d) => Report::DueMessages(
                match d {
                    Some(v) => Some(v@),
                    None => None,
                },
            ),
            CleanerEvent::MessageRemoved => Report::MessageRemoved,
            CleanerEvent::Forgotten => Report::Forgotten,
            CleanerEvent::Slept => Report::Slept,
        }
    }
}

impl View for CleanerAction {
    type V = Request;

    open spec fn view(&self) -> Request {
        match self {
            CleanerAction::FetchNextWait => Request::FetchNextWait,
            CleanerAction::SleepOrWake(s) => Request::SleepOrWake(*s),
            CleanerAction::Pause(s) => Request::Pause(*s),
            CleanerAction::FetchDue => Request::FetchDue,
            CleanerAction::RemoveMessage { message, channel } => Request::RemoveMessage {
                message: *message,
                channel: *channel,
            },
            CleanerAction::Forget(b) => Request::Forget(b@),
            CleanerAction::Ignore => Request::Ignore,
        }
    }
}

/// The request that removes the `i`-th message of a batch.
pub open spec fn remove_request(batch: Seq<(u64, u64)>, i: int) -> Request {
    Request::RemoveMessage { message: batch[i].0, channel: batch[i].1 }
}

/// The cleaner's transition: the next phase and the request that goes with it.
pub open spec fn next_phase(p: Phase, r: Report) -> (Phase, Request) {
    match p {
        Phase::Planning => match r {
            Report::NextWait(Some(secs)) => (Phase::Sleeping, Request::SleepOrWake(secs)),
            Report::NextWait(None) => (Phase::Retrying, Request::Pause(RETRY_SECS)),
            _ => (p, Request::Ignore),
        },
        Phase::Retrying => match r {
            Report::Slept => (Phase::Planning, Request::FetchNextWait),
            _ => (p, Request::Ignore),
        },
        Phase::Sleeping => match r {
            Report::TimerFired => (Phase::Collecting, Request::FetchDue),
            Report::Woken => (Phase::Planning, Request::FetchNextWait),
            _ => (p, Request::Ignore),
        },
        Phase::Collecting => match r {
            Report::DueMessages(Some(batch)) => if batch.len() > 0 {
                (Phase::Removing { batch, next: 0 }, remove_request(batch, 0))
            } else {
                (Phase::Forgetting, Request::Forget(batch))
            },
            Report::DueMessages(None) => (Phase::Planning, Request::FetchNextWait),
            _ => (p, Request::Ignore),
        },
        Phase::Removing { batch, next } => match r {
            Report::MessageRemoved => if next + 1 < batch.len() {
                (Phase::Removing { batch, next: next + 1 }, remove_request(batch, next + 1))
            } else {
                (Phase::Forgetting, Request::Forget(batch))
            },
            _ => (p, Request::Ignore),
        },
        Phase::Forgetting => match r {
            Report::Forgotten => (Phase::Resting, Request::Pause(REST_SECS)),
            _ => (p, Request::Ignore),
        },
        Phase::Resting => match r {
            Report::Slept => (Phase::Planning, Request::FetchNextWait),
            _ => (p, Request::Ignore),
        },
    }
}

/// The phases the cleaner can be in: while removing, the current index lies in the batch.
pub open spec fn phase_wf(p: Phase) -> bool {
    match p {
        Phase::Removing { batch, next } => 0 <= next < batch.len(),
        _ => true,
    }
}

impl CleanerState {
    /// The cleaner's state when it starts: about to ask how long to sleep.
    pub fn new() -> (s: CleanerState)
        ensures
            s@ == Phase::Planning,
    {
        CleanerState::Planning
    }

    /// The request the cleaner makes when it starts.
    pub fn first_action() -> (a: CleanerAction)
        ensures
            a@ == Request::FetchNextWait,
    {
        CleanerAction::FetchNextWait
    }

    /// Takes one report and gives the next state and request.
    pub fn step(self, event: CleanerEvent) -> (r: (CleanerState, CleanerAction))
        ensures
            (r.0@, r.1@) == next_phase(self@, event@),
    {
        match self {
            CleanerState::Planning => match event {
                CleanerEvent::NextWait(Some(secs)) => (CleanerState::Sleeping, CleanerAction::SleepOrWake(secs)),
                CleanerEvent::NextWait(None) => (CleanerState::Retrying, CleanerAction::Pause(RETRY_SECS)),
                _ => (CleanerState::Planning, CleanerAction::Ignore),
            },
            CleanerState::Retrying => match event {
                CleanerEvent::Slept => (CleanerState::Planning, CleanerAction::FetchNextWait),
                _ => (CleanerState::Retrying, CleanerAction::Ignore),
            },
            CleanerState::Sleeping => match event {
                CleanerEvent::TimerFired => (CleanerState::Collecting, CleanerAction::FetchDue),
                CleanerEvent::Woken => (CleanerState::Planning, CleanerAction::FetchNextWait),
                _ => (CleanerState::Sleeping, CleanerAction::Ignore),
            },
            CleanerState::Collecting => match event {
                CleanerEvent::DueMessages(Some(batch)) => {
                    if batch.len() > 0 {
                        let (message, channel) = batch[0];
                        (
                            CleanerState::Removing { batch, next: 0 },
                            CleanerAction::RemoveMessage { message, channel },
                        )
                    } else {
                        (CleanerState::Forgetting, CleanerAction::Forget(batch))
                    }
                },
                CleanerEvent::DueMessages(None) => (CleanerState::Planning, CleanerAction::FetchNextWait),
                _ => (CleanerState::Collecting, CleanerAction::Ignore),
            },
            CleanerState::Removing { batch, next } => match event {
                CleanerEvent::MessageRemoved => {
                    if batch.len() > 0 && next < batch.len() - 1 {
                        let (message, channel) = batch[next + 1];
                        (
                            CleanerState::Removing { batch, next: next + 1 },
                            CleanerAction::RemoveMessage { message, channel },
                        )
                    } else {
                        (CleanerState::Forgetting, CleanerAction::Forget(batch))
                    }
                },
                _ => (CleanerState::Removing { batch, next }, CleanerAction::Ignore),
            },
            CleanerState::Forgetting => match event {
                CleanerEvent::Forgotten => (CleanerState::Resting, CleanerAction::Pause(REST_SECS)),
                _ => (CleanerState::Forgetting, CleanerAction::Ignore),
            },
            CleanerState::Resting => match event {
                CleanerEvent::Slept => (CleanerState::Planning, CleanerAction::FetchNextWait),
                _ => (CleanerState::Resting, CleanerAction::Ignore),
            },
        }
    }
}

/// The phase reached and the requests made when the reports come in order from phase `p`.
pub open spec fn run(p: Phase, reports: Seq<Report>) -> (Phase, Seq<Request>)
    decreases reports.len(),
{
    if reports.len() == 0 {
        (p, Seq::empty())
    } else {
        let (q, a) = next_phase(p, reports[0]);
        let (f, rest) = run(q, reports.drop_first());
        (f, seq![a] + rest)
    }
}

/// `n` reports that a removal finished.
pub open spec fn removals_done(n: nat) -> Seq<Report> {
    Seq::new(n, |k: int| Report::MessageRemoved)
}

/// The requests that remove the messages of `batch` from index `from` on, in order.
pub open spec fn remove_requests(batch: Seq<(u64, u64)>, from: int) -> Seq<Request> {
    Seq::new((batch.len() - from) as nat, |k: int| remove_request(batch, from + k))
}

proof fn lemma_removing_finishes(batch: Seq<(u64, u64)>, i: int)
    requires
        0 <= i < batch.len(),
    ensures
        run(Phase::Removing { batch, next: i }, removals_done((batch.len() - i) as nat)) == (
            Phase::Forgetting,
            remove_requests(batch, i + 1) + seq![Request::Forget(batch)],
        ),
    decreases batch.len() - i,
{
    let reports = removals_done((batch.len() - i) as nat);
    assert(reports[0] == Report::MessageRemoved);
    if i + 1 < batch.len() {
        lemma_removing_finishes(batch, i + 1);
        assert(reports.drop_first() =~= removals_done((batch.len() - (i + 1)) as nat));
        assert(remove_requests(batch, i + 1) =~= seq![remove_request(batch, i + 1)] + remove_requests(batch, i + 2));
        assert(remove_requests(batch, i + 1) + seq![Request::Forget(batch)] =~= seq![remove_request(batch, i + 1)] + (remove_requests(batch, i + 2) + seq![Request::Forget(batch)]));
    } else {
        assert(reports.drop_first() =~= Seq::<Report>::empty());
        assert(remove_requests(batch, i + 1) =~= Seq::<Request>::empty());
        assert(run(Phase::Forgetting, reports.drop_first()) == (Phase::Forgetting, Seq::<Request>::empty()));
        assert(seq![Request::Forget(batch)] + Seq::<Request>::empty() =~= seq![Request::Forget(batch)]);
        assert(Seq::<Request>::empty() + seq![Request::Forget(batch)] =~= seq![Request::Forget(batch)]);
    }
}

/// A fetched batch is handled in full and in order: once the store lists the due messages,
/// the cleaner removes each of them once, in the listed order, and then asks the store to
/// forget exactly that batch.
pub proof fn law_batch_removed_then_forgotten(batch: Seq<(u64, u64)>)
    ensures
        run(Phase::Collecting, seq![Report::DueMessages(Some(batch))] + removals_done(batch.len())) == (
            Phase::Forgetting,
            remove_requests(batch, 0) + seq![Request::Forget(batch)],
        ),
{
    let reports = seq![Report::DueMessages(Some(batch))] + removals_done(batch.len());
    assert(reports[0] == Report::DueMessages(Some(batch)));
    assert(reports.drop_first() =~= removals_done(batch.len()));
    if batch.len() > 0 {
        lemma_removing_finishes(batch, 0);
        assert(remove_requests(batch, 0) =~= seq![remove_request(batch, 0)] + remove_requests(batch, 1));
        assert(remove_requests(batch, 0) + seq![Request::Forget(batch)] =~= seq![remove_request(batch, 0)] + (remove_requests(batch, 1) + seq![Request::Forget(batch)]));
    } else {
        assert(removals_done(batch.len()) =~= Seq::<Report>::empty());
        assert(remove_requests(batch, 0) =~= Seq::<Request>::empty());
        assert(run(Phase::Forgetting, reports.drop_first()) == (Phase::Forgetting, Seq::<Request>::empty()));
        assert(seq![Request::Forget(batch)] + Seq::<Request>::empty() =~= seq![Request::Forget(batch)]);
        assert(Seq::<Request>::empty() + seq![Request::Forget(batch)] =~= seq![Request::Forget(batch)]);
    }
}

/// Every transition keeps the removal index inside its batch.
pub proof fn law_step_keeps_wf(p: Phase, r: Report)
    requires
        phase_wf(p),
    ensures
        phase_wf(next_phase(p, r).0),
{
}

/// A failed query for the sleep is retried after a pause; a failed query for the due
/// messages goes back to asking how long to sleep, without a pause.
pub proof fn law_failures_retry()
    ensures
        run(Phase::Planning, seq![Report::NextWait(None), Report::Slept]) == (
            Phase::Planning,
            seq![Request::Pause(RETRY_SECS), Request::FetchNextWait],
        ),
        next_phase(Phase::Collecting, Report::DueMessages(None)) == (Phase::Planning, Request::FetchNextWait),
{
    let rs = seq![Report::NextWait(None), Report::Slept];
    assert(rs.drop_first() =~= seq![Report::Slept]);
    assert(rs.drop_first().drop_first() =~= Seq::<Report>::empty());
    assert(run(Phase::Planning, Seq::<Report>::empty()) == (Phase::Planning, Seq::<Request>::empty()));
    assert(run(Phase::Retrying, seq![Report::Slept]) == (Phase::Planning, seq![Request::FetchNextWait]));
    assert(seq![Request::FetchNextWait] + Seq::<Request>::empty() =~= seq![Request::FetchNextWait]);
    assert(seq![Request::Pause(RETRY_SECS)] + seq![Request::FetchNextWait] =~= seq![Request::Pause(RETRY_SECS), Request::FetchNextWait]);
}

/// A command that wakes the cleaner makes it ask again how long to sleep; a sleep that
/// runs out makes it look for due messages.
pub proof fn law_wake_replans()
    ensures
        next_phase(Phase::Sleeping, Report::Woken) == (Phase::Planning, Request::FetchNextWait),
        next_phase(Phase::Sleeping, Report::TimerFired) == (Phase::Collecting, Request::FetchDue),
{
}

/// A round ends with a pause of `REST_SECS` seconds, after which the cleaner asks again how
/// long to sleep; it sleeps exactly as long as the store said.
pub proof fn law_round_rests(secs: u64)
    ensures
        run(Phase::Forgetting, seq![Report::Forgotten, Report::Slept]) == (
            Phase::Planning,
            seq![Request::Pause(REST_SECS), Request::FetchNextWait],
        ),
        next_phase(Phase::Planning, Report::NextWait(Some(secs))) == (Phase::Sleeping, Request::SleepOrWake(secs)),
{
    let rs = seq![Report::Forgotten, Report::Slept];
    assert(rs.drop_first() =~= seq![Report::Slept]);
    assert(rs.drop_first().drop_first() =~= Seq::<Report>::empty());
    assert(run(Phase::Planning, Seq::<Report>::empty()) == (Phase::Planning, Seq::<Request>::empty()));
    assert(run(Phase::Resting, seq![Report::Slept]) == (Phase::Planning, seq![Request::FetchNextWait]));
    assert(seq![Request::FetchNextWait] + Seq::<Request>::empty() =~= seq![Request::FetchNextWait]);
    assert(seq![Request::Pause(REST_SECS)] + seq![Request::FetchNextWait] =~= seq![Request::Pause(REST_SECS), Request::FetchNextWait]);
}

/// `report` is one that the binary can give after performing `request`: the outcome of
/// the query, the end of the sleep or a wake-up, the end of the pause, or the end of the
/// removal or of the forget.
pub open spec fn fits(request: Request, report: Report) -> bool {
    match request {
        Request::FetchNextWait => report is NextWait,
        Request::SleepOrWake(_) => report is TimerFired || report is Woken,
        Request::Pause(_) => report is Slept,
        Request::FetchDue => report is DueMessages,
        Request::RemoveMessage { .. } => report is MessageRemoved,
        Request::Forget(_) => report is Forgotten,
        Request::Ignore => false,
    }
}

/// `request` is the one the cleaner makes on entering phase `p`.
pub open spec fn in_step(p: Phase, request: Request) -> bool {
    match p {
        Phase::Planning => request == Request::FetchNextWait,
        Phase::Retrying => request == Request::Pause(RETRY_SECS),
        Phase::Sleeping => request is SleepOrWake,
        Phase::Collecting => request == Request::FetchDue,
        Phase::Removing { batch, next } => 0 <= next < batch.len() && request == remove_request(batch, next),
        Phase::Forgetting => request is Forget,
        Phase::Resting => request == Request::Pause(REST_SECS),
    }
}

/// The cleaner never ignores the binary: it starts in step with its first request, and
/// whenever the binary answers the current request with a report that fits it, the cleaner
/// makes a real request (never `Ignore`) and stays in step with it. So the loop that
/// performs each request and reports its outcome runs forever, whatever fails.
pub proof fn law_never_ignores(p: Phase, request: Request, report: Report)
    ensures
        in_step(Phase::Planning, Request::FetchNextWait),
        in_step(p, request) && fits(request, report) ==> {
            &&& !(next_phase(p, report).1 is Ignore)
            &&& in_step(next_phase(p, report).0, next_phase(p, report).1)
        },
{
}

/// A due message is removed: when the store says how long to sleep, the sleep runs out,
/// and the store lists the due messages of waits in which a message is due, the cleaner
/// asks to remove that message (with every other listed one, in order, each once) and
/// then to forget the whole list, coming to rest in the forgetting phase.
pub proof fn law_due_message_removed(secs: u64, waits: Seq<Wait>, k: int)
    requires
        forall|i: int| 0 <= i < waits.len() ==> (#[trigger] waits[i]).valid(),
        0 <= k < waits.len(),
        waits[k].delta <= 0,
    ensures
        ({
            let batch = spec_due(waits);
            &&& run(
                Phase::Planning,
                seq![Report::NextWait(Some(secs)), Report::TimerFired, Report::DueMessages(Some(batch))]
                    + removals_done(batch.len()),
            ) == (
                Phase::Forgetting,
                seq![Request::SleepOrWake(secs), Request::FetchDue] + remove_requests(batch, 0) + seq![
                    Request::Forget(batch),
                ],
            )
            &&& remove_requests(batch, 0).contains(
                Request::RemoveMessage { message: ids(waits[k]).0, channel: ids(waits[k]).1 },
            )
            &&& batch.contains(ids(waits[k]))
        }),
{
    let batch = spec_due(waits);
    law_removes_exactly_due(waits);
    assert(batch.contains(ids(waits[k])));
    let q = choose|q: int| 0 <= q < batch.len() && batch[q] == ids(waits[k]);
    assert(remove_requests(batch, 0)[q] == remove_request(batch, q));
    law_batch_removed_then_forgotten(batch);
    let tail = seq![Report::DueMessages(Some(batch))] + removals_done(batch.len());
    let reports = seq![Report::NextWait(Some(secs)), Report::TimerFired, Report::DueMessages(Some(batch))]
        + removals_done(batch.len());
    let after_wait = seq![Report::TimerFired] + tail;
    assert(reports =~= seq![Report::NextWait(Some(secs))] + after_wait);
    assert(reports.drop_first() =~= after_wait);
    assert(after_wait.drop_first() =~= tail);
    let finish = remove_requests(batch, 0) + seq![Request::Forget(batch)];
    assert(run(Phase::Collecting, tail) == (Phase::Forgetting, finish));
    assert(run(Phase::Sleeping, after_wait) == (Phase::Forgetting, seq![Request::FetchDue] + finish));
    assert(run(Phase::Planning, reports) == (
        Phase::Forgetting,
        seq![Request::SleepOrWake(secs)] + (seq![Request::FetchDue] + finish),
    ));
    assert(seq![Request::SleepOrWake(secs)] + (seq![Request::FetchDue] + finish) =~= seq![
        Request::SleepOrWake(secs),
        Request::FetchDue,
    ] + remove_requests(batch, 0) + seq![Request::Forget(batch)]);
}

} // verus!
