//! What the connection driver guarantees, proved of its model.
//!
//! Each theorem speaks of every well-formed state and every event, or of
//! every sequence of events from a connection's first state on.

use crate::channel::{ids, Action, ChannelState, Cursor, Entry, Event};
use vstd::prelude::*;

verus! {

impl ChannelState {
    /// The state after the caller has reported `events` one after the other.
    pub open spec fn run(self, events: Seq<Event>) -> ChannelState
        decreases events.len(),
    {
        if events.len() == 0 {
            self
        } else {
            self.run(events.drop_last()).next(events.last())
        }
    }
}

/// Every state that a connection reaches is well formed, whatever the caller
/// reports and in whatever order.
pub proof fn theorem_reachable_states_are_well_formed(
    depth: usize,
    keep_alive_secs: u64,
    events: Seq<Event>,
)
    requires
        depth >= 1,
    ensures
        ChannelState::init(depth, keep_alive_secs).run(events).wf(),
    decreases events.len(),
{
    let s0 = ChannelState::init(depth, keep_alive_secs);
    if events.len() == 0 {
        assert(s0.parsed =~= s0.flushed + ids(s0.items));
    } else {
        theorem_reachable_states_are_well_formed(depth, keep_alive_secs, events.drop_last());
        s0.run(events.drop_last()).lemma_next_wf(events.last());
    }
}

/// Responses leave in the order in which their requests arrived: at every
/// moment the responses written in full are the first of the requests read,
/// in the same order, and the queue holds the rest, in the same order. The
/// order in which the invocations end has no part in it: the statement holds
/// after any sequence of events.
pub proof fn theorem_responses_follow_arrival_order(
    depth: usize,
    keep_alive_secs: u64,
    events: Seq<Event>,
)
    requires
        depth >= 1,
    ensures
        ({
            let s = ChannelState::init(depth, keep_alive_secs).run(events);
            &&& s.flushed.len() <= s.parsed.len()
            &&& s.flushed == s.parsed.take(s.flushed.len() as int)
            &&& ids(s.items) == s.parsed.skip(s.flushed.len() as int)
        }),
{
    theorem_reachable_states_are_well_formed(depth, keep_alive_secs, events);
    let s = ChannelState::init(depth, keep_alive_secs).run(events);
    assert(s.parsed == s.flushed + ids(s.items));
    assert(s.flushed =~= s.parsed.take(s.flushed.len() as int));
    assert(ids(s.items) =~= s.parsed.skip(s.flushed.len() as int));
}

/// Only the head of the queue writes: whenever the driver lets a request
/// write to the transport, that request is the oldest one whose response has
/// not been written in full.
pub proof fn theorem_only_the_head_writes(s: ChannelState, id: u64)
    requires
        s.wf(),
        s.pending() == (Action::PollIo { id }),
    ensures
        s.items.len() > 0,
        id == s.items[0].id,
        s.flushed.len() < s.parsed.len(),
        id == s.parsed[s.flushed.len() as int],
{
    assert(s.parsed == s.flushed + ids(s.items));
    assert(ids(s.items)[0] == s.items[0].id);
}

/// An invocation that is polled without the right to write belongs to a
/// request behind the head, or to one whose response is written already.
pub proof fn theorem_others_only_compute(s: ChannelState, id: u64)
    requires
        s.wf(),
        s.pending() == (Action::PollTask { id }),
    ensures
        (exists|i: int| 0 < i < s.items.len() && s.items[i].id == id && !s.items[i].spec_resolved())
            || (exists|i: int|
            0 <= i < s.inactive.len() && s.inactive[i].id == id && s.inactive[i].eof
                && !s.inactive[i].spec_resolved()),
{
    match s.cursor {
        Cursor::Tail(i) => {
            assert(0 < i < s.items.len() && s.items[i as int].id == id);
        },
        Cursor::Overflow(i) => {
            assert(0 <= i < s.inactive.len() && s.inactive[i as int].id == id);
        },
        _ => {},
    }
}

/// A response is recorded as written only on the report that the head has
/// been flushed, and it is the head's.
pub proof fn theorem_flush_retires_the_head(s: ChannelState, event: Event)
    requires
        s.wf(),
    ensures
        s.next(event).flushed != s.flushed ==> s.cursor is Head && event is IoDone && s.next(
            event,
        ).flushed == s.flushed.push(s.items[0].id) && s.next(event).items == s.items.skip(1),
{
    s.lemma_next_wf(event);
}

/// The queue never holds more requests than the pipelining depth, and the
/// reader is asked only while it holds fewer.
pub proof fn theorem_depth_bound(depth: usize, keep_alive_secs: u64, events: Seq<Event>)
    requires
        depth >= 1,
    ensures
        ChannelState::init(depth, keep_alive_secs).run(events).items.len() <= depth,
        ChannelState::init(depth, keep_alive_secs).run(events).pending() == Action::Parse
            ==> ChannelState::init(depth, keep_alive_secs).run(events).items.len() < depth,
    decreases events.len(),
{
    theorem_reachable_states_are_well_formed(depth, keep_alive_secs, events);
    lemma_run_keeps_configuration(ChannelState::init(depth, keep_alive_secs), events);
}

/// While the queue is full no request is taken in, and the reader is not
/// asked, until the report that a response has been written in full.
pub proof fn theorem_full_queue_waits_for_a_flush(s: ChannelState, event: Event)
    requires
        s.wf(),
        s.items.len() == s.depth,
        !s.flushes(event),
    ensures
        s.next(event).items.len() == s.depth,
        s.next(event).parsed == s.parsed,
        s.next(event).pending() != Action::Parse,
{
    s.lemma_next_wf(event);
    let t = s.next(event);
    assert(t.parsed == t.flushed + ids(t.items));
    assert(s.parsed == s.flushed + ids(s.items));
    assert(ids(t.items).len() == ids(s.items).len()) by {
        assert(t.parsed.len() == t.flushed.len() + ids(t.items).len());
        assert(s.parsed.len() == s.flushed.len() + ids(s.items).len());
    }
}

/// A sequence of steps keeps the configuration.
pub proof fn lemma_run_keeps_configuration(s: ChannelState, events: Seq<Event>)
    requires
        s.wf(),
    ensures
        s.run(events).wf(),
        s.run(events).depth == s.depth,
        s.run(events).keep_alive_secs == s.keep_alive_secs,
    decreases events.len(),
{
    if events.len() > 0 {
        lemma_run_keeps_configuration(s, events.drop_last());
        s.run(events.drop_last()).lemma_next_wf(events.last());
    }
}

/// Keep-alive only degrades: a connection that has lost it never has it
/// again, whatever follows.
pub proof fn theorem_keepalive_never_returns(s: ChannelState, events: Seq<Event>)
    requires
        s.wf(),
        !s.keepalive,
    ensures
        !s.run(events).keepalive,
    decreases events.len(),
{
    if events.len() > 0 {
        theorem_keepalive_never_returns(s, events.drop_last());
        lemma_run_keeps_configuration(s, events.drop_last());
        s.run(events.drop_last()).lemma_next_wf(events.last());
    }
}

/// A response that ends keep-alive takes it from the connection, and so
/// does the end or a failure of the reader.
pub proof fn theorem_keepalive_ends(s: ChannelState, event: Event)
    requires
        s.wf(),
        s.ends_keepalive(event),
    ensures
        !s.next(event).keepalive,
{
    s.lemma_next_wf(event);
}

/// When the last response in flight has been written and the connection
/// does not keep alive, the connection ends at once: the reader is not
/// asked again, whatever the client has sent in the meantime. It ends in
/// good order unless the reader has met a request that cannot be answered.
pub proof fn theorem_close_after_last_response(s: ChannelState, keepalive: bool)
    requires
        s.wf(),
        s.cursor is Head,
        s.items.len() == 1,
        s.inactive.len() == 0,
        !(s.keepalive && keepalive),
    ensures
        s.next(Event::IoDone { finished: true, keepalive }).pending() == (if s.broken {
            Action::Abort
        } else {
            Action::Close
        }),
        s.next(Event::IoDone { finished: true, keepalive }).parsed == s.parsed,
{
}

/// A connection that has lost keep-alive after a response never waits with
/// nothing in flight: it does not suspend, no idle timer runs or is started
/// for it, and a reader without a request closes it.
pub proof fn theorem_no_idle_wait_without_keepalive(s: ChannelState, partial: bool)
    requires
        s.wf(),
        !s.keepalive,
        s.served,
        s.drained(),
    ensures
        !s.timer,
        s.cursor is Read || s.cursor is Closed || s.cursor is Aborted,
        s.cursor is Read ==> s.next(Event::ReadPending { partial }).pending() == Action::Close,
        s.cursor is Read ==> s.next(Event::ReadPending { partial }).parsed == s.parsed,
{
}

/// A connection that is made without keep-alive still waits for its first
/// request: it is not closed for want of keep-alive before a response has
/// been written, as long as the reader has not ended. It waits without an
/// idle timer.
pub proof fn theorem_first_request_is_awaited(depth: usize, events: Seq<Event>, partial: bool)
    requires
        depth >= 1,
        ChannelState::init(depth, 0).run(events).cursor is Read,
        !ChannelState::init(depth, 0).run(events).served,
    ensures
        ({
            let s = ChannelState::init(depth, 0).run(events);
            let t = s.next(Event::ReadPending { partial });
            &&& !t.timer
            &&& !(t.cursor is Closed)
            &&& s.drained() && !s.progress ==> t.pending() == Action::Suspend
        }),
{
    theorem_reachable_states_are_well_formed(depth, 0, events);
    theorem_reachable_states_are_well_formed(depth, 0, Seq::empty());
    theorem_keepalive_never_returns(ChannelState::init(depth, 0), events);
    let s = ChannelState::init(depth, 0).run(events);
    s.lemma_next_wf(Event::ReadPending { partial });
    let r = ChannelState { timer: s.timer && !partial, ..s };
    if r.progress {
        lemma_scan_items_stays_open(ChannelState { progress: false, ..r }, 0);
    }
}

/// A scan of the queue on a connection whose reader has not ended does not
/// close the connection.
pub proof fn lemma_scan_items_stays_open(s: ChannelState, i: nat)
    requires
        s.inv(),
        !s.error,
    ensures
        !(s.scan_items(i).cursor is Closed),
    decreases crate::channel::flag(s.progress), 3nat, s.items.len() - i,
{
    if i >= s.items.len() {
        lemma_scan_inactive_stays_open(s, 0);
    } else if i == 0 {
    } else if !s.items[i as int].spec_resolved() {
    } else {
        lemma_scan_items_stays_open(s, i + 1);
    }
}

/// A scan of the overflow set on a connection whose reader has not ended
/// does not close the connection.
pub proof fn lemma_scan_inactive_stays_open(s: ChannelState, i: nat)
    requires
        s.inv(),
        !s.error,
    ensures
        !(s.scan_inactive(i).cursor is Closed),
    decreases crate::channel::flag(s.progress), 2nat, s.inactive.len() - i,
{
    if i >= s.inactive.len() {
        assert(s.scan_inactive(i) == s.read_step());
        if !s.may_read() {
            assert(s.read_step() == s.end_pass());
            if s.progress {
                lemma_scan_items_stays_open(ChannelState { progress: false, ..s }, 0);
            }
        }
    } else if i == 0 && s.inactive[0].spec_resolved() {
        s.lemma_retire_overflow_inv();
        lemma_scan_inactive_stays_open(s.retire_overflow(), 0);
    } else if !s.inactive[i as int].spec_resolved() {
    } else {
        lemma_scan_inactive_stays_open(s, i + 1);
    }
}

/// A suspended connection that keeps alive runs its idle timer if and only
/// if nothing is in flight; one that does not keep alive runs none.
pub proof fn theorem_idle_timer_runs_iff_drained(s: ChannelState)
    requires
        s.wf(),
        s.cursor is Idle,
    ensures
        s.keepalive ==> (s.timer <==> s.drained()),
        !s.keepalive ==> !s.timer,
{
}

/// The idle timer is started only for a connection that keeps alive and has
/// nothing in flight, with the configured idle time, and it runs only while
/// that is so.
pub proof fn theorem_idle_timer_needs_silence(s: ChannelState, event: Event)
    requires
        s.wf(),
    ensures
        s.timer ==> s.drained() && s.keepalive && !s.error,
        s.pending() is ArmTimer ==> s.drained() && s.keepalive && !s.timer,
        s.pending() matches Action::ArmTimer { secs } ==> secs == s.keep_alive_secs && secs > 0,
        s.next(event).timer && !s.timer ==> s.pending() is ArmTimer && event is TimerArmed,
        s.pending() == Action::PollTimer ==> s.timer && s.drained() && s.keepalive,
{
    s.lemma_next_wf(event);
}

/// The idle timeout closes the connection: a suspended connection with
/// nothing in flight asks its reader when it is woken; when the reader has
/// nothing, not even a byte of a new request, it asks its timer, and it
/// closes in good order when the timer has run out.
pub proof fn theorem_idle_timeout_closes(s: ChannelState)
    requires
        s.wf(),
        s.cursor is Idle,
        s.keepalive,
        s.drained(),
    ensures
        s.next(Event::Wake).pending() == Action::Parse,
        s.next(Event::Wake).next(Event::ReadPending { partial: false }).pending()
            == Action::PollTimer,
        s.next(Event::Wake).next(Event::ReadPending { partial: false }).next(
            Event::TimerFired,
        ).pending() == Action::Close,
        s.next(Event::Wake).next(Event::ReadPending { partial: false }).next(
            Event::TimerPending,
        ).pending() == Action::Suspend,
{
    let r = ChannelState { progress: false, ..s };
    assert(r.scan_items(0) == r.scan_inactive(0));
    assert(r.scan_inactive(0) == r.read_step());
}

/// The reader comes before the timer: in every poll the driver asks the
/// reader first, so that a request that is ready together with the timer
/// wins. The request stops the timer as it joins the queue, and the timer is
/// not asked while anything is in flight.
pub proof fn theorem_request_wins_over_timer(s: ChannelState, id: u64)
    requires
        s.wf(),
        s.cursor is Idle,
        s.timer,
    ensures
        s.next(Event::Wake).pending() == Action::Parse,
        !s.next(Event::Wake).next(Event::Request { id }).timer,
        s.next(Event::Wake).next(Event::Request { id }).pending() == (Action::PollIo { id }),
        s.next(Event::Wake).next(Event::Request { id }).next(Event::TimerFired) == s.next(
            Event::Wake,
        ).next(Event::Request { id }),
{
    let r = ChannelState { progress: false, ..s };
    assert(r.scan_items(0) == r.scan_inactive(0));
    assert(r.scan_inactive(0) == r.read_step());
    let t = s.next(Event::Wake);
    s.lemma_next_wf(Event::Wake);
    let a = t.accept(id);
    t.lemma_accept_inv(id);
    assert(a.items[0] == Entry::spec_fresh(id));
    let b = ChannelState { progress: false, ..a };
    assert(b.scan_items(0) == ChannelState { cursor: Cursor::Head, ..b });
}

/// Bytes of a new request cancel the pending close: on the report that such
/// bytes have arrived the idle timer stops, so that its old deadline counts
/// no more. A report that the timer has run out changes nothing then, and
/// the timer is asked again only after it has been started anew.
pub proof fn theorem_bytes_cancel_the_close(s: ChannelState)
    requires
        s.wf(),
        s.cursor is Read,
    ensures
        ({
            let t = s.next(Event::ReadPending { partial: true });
            &&& !t.timer
            &&& t.pending() != Action::PollTimer
            &&& t.next(Event::TimerFired) == t
            &&& s.keepalive ==> !(t.cursor is Closed)
            &&& s.keepalive && s.drained() && !s.progress ==> t.pending() == (Action::ArmTimer {
                secs: s.keep_alive_secs,
            })
        }),
{
    let e = Event::ReadPending { partial: true };
    s.lemma_next_wf(e);
    let r = ChannelState { timer: false, ..s };
    if !(r.drained() && !r.keepalive && r.served) && r.progress {
        ChannelState { progress: false, ..r }.lemma_scan_items(0);
        if s.keepalive {
            lemma_scan_items_stays_open(ChannelState { progress: false, ..r }, 0);
        }
    }
}

/// A request that arrives before the timer has run out cancels the close:
/// the timer stops as the request joins the queue, and it is not asked for
/// again while anything is in flight.
pub proof fn theorem_request_stops_idle_timer(s: ChannelState, id: u64, events: Seq<Event>)
    requires
        s.wf(),
        s.cursor is Read,
    ensures
        !s.next(Event::Request { id }).timer,
        s.next(Event::Request { id }).items == s.items.push(Entry::spec_fresh(id)),
        !s.next(Event::Request { id }).run(events).drained() ==> s.next(Event::Request { id }).run(
            events,
        ).pending() != Action::PollTimer,
{
    let t = s.next(Event::Request { id });
    s.lemma_next_wf(Event::Request { id });
    assert(s.admits(Event::Request { id }, id));
    lemma_run_keeps_configuration(t, events);
}

/// A malformed request is answered by exactly one error response: its entry
/// joins the queue behind the requests read before, which stay as they are
/// and in their order; keep-alive ends and the reader is closed.
pub proof fn theorem_malformed_request_gets_one_reply(s: ChannelState, id: u64)
    requires
        s.wf(),
        s.cursor is Read,
    ensures
        s.next(Event::ParseFailed { reply: Some(id) }).items == s.items.push(Entry::spec_fresh(id)),
        s.next(Event::ParseFailed { reply: Some(id) }).parsed == s.parsed.push(id),
        s.next(Event::ParseFailed { reply: Some(id) }).flushed == s.flushed,
        s.next(Event::ParseFailed { reply: Some(id) }).error,
        !s.next(Event::ParseFailed { reply: Some(id) }).keepalive,
{
    let e = Event::ParseFailed { reply: Some(id) };
    s.lemma_next_wf(e);
    assert(s.admits(e, id));
    theorem_keepalive_ends(s, e);
}

/// After the end or a failure of the reader nothing more is read from the
/// connection:
/// the reader is never asked again and no request joins the queue, whatever
/// follows, while the requests in flight go on as the other theorems say.
pub proof fn theorem_nothing_is_read_after_failure(s: ChannelState, events: Seq<Event>)
    requires
        s.wf(),
        s.error,
    ensures
        s.run(events).error,
        s.run(events).parsed == s.parsed,
        s.run(events).pending() != Action::Parse,
    decreases events.len(),
{
    if events.len() > 0 {
        theorem_nothing_is_read_after_failure(s, events.drop_last());
        lemma_run_keeps_configuration(s, events.drop_last());
        s.run(events.drop_last()).lemma_next_wf(events.last());
    }
}

/// The driver suspends only at a fixed point: when a connection that has been
/// polled is told to wait, no piece of outside work in the last pass has
/// changed anything.
pub proof fn theorem_suspends_only_without_progress(s: ChannelState)
    requires
        s.wf(),
        s.pending() == Action::Suspend,
        !(s.cursor is Fresh),
    ensures
        !s.progress,
        s.cursor is Idle,
{
}

/// A failed head ends the connection at once, and so does a failure of the
/// transport: nothing more is polled or written.
pub proof fn theorem_failure_aborts(s: ChannelState, events: Seq<Event>)
    requires
        s.wf(),
        s.cursor is Head,
    ensures
        s.next(Event::IoFailed).pending() == Action::Abort,
        s.next(Event::IoFailed).run(events) == s.next(Event::IoFailed),
    decreases events.len(),
{
    if events.len() > 0 {
        theorem_failure_aborts(s, events.drop_last());
    }
}

/// A pass begins at the head: while a request is in flight, the first thing
/// that a pass asks for is the head's invocation and write, and a head whose
/// invocation has failed ends the connection.
pub proof fn theorem_pass_begins_at_the_head(s: ChannelState)
    requires
        s.inv(),
        s.items.len() > 0,
    ensures
        !s.items[0].error ==> s.begin_pass().pending() == (Action::PollIo { id: s.items[0].id }),
        s.items[0].error ==> s.begin_pass().pending() == Action::Abort,
{
}

/// No request behind the head is passed over: a scan of the queue stops at
/// the first entry at or behind its start whose invocation is unresolved,
/// and asks for that invocation to be polled, without the right to write.
pub proof fn theorem_every_unresolved_entry_is_polled(s: ChannelState, i: nat, j: nat)
    requires
        s.inv(),
        0 < i <= j < s.items.len(),
        !s.items[j as int].spec_resolved(),
        forall|k: int| i <= k < j ==> (#[trigger] s.items[k]).spec_resolved(),
    ensures
        s.scan_items(i) == (ChannelState { cursor: Cursor::Tail(j), ..s }),
        s.scan_items(i).pending() == (Action::PollTask { id: s.items[j as int].id }),
    decreases j - i,
{
    if i < j {
        assert(s.items[i as int].spec_resolved());
        theorem_every_unresolved_entry_is_polled(s, i + 1, j);
    }
}

/// The end of the stream is a clean shutdown: reading ends, what is in
/// flight stays as it is and goes on, and a connection with nothing in
/// flight closes in good order.
pub proof fn theorem_end_of_stream_closes_in_good_order(s: ChannelState)
    requires
        s.wf(),
        s.cursor is Read,
    ensures
        s.next(Event::ReadEnd).error,
        !s.next(Event::ReadEnd).broken,
        s.next(Event::ReadEnd).items == s.items,
        s.next(Event::ReadEnd).parsed == s.parsed,
        s.drained() ==> s.next(Event::ReadEnd).pending() == Action::Close,
{
    s.lemma_next_wf(Event::ReadEnd);
    s.end_read().lemma_end_pass();
    assert forall|id: u64| !s.admits(Event::ReadEnd, id) by {}
}

/// A request that cannot be answered breaks the connection: reading ends,
/// what is in flight stays as it is and goes on, and the connection never
/// closes in good order, whatever follows; with nothing in flight it is
/// given up at once.
pub proof fn theorem_unanswerable_request_aborts(s: ChannelState, events: Seq<Event>)
    requires
        s.wf(),
        s.cursor is Read,
    ensures
        s.next(Event::ParseFailed { reply: None }).items == s.items,
        s.next(Event::ParseFailed { reply: None }).parsed == s.parsed,
        s.drained() ==> s.next(Event::ParseFailed { reply: None }).pending() == Action::Abort,
        s.next(Event::ParseFailed { reply: None }).run(events).pending() != Action::Close,
        s.next(Event::ParseFailed { reply: None }).run(events).pending() != Action::Parse,
{
    let e = Event::ParseFailed { reply: None };
    s.lemma_next_wf(e);
    s.lemma_fail_read_inv(None);
    s.fail_read(None).lemma_end_pass();
    assert forall|id: u64| !s.admits(e, id) by {}
    lemma_broken_stays(s.next(e), events);
    theorem_nothing_is_read_after_failure(s.next(e), events);
}

/// A broken connection stays broken.
pub proof fn lemma_broken_stays(s: ChannelState, events: Seq<Event>)
    requires
        s.wf(),
        s.broken,
    ensures
        s.run(events).wf(),
        s.run(events).broken,
    decreases events.len(),
{
    if events.len() > 0 {
        lemma_broken_stays(s, events.drop_last());
        s.run(events.drop_last()).lemma_next_wf(events.last());
    }
}

/// A request leaves the connection only when it has been answered: the
/// response of every request that is handed over as retired, and of every
/// request in the overflow set, has been written in full.
pub proof fn theorem_only_answered_requests_retire(
    depth: usize,
    keep_alive_secs: u64,
    events: Seq<Event>,
)
    requires
        depth >= 1,
    ensures
        ({
            let s = ChannelState::init(depth, keep_alive_secs).run(events);
            &&& forall|i: int|
                0 <= i < s.retired.len() ==> s.flushed.contains(#[trigger] s.retired[i])
            &&& forall|i: int|
                0 <= i < s.inactive.len() ==> (#[trigger] s.inactive[i]).eof && s.flushed.contains(
                    s.inactive[i].id,
                )
        }),
{
    theorem_reachable_states_are_well_formed(depth, keep_alive_secs, events);
}

} // verus!
