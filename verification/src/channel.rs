//! The connection driver for pipelined HTTP/1 requests.
//!
//! One connection carries many requests, answered in the order in which they
//! arrived. The driver owns the queue of requests in flight and decides, after
//! every piece of outside work, what is to be done next: which request may
//! write to the transport, which ones may only compute, when the reader may be
//! asked for another request, when the idle timer runs and when the connection
//! is over. The transport, the reader, the application's handlers and the
//! timer stay with the caller: the driver names the work as an [`Action`] and
//! takes its result as an [`Event`].
//!
//! [`ChannelState`] is the mathematical model of a driver and
//! [`ChannelState::next`] its transition function. [`HttpChannel`] is the
//! executable driver, proved to follow the model step by step.

use std::collections::VecDeque;
use vstd::prelude::*;

verus! {

/// The number of requests that may be in flight on one connection unless
/// configured otherwise.
pub const MAX_PIPELINED_MESSAGES: usize = 16;

/// The idle time, in seconds, after which a connection with nothing in flight
/// is closed unless configured otherwise.
pub const KEEPALIVE_PERIOD: u64 = 15;

/// One request in flight.
///
/// `id` is the caller's name for the request and for the invocation of the
/// application that answers it.
#[derive(Clone, Copy, Debug, PartialEq, Eq, Structural)]
pub struct Entry {
    /// The caller's name for the request.
    pub id: u64,
    /// The response has been written in full.
    pub eof: bool,
    /// The invocation has failed.
    pub error: bool,
    /// The invocation has come to its end.
    pub finished: bool,
}

impl Entry {
    /// The entry of a request that has just been read.
    pub open spec fn spec_fresh(id: u64) -> Entry {
        Entry { id, eof: false, error: false, finished: false }
    }

    /// Makes the entry of a request that has just been read.
    #[verifier::when_used_as_spec(spec_fresh)]
    pub fn fresh(id: u64) -> (e: Entry)
        ensures
            e == Entry::spec_fresh(id),
    {
        Entry { id, eof: false, error: false, finished: false }
    }

    /// Whether the invocation needs no further polling.
    pub open spec fn spec_resolved(self) -> bool {
        self.finished || self.error
    }

    /// Tells whether the invocation needs no further polling.
    #[verifier::when_used_as_spec(spec_resolved)]
    pub fn resolved(self) -> (r: bool)
        ensures
            r == self.spec_resolved(),
    {
        self.finished || self.error
    }
}

/// Where the driver stands within a poll of the connection.
pub enum Cursor {
    /// Created and not polled yet.
    Fresh,
    /// Suspended until the caller is woken.
    Idle,
    /// Waiting for the state of the idle timer.
    Timer,
    /// Waiting for the head entry's invocation and write.
    Head,
    /// Waiting for the invocation of the queue entry at this index.
    Tail(nat),
    /// Waiting for the invocation of the overflow entry at this index.
    Overflow(nat),
    /// Waiting for the reader.
    Read,
    /// Waiting for the idle timer to be started.
    Arming,
    /// The connection has ended in good order.
    Closed,
    /// The connection has been given up.
    Aborted,
}

/// What the caller is to do next.
#[derive(Clone, Copy, Debug, PartialEq, Eq, Structural)]
pub enum Action {
    /// Poll the idle timer and answer with `TimerFired` or `TimerPending`.
    /// The timer is asked only after the reader, and only when the reader
    /// has nothing new.
    PollTimer,
    /// Poll the invocation of this request and let it write its response to
    /// the transport. Answer with `IoDone`, `IoProgress`, `IoPending` or
    /// `IoFailed`.
    PollIo { id: u64 },
    /// Poll the invocation of this request; nothing of it may be written.
    /// Answer with `TaskDone`, `TaskPending` or `TaskFailed`.
    PollTask { id: u64 },
    /// Ask the reader for the next request. Answer with `Request`,
    /// `ReadEnd`, `ParseFailed` or `ReadPending`. The reader is asked before
    /// the idle timer in every poll.
    Parse,
    /// Start the idle timer with this many seconds, in place of one that
    /// may still run, and answer with `TimerArmed`.
    ArmTimer { secs: u64 },
    /// Nothing can be done now: wait to be woken, then answer with `Wake`.
    Suspend,
    /// The connection is over; it ended in good order.
    Close,
    /// The connection is over; it cannot be recovered.
    Abort,
}

/// What the caller reports back.
#[derive(Clone, Copy, Debug, PartialEq, Eq)]
pub enum Event {
    /// The caller has been woken.
    Wake,
    /// The idle timer has run out.
    TimerFired,
    /// The idle timer is still running.
    TimerPending,
    /// The head's response has been written in full. `finished` tells whether
    /// its invocation has ended too, `keepalive` whether the response lets the
    /// connection be used again.
    IoDone { finished: bool, keepalive: bool },
    /// A part of the head's response has been written, more is to come, and
    /// the transport takes more.
    IoProgress,
    /// The head cannot go on now: its invocation is not ready, or the
    /// transport takes no more.
    IoPending,
    /// The head's invocation or the transport has failed.
    IoFailed,
    /// The polled invocation has ended.
    TaskDone,
    /// The polled invocation cannot go on now.
    TaskPending,
    /// The polled invocation has failed.
    TaskFailed,
    /// The reader has parsed a request; its invocation has been started under
    /// this name.
    Request { id: u64 },
    /// The reader has met the end of the stream where a request would begin:
    /// the client has closed the connection in good order.
    ReadEnd,
    /// The reader has met a malformed or truncated request. `reply` names
    /// the error response that answers it, if one can be sent; none can once
    /// a part of the request has been consumed.
    ParseFailed { reply: Option<u64> },
    /// The reader has no complete request yet. `partial` tells whether bytes
    /// of a new request have arrived since the reader was last asked.
    ReadPending { partial: bool },
    /// The idle timer has been started.
    TimerArmed,
}

/// The model of a connection driver.
pub struct ChannelState {
    /// The requests whose responses have not been written in full, oldest
    /// first.
    pub items: Seq<Entry>,
    /// The overflow set: requests whose responses have been written while
    /// their invocations still run.
    pub inactive: Seq<Entry>,
    /// The reader has ended or failed; nothing more is read.
    pub error: bool,
    /// The reader has met a request that cannot be answered: the connection
    /// will not end in good order.
    pub broken: bool,
    /// The connection may be used again after a response.
    pub keepalive: bool,
    /// The idle timer is running.
    pub timer: bool,
    /// A response has been written in full on this connection.
    pub served: bool,
    /// The pipelining depth ceiling.
    pub depth: nat,
    /// The idle time in seconds; zero turns keep-alive off.
    pub keep_alive_secs: u64,
    /// The work that is awaited.
    pub cursor: Cursor,
    /// A piece of outside work in the current pass has changed something.
    pub progress: bool,
    /// Every request taken into the queue so far, in the order of arrival.
    pub parsed: Seq<u64>,
    /// Every request whose response has been written in full, in the order of
    /// writing.
    pub flushed: Seq<u64>,
    /// The requests that have left the connection since the caller last
    /// asked: their responses are written and their invocations have ended,
    /// so that the caller may drop what it holds for them.
    pub retired: Seq<u64>,
}

/// The names of the requests in a queue, in its order.
pub open spec fn ids(q: Seq<Entry>) -> Seq<u64> {
    Seq::new(q.len(), |i: int| q[i].id)
}

/// One if the flag is set, zero if not.
pub open spec fn flag(b: bool) -> nat {
    if b {
        1
    } else {
        0
    }
}

impl ChannelState {
    /// The state of a connection that has just been accepted.
    pub open spec fn init(depth: usize, keep_alive_secs: u64) -> ChannelState {
        ChannelState {
            items: Seq::empty(),
            inactive: Seq::empty(),
            error: false,
            broken: false,
            keepalive: keep_alive_secs != 0,
            timer: false,
            served: false,
            depth: depth as nat,
            keep_alive_secs,
            cursor: Cursor::Fresh,
            progress: false,
            parsed: Seq::empty(),
            flushed: Seq::empty(),
            retired: Seq::empty(),
        }
    }

    /// Nothing is in flight.
    pub open spec fn drained(self) -> bool {
        self.items.len() == 0 && self.inactive.len() == 0
    }

    /// The reader may be asked for a request.
    pub open spec fn may_read(self) -> bool {
        !self.error && self.items.len() < self.depth
    }

    /// The action that answers to the cursor: what the caller has been asked
    /// to do and has not reported on yet.
    pub open spec fn pending(self) -> Action {
        match self.cursor {
            Cursor::Fresh => Action::Suspend,
            Cursor::Idle => Action::Suspend,
            Cursor::Timer => Action::PollTimer,
            Cursor::Head => Action::PollIo { id: self.items[0].id },
            Cursor::Tail(i) => Action::PollTask { id: self.items[i as int].id },
            Cursor::Overflow(i) => Action::PollTask { id: self.inactive[i as int].id },
            Cursor::Read => Action::Parse,
            Cursor::Arming => Action::ArmTimer { secs: self.keep_alive_secs },
            Cursor::Closed => Action::Close,
            Cursor::Aborted => Action::Abort,
        }
    }

    /// The connection ends with nothing in flight: in good order, unless
    /// the reader has met a request that cannot be answered.
    pub open spec fn close(self) -> ChannelState {
        ChannelState {
            cursor: if self.broken {
                Cursor::Aborted
            } else {
                Cursor::Closed
            },
            timer: false,
            ..self
        }
    }

    /// The connection is given up.
    pub open spec fn abort(self) -> ChannelState {
        ChannelState { cursor: Cursor::Aborted, timer: false, ..self }
    }

    /// Goes through the queue from index `i` on and stops at the first entry
    /// that needs outside work: the head, unless it has failed, which ends the
    /// connection; behind it every entry whose invocation is unresolved.
    pub open spec fn scan_items(self, i: nat) -> ChannelState
        decreases flag(self.progress), 3nat, self.items.len() - i,
    {
        if i >= self.items.len() {
            self.scan_inactive(0)
        } else if i == 0 {
            if self.items[0].error {
                self.abort()
            } else {
                ChannelState { cursor: Cursor::Head, ..self }
            }
        } else if !self.items[i as int].spec_resolved() {
            ChannelState { cursor: Cursor::Tail(i), ..self }
        } else {
            self.scan_items(i + 1)
        }
    }

    /// Goes through the overflow set from index `i` on: retires resolved
    /// entries at its front and stops at the first unresolved invocation.
    pub open spec fn scan_inactive(self, i: nat) -> ChannelState
        decreases flag(self.progress), 2nat, self.inactive.len() - i,
    {
        if i >= self.inactive.len() {
            self.read_step()
        } else if i == 0 && self.inactive[0].spec_resolved() {
            self.retire_overflow().scan_inactive(0)
        } else if !self.inactive[i as int].spec_resolved() {
            ChannelState { cursor: Cursor::Overflow(i), ..self }
        } else {
            self.scan_inactive(i + 1)
        }
    }

    /// The entry at the front of the overflow set leaves the connection.
    pub open spec fn retire_overflow(self) -> ChannelState {
        ChannelState {
            inactive: self.inactive.skip(1),
            retired: self.retired.push(self.inactive[0].id),
            ..self
        }
    }

    /// Turns to the reader if it may be asked, and ends the pass if not.
    pub open spec fn read_step(self) -> ChannelState
        decreases flag(self.progress), 1nat, 0nat,
    {
        if self.may_read() {
            ChannelState { cursor: Cursor::Read, ..self }
        } else {
            self.end_pass()
        }
    }

    /// Ends a pass: the connection closes when the reader has failed and
    /// nothing is in flight; another pass follows if this one has changed
    /// anything; if not, the driver suspends.
    pub open spec fn end_pass(self) -> ChannelState
        decreases flag(self.progress), 0nat, 0nat,
    {
        if self.drained() && self.error {
            self.close()
        } else if self.progress {
            ChannelState { progress: false, ..self }.scan_items(0)
        } else {
            ChannelState { cursor: Cursor::Idle, ..self }
        }
    }

    /// Begins a pass at the head of the queue.
    pub open spec fn begin_pass(self) -> ChannelState {
        ChannelState { progress: false, ..self }.scan_items(0)
    }

    /// The head's response has been written in full: the head leaves the
    /// queue, for the overflow set if its invocation still runs and else for
    /// good, and the connection keeps alive only if it did so before and the
    /// response agrees.
    pub open spec fn retire_head(self, finished: bool, keepalive: bool) -> ChannelState {
        let head = self.items[0];
        ChannelState {
            items: self.items.skip(1),
            inactive: if finished {
                self.inactive
            } else {
                self.inactive.push(Entry { eof: true, ..head })
            },
            keepalive: self.keepalive && keepalive,
            served: true,
            flushed: self.flushed.push(head.id),
            retired: if finished {
                self.retired.push(head.id)
            } else {
                self.retired
            },
            progress: true,
            ..self
        }
    }

    /// A request has been read: the idle timer stops and the request joins
    /// the queue at its end.
    pub open spec fn accept(self, id: u64) -> ChannelState {
        ChannelState {
            timer: false,
            items: self.items.push(Entry::spec_fresh(id)),
            parsed: self.parsed.push(id),
            progress: true,
            ..self
        }
    }

    /// The reader has ended: keep-alive and the idle timer end, and nothing
    /// more is read. What is in flight goes on.
    pub open spec fn end_read(self) -> ChannelState {
        ChannelState { keepalive: false, timer: false, error: true, progress: true, ..self }
    }

    /// The reader has met a malformed request: reading ends, and the error
    /// response joins the queue if there is one. Without one the request
    /// cannot be answered, and the connection will be given up once what is
    /// in flight has been served.
    pub open spec fn fail_read(self, reply: Option<u64>) -> ChannelState {
        let s = self.end_read();
        match reply {
            Some(id) => ChannelState {
                items: s.items.push(Entry::spec_fresh(id)),
                parsed: s.parsed.push(id),
                ..s
            },
            None => ChannelState { broken: true, ..s },
        }
    }

    /// The reader has no complete request yet. Bytes of a new request stop
    /// the idle timer: its deadline counts no more. A connection that does
    /// not keep alive closes once it has answered a request and has nothing
    /// in flight. If the pass has changed anything, another follows. If not,
    /// the driver comes to rest: with nothing in flight on a connection that
    /// keeps alive it starts the idle timer if none runs and else asks the
    /// one that runs; in every other case it suspends.
    pub open spec fn read_pending(self, partial: bool) -> ChannelState {
        let s = ChannelState { timer: self.timer && !partial, ..self };
        if s.drained() && !s.keepalive && s.served {
            s.close()
        } else if s.progress {
            s.begin_pass()
        } else if s.drained() && s.keepalive {
            if s.timer {
                ChannelState { cursor: Cursor::Timer, ..s }
            } else {
                ChannelState { cursor: Cursor::Arming, ..s }
            }
        } else {
            ChannelState { cursor: Cursor::Idle, ..s }
        }
    }

    /// The event is the report that the head's response has been written.
    pub open spec fn flushes(self, event: Event) -> bool {
        self.cursor is Head && event is IoDone
    }

    /// The event takes keep-alive from the connection: the head's response
    /// has been written and does not allow it, or the reader has ended or
    /// failed.
    pub open spec fn ends_keepalive(self, event: Event) -> bool {
        match (self.cursor, event) {
            (Cursor::Head, Event::IoDone { finished, keepalive }) => !keepalive,
            (Cursor::Read, Event::ReadEnd) => true,
            (Cursor::Read, Event::ParseFailed { reply }) => true,
            _ => false,
        }
    }

    /// The event gives the reader's answer a place in the queue under `id`.
    pub open spec fn admits(self, event: Event, id: u64) -> bool {
        self.cursor is Read && (event == (Event::Request { id }) || event == (Event::ParseFailed {
            reply: Some(id),
        }))
    }

    /// The event is the report that the idle timer has been started.
    pub open spec fn arms(self, event: Event) -> bool {
        self.cursor is Arming && event is TimerArmed
    }

    /// The state with the flags of the queue entry at index `i` replaced.
    pub open spec fn mark_item(self, i: int, finished: bool, error: bool) -> ChannelState {
        ChannelState {
            items: self.items.update(i, Entry { finished, error, ..self.items[i] }),
            progress: true,
            ..self
        }
    }

    /// The state with the flags of the overflow entry at index `i` replaced.
    pub open spec fn mark_inactive(self, i: int, finished: bool, error: bool) -> ChannelState {
        ChannelState {
            inactive: self.inactive.update(i, Entry { finished, error, ..self.inactive[i] }),
            progress: true,
            ..self
        }
    }

    /// The transition function: the state after the caller has reported
    /// `event`. An event that does not answer the awaited action changes
    /// nothing.
    pub open spec fn next(self, event: Event) -> ChannelState {
        match (self.cursor, event) {
            (Cursor::Fresh, Event::Wake) => self.begin_pass(),
            (Cursor::Idle, Event::Wake) => self.begin_pass(),
            (Cursor::Timer, Event::TimerFired) => self.close(),
            (Cursor::Timer, Event::TimerPending) => ChannelState { cursor: Cursor::Idle, ..self },
            (Cursor::Head, Event::IoDone { finished, keepalive }) => {
                let s = self.retire_head(finished, keepalive);
                if finished && !s.keepalive && s.drained() {
                    s.close()
                } else {
                    s.scan_items(0)
                }
            },
            (Cursor::Head, Event::IoProgress) => ChannelState { progress: true, ..self }.scan_items(
                1,
            ),
            (Cursor::Head, Event::IoPending) => self.scan_items(1),
            (Cursor::Head, Event::IoFailed) => self.abort(),
            (Cursor::Tail(i), Event::TaskDone) => self.mark_item(i as int, true, false).scan_items(
                i + 1,
            ),
            (Cursor::Tail(i), Event::TaskFailed) => self.mark_item(
                i as int,
                false,
                true,
            ).scan_items(i + 1),
            (Cursor::Tail(i), Event::TaskPending) => self.scan_items(i + 1),
            (Cursor::Overflow(i), Event::TaskDone) => self.mark_inactive(
                i as int,
                true,
                false,
            ).scan_inactive(i + 1),
            (Cursor::Overflow(i), Event::TaskFailed) => self.mark_inactive(
                i as int,
                false,
                true,
            ).scan_inactive(i + 1),
            (Cursor::Overflow(i), Event::TaskPending) => self.scan_inactive(i + 1),
            (Cursor::Read, Event::Request { id }) => self.accept(id).end_pass(),
            (Cursor::Read, Event::ReadEnd) => self.end_read().end_pass(),
            (Cursor::Read, Event::ParseFailed { reply }) => self.fail_read(reply).end_pass(),
            (Cursor::Read, Event::ReadPending { partial }) => self.read_pending(partial),
            (Cursor::Arming, Event::TimerArmed) => ChannelState {
                timer: true,
                cursor: Cursor::Idle,
                ..self
            },
            _ => self,
        }
    }

    /// What holds of the queues and flags of every driver, wherever its cursor
    /// stands.
    pub open spec fn inv(self) -> bool {
        &&& self.depth >= 1
        &&& self.items.len() <= self.depth
        &&& self.parsed == self.flushed + ids(self.items)
        &&& self.timer ==> self.drained() && self.keepalive
        &&& self.keepalive ==> !self.error && self.keep_alive_secs != 0
        &&& self.broken ==> self.error
        &&& self.served <==> self.flushed.len() > 0
        &&& forall|i: int| 0 <= i < self.items.len() ==> !(#[trigger] self.items[i]).eof
        &&& forall|i: int| 0 <= i < self.inactive.len() ==> (#[trigger] self.inactive[i]).eof
        &&& forall|i: int|
            0 <= i < self.inactive.len() ==> self.flushed.contains((#[trigger] self.inactive[i]).id)
        &&& forall|i: int|
            0 <= i < self.retired.len() ==> self.flushed.contains(#[trigger] self.retired[i])
    }

    /// What holds of the cursor of every driver.
    pub open spec fn cursor_ok(self) -> bool {
        match self.cursor {
            Cursor::Fresh => self.drained() && !self.timer && !self.error && !self.served,
            Cursor::Idle => !self.progress && (self.drained() ==> if self.keepalive {
                self.timer
            } else {
                !self.served
            }),
            Cursor::Timer => self.timer && !self.progress,
            Cursor::Head => self.items.len() > 0 && !self.items[0].error,
            Cursor::Tail(i) => 0 < i < self.items.len() && !self.items[i as int].spec_resolved(),
            Cursor::Overflow(i) => i < self.inactive.len()
                && !self.inactive[i as int].spec_resolved(),
            Cursor::Read => self.may_read(),
            Cursor::Arming => self.drained() && self.keepalive && !self.timer && !self.progress,
            Cursor::Closed => !self.timer && !self.broken,
            Cursor::Aborted => !self.timer,
        }
    }

    /// The invariant of the driver: every state that a connection can reach
    /// is well formed.
    pub open spec fn wf(self) -> bool {
        self.inv() && self.cursor_ok()
    }

    /// What a scan of the queues leaves as it was: the queue, the record of
    /// what was read and written, and the connection's flags, but for an idle
    /// timer that a closing connection stops.
    pub open spec fn settles_to(self, t: ChannelState) -> bool {
        &&& t.items == self.items
        &&& t.parsed == self.parsed
        &&& t.flushed == self.flushed
        &&& t.keepalive == self.keepalive
        &&& t.error == self.error
        &&& t.broken == self.broken
        &&& t.served == self.served
        &&& t.depth == self.depth
        &&& t.keep_alive_secs == self.keep_alive_secs
        &&& t.timer ==> self.timer
        &&& t.inactive.len() <= self.inactive.len()
    }

    /// A scan of the queue from any index leads a sound state to a well-formed
    /// one and leaves the traffic as it was.
    pub proof fn lemma_scan_items(self, i: nat)
        requires
            self.inv(),
        ensures
            self.scan_items(i).wf(),
            self.settles_to(self.scan_items(i)),
        decreases flag(self.progress), 3nat, self.items.len() - i,
    {
        if i >= self.items.len() {
            self.lemma_scan_inactive(0);
        } else if i == 0 {
        } else if !self.items[i as int].spec_resolved() {
        } else {
            self.lemma_scan_items(i + 1);
        }
    }

    /// A scan of the overflow set from any index leads a sound state to a
    /// well-formed one and leaves the traffic as it was.
    pub proof fn lemma_scan_inactive(self, i: nat)
        requires
            self.inv(),
        ensures
            self.scan_inactive(i).wf(),
            self.settles_to(self.scan_inactive(i)),
        decreases flag(self.progress), 2nat, self.inactive.len() - i,
    {
        if i >= self.inactive.len() {
            self.lemma_read_step();
        } else if i == 0 && self.inactive[0].spec_resolved() {
            self.lemma_retire_overflow_inv();
            self.retire_overflow().lemma_scan_inactive(0);
        } else if !self.inactive[i as int].spec_resolved() {
        } else {
            self.lemma_scan_inactive(i + 1);
        }
    }

    /// Retiring the front of the overflow set keeps the state sound.
    pub proof fn lemma_retire_overflow_inv(self)
        requires
            self.inv(),
            self.inactive.len() > 0,
        ensures
            self.retire_overflow().inv(),
    {
        let s = self.retire_overflow();
        assert forall|k: int| 0 <= k < s.inactive.len() implies (#[trigger] s.inactive[k]).eof
            && s.flushed.contains(s.inactive[k].id) by {
            assert(s.inactive[k] == self.inactive[k + 1]);
        }
        assert(self.flushed.contains(self.inactive[0].id));
    }

    /// The step to the reader leads a sound state to a well-formed one.
    pub proof fn lemma_read_step(self)
        requires
            self.inv(),
        ensures
            self.read_step().wf(),
            self.settles_to(self.read_step()),
        decreases flag(self.progress), 1nat, 0nat,
    {
        if !self.may_read() {
            self.lemma_end_pass();
        }
    }

    /// The end of a pass leads a sound state to a well-formed one, where the
    /// pass has changed something or the reader may not be asked.
    pub proof fn lemma_end_pass(self)
        requires
            self.inv(),
            self.progress || !self.may_read(),
        ensures
            self.end_pass().wf(),
            self.settles_to(self.end_pass()),
        decreases flag(self.progress), 0nat, 0nat,
    {
        if self.drained() && self.error {
        } else if self.progress {
            ChannelState { progress: false, ..self }.lemma_scan_items(0);
        } else {
        }
    }

    /// One step of a well-formed driver: the state stays well formed, the
    /// configuration stays, keep-alive does not come back and ends where the
    /// event ends it, a reader that has ended stays ended, the record of
    /// written responses grows only by the head when its flush is reported,
    /// the record of requests grows only by what the reader delivered, and
    /// the idle timer starts only on the report that it has been started.
    pub proof fn lemma_next_wf(self, event: Event)
        requires
            self.wf(),
        ensures
            self.next(event).wf(),
            self.next(event).depth == self.depth,
            self.next(event).keep_alive_secs == self.keep_alive_secs,
            self.next(event).keepalive ==> self.keepalive,
            self.ends_keepalive(event) ==> !self.next(event).keepalive,
            self.error ==> self.next(event).error,
            self.broken ==> self.next(event).broken,
            self.served ==> self.next(event).served,
            self.next(event).broken && !self.broken ==> self.cursor is Read && event == (
            Event::ParseFailed { reply: None }),
            self.flushes(event) ==> self.next(event).flushed == self.flushed.push(self.items[0].id)
                && self.next(event).items == self.items.skip(1),
            !self.flushes(event) ==> self.next(event).flushed == self.flushed,
            forall|id: u64|
                self.admits(event, id) ==> self.next(event).parsed == self.parsed.push(id)
                    && self.next(event).items == self.items.push(Entry::spec_fresh(id)),
            (forall|id: u64| !self.admits(event, id)) ==> self.next(event).parsed == self.parsed,
            self.next(event).timer && !self.timer ==> self.arms(event),
    {
        match (self.cursor, event) {
            (Cursor::Fresh, Event::Wake) => {
                ChannelState { progress: false, ..self }.lemma_scan_items(0);
            },
            (Cursor::Idle, Event::Wake) => {
                ChannelState { progress: false, ..self }.lemma_scan_items(0);
            },
            (Cursor::Head, Event::IoDone { finished, keepalive }) => {
                let s = self.retire_head(finished, keepalive);
                self.lemma_retire_head_inv(finished, keepalive);
                s.lemma_scan_items(0);
            },
            (Cursor::Head, Event::IoProgress) => {
                ChannelState { progress: true, ..self }.lemma_scan_items(1);
            },
            (Cursor::Head, Event::IoPending) => {
                self.lemma_scan_items(1);
            },
            (Cursor::Tail(i), Event::TaskDone) => {
                self.lemma_mark_item_inv(i as int, true, false);
                self.mark_item(i as int, true, false).lemma_scan_items(i + 1);
            },
            (Cursor::Tail(i), Event::TaskFailed) => {
                self.lemma_mark_item_inv(i as int, false, true);
                self.mark_item(i as int, false, true).lemma_scan_items(i + 1);
            },
            (Cursor::Tail(i), Event::TaskPending) => {
                self.lemma_scan_items(i + 1);
            },
            (Cursor::Overflow(i), Event::TaskDone) => {
                self.mark_inactive(i as int, true, false).lemma_scan_inactive(i + 1);
            },
            (Cursor::Overflow(i), Event::TaskFailed) => {
                self.mark_inactive(i as int, false, true).lemma_scan_inactive(i + 1);
            },
            (Cursor::Overflow(i), Event::TaskPending) => {
                self.lemma_scan_inactive(i + 1);
            },
            (Cursor::Read, Event::Request { id }) => {
                self.lemma_accept_inv(id);
                self.accept(id).lemma_end_pass();
                assert(self.admits(event, id));
            },
            (Cursor::Read, Event::ReadEnd) => {
                self.end_read().lemma_end_pass();
            },
            (Cursor::Read, Event::ParseFailed { reply }) => {
                self.lemma_fail_read_inv(reply);
                self.fail_read(reply).lemma_end_pass();
                match reply {
                    Some(id) => {
                        assert(self.admits(event, id));
                    },
                    None => {},
                }
            },
            (Cursor::Read, Event::ReadPending { partial }) => {
                let s = ChannelState { timer: self.timer && !partial, ..self };
                if s.drained() && !s.keepalive && s.served {
                } else if s.progress {
                    ChannelState { progress: false, ..s }.lemma_scan_items(0);
                }
            },
            _ => {},
        }
    }

    /// Retiring the head keeps the state sound: the record of what was
    /// written grows by the head, and what was read is still what was written
    /// followed by the queue.
    pub proof fn lemma_retire_head_inv(self, finished: bool, keepalive: bool)
        requires
            self.inv(),
            self.items.len() > 0,
        ensures
            self.retire_head(finished, keepalive).inv(),
    {
        let s = self.retire_head(finished, keepalive);
        let head = self.items[0];
        assert(s.parsed =~= s.flushed + ids(s.items));
        assert forall|k: int| 0 <= k < s.items.len() implies !(#[trigger] s.items[k]).eof by {
            assert(s.items[k] == self.items[k + 1]);
        }
        assert(s.flushed[self.flushed.len() as int] == head.id);
        assert forall|x: u64| self.flushed.contains(x) implies s.flushed.contains(x) by {
            let k = choose|k: int| 0 <= k < self.flushed.len() && self.flushed[k] == x;
            assert(s.flushed[k] == x);
        }
        assert forall|k: int| 0 <= k < s.inactive.len() implies s.flushed.contains(
            (#[trigger] s.inactive[k]).id,
        ) by {
            if k < self.inactive.len() {
                assert(self.flushed.contains(self.inactive[k].id));
            }
        }
        assert forall|k: int| 0 <= k < s.retired.len() implies s.flushed.contains(
            #[trigger] s.retired[k],
        ) by {
            if k < self.retired.len() {
                assert(self.flushed.contains(self.retired[k]));
            }
        }
    }

    /// Marking a queue entry keeps the state sound.
    pub proof fn lemma_mark_item_inv(self, i: int, finished: bool, error: bool)
        requires
            self.inv(),
            0 <= i < self.items.len(),
        ensures
            self.mark_item(i, finished, error).inv(),
    {
        let s = self.mark_item(i, finished, error);
        assert(ids(s.items) =~= ids(self.items));
    }

    /// Taking a request into the queue keeps the state sound where the reader
    /// might be asked.
    pub proof fn lemma_accept_inv(self, id: u64)
        requires
            self.inv(),
            self.may_read(),
        ensures
            self.accept(id).inv(),
    {
        let s = self.accept(id);
        assert(s.parsed =~= s.flushed + ids(s.items));
    }

    /// A failure of the reader keeps the state sound where the reader might
    /// be asked.
    pub proof fn lemma_fail_read_inv(self, reply: Option<u64>)
        requires
            self.inv(),
            self.may_read(),
        ensures
            self.fail_read(reply).inv(),
    {
        let s = self.fail_read(reply);
        assert(s.parsed =~= s.flushed + ids(s.items));
    }
}

/// The cursor of the executable driver, with machine indices.
#[derive(Clone, Copy, Debug, PartialEq, Eq, Structural)]
enum Position {
    Fresh,
    Idle,
    Timer,
    Head,
    Tail(usize),
    Overflow(usize),
    Read,
    Arming,
    Closed,
    Aborted,
}

impl Position {
    /// The cursor that the position stands for.
    spec fn cursor(self) -> Cursor {
        match self {
            Position::Fresh => Cursor::Fresh,
            Position::Idle => Cursor::Idle,
            Position::Timer => Cursor::Timer,
            Position::Head => Cursor::Head,
            Position::Tail(i) => Cursor::Tail(i as nat),
            Position::Overflow(i) => Cursor::Overflow(i as nat),
            Position::Read => Cursor::Read,
            Position::Arming => Cursor::Arming,
            Position::Closed => Cursor::Closed,
            Position::Aborted => Cursor::Aborted,
        }
    }
}

/// The driver of one connection.
///
/// The caller reports each [`Event`] to [`HttpChannel::handle`] and does what
/// the returned [`Action`] says, beginning with `Event::Wake`.
pub struct HttpChannel {
    items: VecDeque<Entry>,
    inactive: VecDeque<Entry>,
    error: bool,
    broken: bool,
    keepalive: bool,
    timer: bool,
    served: bool,
    depth: usize,
    keep_alive_secs: u64,
    position: Position,
    progress: bool,
    parsed: Ghost<Seq<u64>>,
    flushed: Ghost<Seq<u64>>,
    retired: Vec<u64>,
}

impl View for HttpChannel {
    type V = ChannelState;

    closed spec fn view(&self) -> ChannelState {
        ChannelState {
            items: self.items@,
            inactive: self.inactive@,
            error: self.error,
            broken: self.broken,
            keepalive: self.keepalive,
            timer: self.timer,
            served: self.served,
            depth: self.depth as nat,
            keep_alive_secs: self.keep_alive_secs,
            cursor: self.position.cursor(),
            progress: self.progress,
            parsed: self.parsed@,
            flushed: self.flushed@,
            retired: self.retired@,
        }
    }
}

impl HttpChannel {
    /// The driver is well formed: its model is.
    pub open spec fn wf(&self) -> bool {
        self@.wf()
    }

    /// Makes the driver of a connection that has just been accepted, with the
    /// given pipelining depth and idle time in seconds; an idle time of zero
    /// turns keep-alive off. A depth of zero admits no request and is refused.
    pub fn new(depth: usize, keep_alive_secs: u64) -> (r: Option<HttpChannel>)
        ensures
            r is None <==> depth == 0,
            r matches Some(c) ==> c.wf() && c@ == ChannelState::init(depth, keep_alive_secs),
    {
        if depth == 0 {
            None
        } else {
            Some(HttpChannel::fresh(depth, keep_alive_secs))
        }
    }

    fn fresh(depth: usize, keep_alive_secs: u64) -> (c: HttpChannel)
        requires
            depth >= 1,
        ensures
            c.wf(),
            c@ == ChannelState::init(depth, keep_alive_secs),
    {
        let c = HttpChannel {
            items: VecDeque::new(),
            inactive: VecDeque::new(),
            error: false,
            broken: false,
            keepalive: keep_alive_secs != 0,
            timer: false,
            served: false,
            depth,
            keep_alive_secs,
            position: Position::Fresh,
            progress: false,
            parsed: Ghost(Seq::empty()),
            flushed: Ghost(Seq::empty()),
            retired: Vec::new(),
        };
        proof {
            assert(c@.parsed =~= c@.flushed + ids(c@.items));
        }
        c
    }

    /// The action that the driver awaits the answer to.
    pub fn pending(&self) -> (action: Action)
        requires
            self.wf(),
        ensures
            action == self@.pending(),
    {
        match self.position {
            Position::Fresh => Action::Suspend,
            Position::Idle => Action::Suspend,
            Position::Timer => Action::PollTimer,
            Position::Head => Action::PollIo { id: self.items[0].id },
            Position::Tail(i) => Action::PollTask { id: self.items[i].id },
            Position::Overflow(i) => Action::PollTask { id: self.inactive[i].id },
            Position::Read => Action::Parse,
            Position::Arming => Action::ArmTimer { secs: self.keep_alive_secs },
            Position::Closed => Action::Close,
            Position::Aborted => Action::Abort,
        }
    }

    /// Whether the connection may be used again after a response.
    pub fn keepalive(&self) -> (r: bool)
        ensures
            r == self@.keepalive,
    {
        self.keepalive
    }

    /// Whether the idle timer is running.
    pub fn timer_armed(&self) -> (r: bool)
        ensures
            r == self@.timer,
    {
        self.timer
    }

    /// Whether the reader has ended or failed.
    pub fn read_closed(&self) -> (r: bool)
        ensures
            r == self@.error,
    {
        self.error
    }

    /// The number of requests whose responses have not been written in full.
    pub fn queue_len(&self) -> (n: usize)
        ensures
            n == self@.items.len(),
    {
        self.items.len()
    }

    /// The number of requests in the overflow set.
    pub fn overflow_len(&self) -> (n: usize)
        ensures
            n == self@.inactive.len(),
    {
        self.inactive.len()
    }

    /// Hands over the names of the requests that have left the connection
    /// since this was last asked, oldest first. Their responses are written
    /// and their invocations have ended: the caller may drop what it holds
    /// for them.
    pub fn take_retired(&mut self) -> (ids: Vec<u64>)
        ensures
            ids@ == old(self)@.retired,
            final(self)@ == (ChannelState { retired: Seq::empty(), ..old(self)@ }),
            old(self).wf() ==> final(self).wf(),
    {
        let mut ids: Vec<u64> = Vec::new();
        std::mem::swap(&mut self.retired, &mut ids);
        ids
    }

    /// Whether the connection is over.
    pub fn is_finished(&self) -> (r: bool)
        ensures
            r == (self@.cursor is Closed || self@.cursor is Aborted),
    {
        match self.position {
            Position::Closed => true,
            Position::Aborted => true,
            _ => false,
        }
    }

    fn close(&mut self)
        ensures
            final(self)@ == old(self)@.close(),
    {
        self.position = if self.broken {
            Position::Aborted
        } else {
            Position::Closed
        };
        self.timer = false;
    }

    fn abort(&mut self)
        ensures
            final(self)@ == old(self)@.abort(),
    {
        self.position = Position::Aborted;
        self.timer = false;
    }

    fn scan_items(&mut self, start: usize)
        requires
            old(self)@.inv(),
        ensures
            final(self)@ == old(self)@.scan_items(start as nat),
        decreases flag(old(self)@.progress), 3nat,
    {
        let ghost s0 = self@;
        let mut i: usize = start;
        while i < self.items.len()
            invariant
                self@ == s0,
                s0 == old(self)@,
                s0.inv(),
                s0.scan_items(i as nat) == s0.scan_items(start as nat),
            decreases self.items.len() - i,
        {
            let e = self.items[i];
            if i == 0 {
                if e.error {
                    self.abort();
                } else {
                    self.position = Position::Head;
                }
                return ;
            }
            if !e.resolved() {
                self.position = Position::Tail(i);
                return ;
            }
            i = i + 1;
        }
        self.scan_inactive(0);
    }

    fn scan_inactive(&mut self, start: usize)
        requires
            old(self)@.inv(),
        ensures
            final(self)@ == old(self)@.scan_inactive(start as nat),
        decreases flag(old(self)@.progress), 2nat,
    {
        let ghost s0 = self@;
        let mut i: usize = start;
        while i < self.inactive.len()
            invariant
                self@.inv(),
                s0 == old(self)@,
                self@.progress == s0.progress,
                self@.scan_inactive(i as nat) == s0.scan_inactive(start as nat),
            decreases self.inactive.len() - i,
        {
            let e = self.inactive[i];
            if i == 0 && e.resolved() {
                let ghost s1 = self@;
                let _ = self.inactive.pop_front();
                self.retired.push(e.id);
                proof {
                    assert(self@ == s1.retire_overflow());
                    s1.lemma_retire_overflow_inv();
                }
            } else if !e.resolved() {
                self.position = Position::Overflow(i);
                return ;
            } else {
                i = i + 1;
            }
        }
        self.read_step();
    }

    fn read_step(&mut self)
        requires
            old(self)@.inv(),
        ensures
            final(self)@ == old(self)@.read_step(),
        decreases flag(old(self)@.progress), 1nat,
    {
        if !self.error && self.items.len() < self.depth {
            self.position = Position::Read;
        } else {
            self.end_pass();
        }
    }

    fn end_pass(&mut self)
        requires
            old(self)@.inv(),
        ensures
            final(self)@ == old(self)@.end_pass(),
        decreases flag(old(self)@.progress), 0nat,
    {
        if self.items.len() == 0 && self.inactive.len() == 0 && self.error {
            self.close();
        } else if self.progress {
            self.progress = false;
            self.scan_items(0);
        } else {
            self.position = Position::Idle;
        }
    }

    fn begin_pass(&mut self)
        requires
            old(self)@.inv(),
        ensures
            final(self)@ == old(self)@.begin_pass(),
    {
        self.progress = false;
        self.scan_items(0);
    }

    fn retire_head(&mut self, finished: bool, keepalive: bool)
        requires
            old(self)@.inv(),
            old(self)@.items.len() > 0,
        ensures
            final(self)@ == old(self)@.retire_head(finished, keepalive),
            final(self)@.inv(),
    {
        proof {
            self@.lemma_retire_head_inv(finished, keepalive);
        }
        let head = self.items.pop_front();
        match head {
            Some(h) => {
                self.flushed = Ghost(self.flushed@.push(h.id));
                self.served = true;
                self.keepalive = self.keepalive && keepalive;
                if finished {
                    self.retired.push(h.id);
                } else {
                    self.inactive.push_back(
                        Entry { id: h.id, eof: true, error: h.error, finished: h.finished },
                    );
                }
                self.progress = true;
            },
            None => {},
        }
    }

    fn mark_item(&mut self, i: usize, finished: bool, error: bool)
        requires
            old(self)@.inv(),
            i < old(self)@.items.len(),
        ensures
            final(self)@ == old(self)@.mark_item(i as int, finished, error),
            final(self)@.inv(),
    {
        proof {
            self@.lemma_mark_item_inv(i as int, finished, error);
        }
        let ghost q = self.items@;
        let e = self.items[i];
        let _ = self.items.remove(i);
        self.items.insert(i, Entry { id: e.id, eof: e.eof, error, finished });
        self.progress = true;
        proof {
            assert(self.items@ =~= q.update(i as int, Entry { finished, error, ..q[i as int] }));
        }
    }

    fn mark_inactive(&mut self, i: usize, finished: bool, error: bool)
        requires
            old(self)@.inv(),
            i < old(self)@.inactive.len(),
        ensures
            final(self)@ == old(self)@.mark_inactive(i as int, finished, error),
            final(self)@.inv(),
    {
        let ghost q = self.inactive@;
        let e = self.inactive[i];
        let _ = self.inactive.remove(i);
        self.inactive.insert(i, Entry { id: e.id, eof: e.eof, error, finished });
        self.progress = true;
        proof {
            assert(self.inactive@ =~= q.update(i as int, Entry { finished, error, ..q[i as int] }));
        }
    }

    fn accept(&mut self, id: u64)
        requires
            old(self)@.inv(),
            old(self)@.may_read(),
        ensures
            final(self)@ == old(self)@.accept(id),
            final(self)@.inv(),
    {
        proof {
            self@.lemma_accept_inv(id);
        }
        self.timer = false;
        self.items.push_back(Entry::fresh(id));
        self.parsed = Ghost(self.parsed@.push(id));
        self.progress = true;
    }

    fn end_read(&mut self)
        ensures
            final(self)@ == old(self)@.end_read(),
    {
        self.keepalive = false;
        self.timer = false;
        self.error = true;
        self.progress = true;
    }

    fn fail_read(&mut self, reply: Option<u64>)
        requires
            old(self)@.inv(),
            old(self)@.may_read(),
        ensures
            final(self)@ == old(self)@.fail_read(reply),
            final(self)@.inv(),
    {
        proof {
            self@.lemma_fail_read_inv(reply);
        }
        self.end_read();
        match reply {
            Some(id) => {
                self.items.push_back(Entry::fresh(id));
                self.parsed = Ghost(self.parsed@.push(id));
            },
            None => {
                self.broken = true;
            },
        }
    }

    fn read_pending(&mut self, partial: bool)
        requires
            old(self)@.inv(),
        ensures
            final(self)@ == old(self)@.read_pending(partial),
    {
        if partial {
            self.timer = false;
        }
        let drained = self.items.len() == 0 && self.inactive.len() == 0;
        if drained && !self.keepalive && self.served {
            self.close();
        } else if self.progress {
            self.begin_pass();
        } else if drained && self.keepalive {
            if self.timer {
                self.position = Position::Timer;
            } else {
                self.position = Position::Arming;
            }
        } else {
            self.position = Position::Idle;
        }
    }

    /// Takes the caller's report and says what is to be done next.
    ///
    /// The driver moves as the model's transition function says, stays well
    /// formed, and returns the action that its new state awaits. A report
    /// that does not answer the awaited action changes nothing, and the
    /// awaited action is returned again.
    pub fn handle(&mut self, event: Event) -> (action: Action)
        requires
            old(self).wf(),
        ensures
            final(self).wf(),
            final(self)@ == old(self)@.next(event),
            action == final(self)@.pending(),
    {
        proof {
            self@.lemma_next_wf(event);
        }
        match (self.position, event) {
            (Position::Fresh, Event::Wake) => {
                self.begin_pass();
            },
            (Position::Idle, Event::Wake) => {
                self.begin_pass();
            },
            (Position::Timer, Event::TimerFired) => {
                self.close();
            },
            (Position::Timer, Event::TimerPending) => {
                self.position = Position::Idle;
            },
            (Position::Head, Event::IoDone { finished, keepalive }) => {
                self.retire_head(finished, keepalive);
                if finished && !self.keepalive && self.items.len() == 0 && self.inactive.len()
                    == 0 {
                    self.close();
                } else {
                    self.scan_items(0);
                }
            },
            (Position::Head, Event::IoProgress) => {
                self.progress = true;
                self.scan_items(1);
            },
            (Position::Head, Event::IoPending) => {
                self.scan_items(1);
            },
            (Position::Head, Event::IoFailed) => {
                self.abort();
            },
            (Position::Tail(i), Event::TaskDone) => {
                self.mark_item(i, true, false);
                self.scan_items(i + 1);
            },
            (Position::Tail(i), Event::TaskFailed) => {
                self.mark_item(i, false, true);
                self.scan_items(i + 1);
            },
            (Position::Tail(i), Event::TaskPending) => {
                self.scan_items(i + 1);
            },
            (Position::Overflow(i), Event::TaskDone) => {
                assert(i < self.inactive.len());
                self.mark_inactive(i, true, false);
                self.scan_inactive(i + 1);
            },
            (Position::Overflow(i), Event::TaskFailed) => {
                assert(i < self.inactive.len());
                self.mark_inactive(i, false, true);
                self.scan_inactive(i + 1);
            },
            (Position::Overflow(i), Event::TaskPending) => {
                assert(i < self.inactive.len());
                self.scan_inactive(i + 1);
            },
            (Position::Read, Event::Request { id }) => {
                self.accept(id);
                self.end_pass();
            },
            (Position::Read, Event::ReadEnd) => {
                self.end_read();
                self.end_pass();
            },
            (Position::Read, Event::ParseFailed { reply }) => {
                self.fail_read(reply);
                self.end_pass();
            },
            (Position::Read, Event::ReadPending { partial }) => {
                self.read_pending(partial);
            },
            (Position::Arming, Event::TimerArmed) => {
                self.timer = true;
                self.position = Position::Idle;
            },
            _ => {},
        }
        self.pending()
    }
}

impl Default for HttpChannel {
    /// The driver with sixteen requests in flight at most and an idle time of
    /// fifteen seconds.
    fn default() -> (r: HttpChannel)
        ensures
            r.wf(),
            r@ == ChannelState::init(MAX_PIPELINED_MESSAGES, KEEPALIVE_PERIOD),
    {
        HttpChannel::fresh(MAX_PIPELINED_MESSAGES, KEEPALIVE_PERIOD)
    }
}

} // verus!
