use actix_http::channel::{
    Action, Entry, Event, HttpChannel, KEEPALIVE_PERIOD, MAX_PIPELINED_MESSAGES,
};

fn channel(depth: usize, keep_alive: u64) -> HttpChannel {
    HttpChannel::new(depth, keep_alive).unwrap()
}

fn done(keepalive: bool) -> Event {
    Event::IoDone { finished: true, keepalive }
}

#[test]
fn defaults_are_sixteen_requests_and_fifteen_seconds() {
    assert_eq!(MAX_PIPELINED_MESSAGES, 16);
    assert_eq!(KEEPALIVE_PERIOD, 15);
    let mut c = HttpChannel::default();
    assert!(c.keepalive());
    assert!(!c.timer_armed());
    assert_eq!(c.pending(), Action::Suspend);
    assert_eq!(c.handle(Event::Wake), Action::Parse);
    assert_eq!(c.handle(Event::ReadPending { partial: false }), Action::ArmTimer { secs: 15 });
}

#[test]
fn zero_depth_is_refused() {
    assert!(HttpChannel::new(0, 15).is_none());
    assert!(HttpChannel::new(1, 0).is_some());
}

#[test]
fn fresh_entry_has_no_flag_set() {
    let e = Entry::fresh(7);
    assert_eq!(e, Entry { id: 7, eof: false, error: false, finished: false });
    assert!(!e.resolved());
    assert!(Entry { id: 7, eof: false, error: true, finished: false }.resolved());
    assert!(Entry { id: 7, eof: true, error: false, finished: true }.resolved());
}

#[test]
fn pipelined_responses_keep_request_order() {
    let mut c = channel(16, 15);
    assert_eq!(c.handle(Event::Wake), Action::Parse);
    assert_eq!(c.handle(Event::Request { id: 1 }), Action::PollIo { id: 1 });
    // the first handler sleeps
    assert_eq!(c.handle(Event::IoPending), Action::Parse);
    assert_eq!(c.handle(Event::Request { id: 2 }), Action::PollIo { id: 1 });
    assert_eq!(c.handle(Event::IoPending), Action::PollTask { id: 2 });
    // the second handler returns at once, but may not write
    assert_eq!(c.handle(Event::TaskDone), Action::Parse);
    assert_eq!(c.handle(Event::ReadPending { partial: false }), Action::PollIo { id: 1 });
    assert_eq!(c.handle(Event::IoPending), Action::Parse);
    assert_eq!(c.handle(Event::ReadPending { partial: false }), Action::Suspend);
    assert_eq!(c.queue_len(), 2);
    // the first handler wakes up: response 1 in full, then response 2
    assert_eq!(c.handle(Event::Wake), Action::PollIo { id: 1 });
    assert_eq!(c.handle(done(true)), Action::PollIo { id: 2 });
    assert_eq!(c.queue_len(), 1);
    assert_eq!(c.handle(done(true)), Action::Parse);
    assert_eq!(c.queue_len(), 0);
    assert_eq!(c.handle(Event::ReadPending { partial: false }), Action::Parse);
    assert_eq!(c.handle(Event::ReadPending { partial: false }), Action::ArmTimer { secs: 15 });
    assert_eq!(c.handle(Event::TimerArmed), Action::Suspend);
    assert!(c.timer_armed());
}

#[test]
fn full_queue_stops_the_reader_until_a_flush() {
    let mut c = channel(2, 15);
    assert_eq!(c.handle(Event::Wake), Action::Parse);
    assert_eq!(c.handle(Event::Request { id: 1 }), Action::PollIo { id: 1 });
    assert_eq!(c.handle(Event::IoPending), Action::Parse);
    assert_eq!(c.handle(Event::Request { id: 2 }), Action::PollIo { id: 1 });
    assert_eq!(c.handle(Event::IoPending), Action::PollTask { id: 2 });
    // two requests are in flight: the third is not asked for
    assert_eq!(c.handle(Event::TaskPending), Action::Suspend);
    assert_eq!(c.queue_len(), 2);
    assert_eq!(c.handle(Event::Wake), Action::PollIo { id: 1 });
    assert_eq!(c.handle(Event::IoPending), Action::PollTask { id: 2 });
    assert_eq!(c.handle(Event::TaskPending), Action::Suspend);
    // one response is written in full: the reader is asked again
    assert_eq!(c.handle(Event::Wake), Action::PollIo { id: 1 });
    assert_eq!(c.handle(done(true)), Action::PollIo { id: 2 });
    assert_eq!(c.handle(Event::IoPending), Action::Parse);
    assert_eq!(c.handle(Event::Request { id: 3 }), Action::PollIo { id: 2 });
    assert_eq!(c.queue_len(), 2);
}

#[test]
fn seventeenth_request_waits_at_default_depth() {
    let mut c = HttpChannel::default();
    assert_eq!(c.handle(Event::Wake), Action::Parse);
    let mut next = c.handle(Event::Request { id: 0 });
    let mut read = 1;
    while read < 40 {
        next = match next {
            Action::PollIo { .. } => c.handle(Event::IoPending),
            Action::PollTask { .. } => c.handle(Event::TaskPending),
            Action::Parse => {
                read += 1;
                c.handle(Event::Request { id: read })
            }
            _ => break,
        };
    }
    assert_eq!(next, Action::Suspend);
    assert_eq!(c.queue_len(), 16);
    assert_eq!(read, 16);
}

#[test]
fn connection_closes_after_response_without_keepalive() {
    let mut c = channel(16, 15);
    assert_eq!(c.handle(Event::Wake), Action::Parse);
    assert_eq!(c.handle(Event::Request { id: 1 }), Action::PollIo { id: 1 });
    assert!(c.keepalive());
    assert_eq!(c.handle(done(false)), Action::Close);
    assert!(!c.keepalive());
    assert!(c.is_finished());
    // nothing revives it
    assert_eq!(c.handle(Event::Wake), Action::Close);
    assert_eq!(c.handle(Event::Request { id: 2 }), Action::Close);
    assert_eq!(c.queue_len(), 0);
}

#[test]
fn keepalive_stays_lost_while_queued_requests_are_served() {
    let mut c = channel(16, 15);
    c.handle(Event::Wake);
    c.handle(Event::Request { id: 1 });
    c.handle(Event::IoPending);
    assert_eq!(c.handle(Event::Request { id: 2 }), Action::PollIo { id: 1 });
    assert_eq!(c.handle(done(false)), Action::PollIo { id: 2 });
    assert!(!c.keepalive());
    // the second response would keep the connection: it cannot bring that back
    assert_eq!(c.handle(done(true)), Action::Close);
    assert!(!c.keepalive());
}

#[test]
fn keepalive_turned_off_closes_after_the_first_response() {
    let mut c = channel(16, 0);
    assert!(!c.keepalive());
    assert_eq!(c.handle(Event::Wake), Action::Parse);
    assert_eq!(c.handle(Event::Request { id: 1 }), Action::PollIo { id: 1 });
    assert_eq!(c.handle(done(true)), Action::Close);
}

#[test]
fn keepalive_turned_off_still_waits_for_the_first_request() {
    let mut c = channel(16, 0);
    assert_eq!(c.handle(Event::Wake), Action::Parse);
    // nothing has been answered yet: the connection waits, without a timer
    assert_eq!(c.handle(Event::ReadPending { partial: false }), Action::Suspend);
    assert!(!c.timer_armed());
    assert!(!c.is_finished());
    assert_eq!(c.handle(Event::Wake), Action::Parse);
    assert_eq!(c.handle(Event::ReadPending { partial: true }), Action::Suspend);
    assert_eq!(c.handle(Event::Wake), Action::Parse);
    assert_eq!(c.handle(Event::Request { id: 1 }), Action::PollIo { id: 1 });
    assert_eq!(
        c.handle(Event::IoDone { finished: false, keepalive: true }),
        Action::PollTask { id: 1 }
    );
    assert_eq!(c.handle(Event::TaskDone), Action::Parse);
    assert_eq!(c.handle(Event::ReadPending { partial: false }), Action::Parse);
    // a response has been written: without keep-alive the connection closes
    assert_eq!(c.handle(Event::ReadPending { partial: false }), Action::Close);
}

#[test]
fn idle_timeout_closes_the_connection() {
    let mut c = channel(16, 30);
    assert_eq!(c.handle(Event::Wake), Action::Parse);
    assert_eq!(c.handle(Event::ReadPending { partial: false }), Action::ArmTimer { secs: 30 });
    assert_eq!(c.handle(Event::TimerArmed), Action::Suspend);
    assert!(c.timer_armed());
    // the reader is asked before the timer
    assert_eq!(c.handle(Event::Wake), Action::Parse);
    assert_eq!(c.handle(Event::ReadPending { partial: false }), Action::PollTimer);
    assert_eq!(c.handle(Event::TimerFired), Action::Close);
    assert!(!c.timer_armed());
    assert!(c.is_finished());
}

#[test]
fn request_before_the_deadline_cancels_the_close() {
    let mut c = channel(16, 30);
    c.handle(Event::Wake);
    c.handle(Event::ReadPending { partial: false });
    assert_eq!(c.handle(Event::TimerArmed), Action::Suspend);
    assert!(c.timer_armed());
    // the request and the timer are ready together: the request wins
    assert_eq!(c.handle(Event::Wake), Action::Parse);
    assert_eq!(c.handle(Event::Request { id: 5 }), Action::PollIo { id: 5 });
    assert!(!c.timer_armed());
    assert_eq!(c.handle(Event::TimerFired), Action::PollIo { id: 5 });
    assert_eq!(c.handle(Event::IoPending), Action::Parse);
    assert_eq!(c.handle(Event::ReadPending { partial: false }), Action::Suspend);
    // the timer is not consulted while the request is in flight
    assert_eq!(c.handle(Event::Wake), Action::PollIo { id: 5 });
}

#[test]
fn bytes_of_a_new_request_cancel_the_close() {
    let mut c = channel(16, 30);
    c.handle(Event::Wake);
    c.handle(Event::ReadPending { partial: false });
    assert_eq!(c.handle(Event::TimerArmed), Action::Suspend);
    assert_eq!(c.handle(Event::Wake), Action::Parse);
    // a part of a request has arrived: the old deadline counts no more
    assert_eq!(c.handle(Event::ReadPending { partial: true }), Action::ArmTimer { secs: 30 });
    assert!(!c.timer_armed());
    assert_eq!(c.handle(Event::TimerFired), Action::ArmTimer { secs: 30 });
    assert!(!c.is_finished());
    assert_eq!(c.handle(Event::TimerArmed), Action::Suspend);
    assert!(c.timer_armed());
    // only the new timer can close the connection
    assert_eq!(c.handle(Event::Wake), Action::Parse);
    assert_eq!(c.handle(Event::ReadPending { partial: false }), Action::PollTimer);
    assert_eq!(c.handle(Event::TimerPending), Action::Suspend);
    assert_eq!(c.handle(Event::Wake), Action::Parse);
    assert_eq!(c.handle(Event::ReadPending { partial: false }), Action::PollTimer);
    assert_eq!(c.handle(Event::TimerFired), Action::Close);
}

#[test]
fn timer_is_not_started_twice() {
    let mut c = channel(16, 30);
    c.handle(Event::Wake);
    c.handle(Event::ReadPending { partial: false });
    c.handle(Event::TimerArmed);
    assert_eq!(c.handle(Event::Wake), Action::Parse);
    assert_eq!(c.handle(Event::ReadPending { partial: false }), Action::PollTimer);
    assert_eq!(c.handle(Event::TimerPending), Action::Suspend);
    assert!(c.timer_armed());
}

#[test]
fn malformed_request_gets_one_reply_and_ends_reading() {
    let mut c = channel(16, 15);
    c.handle(Event::Wake);
    assert_eq!(c.handle(Event::Request { id: 1 }), Action::PollIo { id: 1 });
    assert_eq!(c.handle(Event::IoPending), Action::Parse);
    assert_eq!(c.handle(Event::ParseFailed { reply: Some(99) }), Action::PollIo { id: 1 });
    assert!(c.read_closed());
    assert!(!c.keepalive());
    assert_eq!(c.queue_len(), 2);
    assert_eq!(c.handle(Event::IoPending), Action::PollTask { id: 99 });
    // the reader is not asked again
    assert_eq!(c.handle(Event::TaskPending), Action::Suspend);
    assert_eq!(c.handle(Event::Wake), Action::PollIo { id: 1 });
    // the valid request is answered first, then the error response
    assert_eq!(c.handle(done(true)), Action::PollIo { id: 99 });
    assert_eq!(c.handle(done(true)), Action::Close);
    assert_eq!(c.queue_len(), 0);
}

#[test]
fn end_of_stream_closes_when_nothing_is_in_flight() {
    let mut c = channel(16, 15);
    assert_eq!(c.handle(Event::Wake), Action::Parse);
    assert_eq!(c.handle(Event::ReadEnd), Action::Close);
    let mut busy = channel(16, 15);
    busy.handle(Event::Wake);
    busy.handle(Event::Request { id: 1 });
    assert_eq!(busy.handle(Event::IoPending), Action::Parse);
    assert_eq!(busy.handle(Event::ReadEnd), Action::PollIo { id: 1 });
    assert!(busy.read_closed());
    assert!(!busy.keepalive());
    assert_eq!(busy.handle(Event::IoPending), Action::Suspend);
    assert_eq!(busy.handle(Event::Wake), Action::PollIo { id: 1 });
    assert_eq!(busy.handle(done(true)), Action::Close);
}

#[test]
fn unanswerable_request_aborts_after_what_is_in_flight() {
    let mut c = channel(16, 15);
    assert_eq!(c.handle(Event::Wake), Action::Parse);
    assert_eq!(c.handle(Event::ParseFailed { reply: None }), Action::Abort);
    let mut busy = channel(16, 15);
    busy.handle(Event::Wake);
    busy.handle(Event::Request { id: 1 });
    assert_eq!(busy.handle(Event::IoPending), Action::Parse);
    assert_eq!(busy.handle(Event::ParseFailed { reply: None }), Action::PollIo { id: 1 });
    assert_eq!(busy.queue_len(), 1);
    assert_eq!(busy.handle(Event::IoPending), Action::Suspend);
    assert_eq!(busy.handle(Event::Wake), Action::PollIo { id: 1 });
    assert_eq!(busy.handle(done(true)), Action::Abort);
    assert!(busy.is_finished());
}

#[test]
fn transport_failure_aborts() {
    let mut c = channel(16, 15);
    c.handle(Event::Wake);
    c.handle(Event::Request { id: 1 });
    assert_eq!(c.handle(Event::IoFailed), Action::Abort);
    assert!(c.is_finished());
    assert_eq!(c.handle(Event::Wake), Action::Abort);
}

#[test]
fn failed_invocation_aborts_when_it_reaches_the_head() {
    let mut c = channel(16, 15);
    c.handle(Event::Wake);
    c.handle(Event::Request { id: 1 });
    c.handle(Event::IoPending);
    assert_eq!(c.handle(Event::Request { id: 2 }), Action::PollIo { id: 1 });
    assert_eq!(c.handle(Event::IoPending), Action::PollTask { id: 2 });
    assert_eq!(c.handle(Event::TaskFailed), Action::Parse);
    assert_eq!(c.handle(Event::ReadPending { partial: false }), Action::PollIo { id: 1 });
    assert_eq!(c.handle(done(true)), Action::Abort);
}

#[test]
fn flushed_response_with_running_invocation_moves_to_overflow() {
    let mut c = channel(16, 15);
    c.handle(Event::Wake);
    c.handle(Event::Request { id: 1 });
    assert_eq!(
        c.handle(Event::IoDone { finished: false, keepalive: true }),
        Action::PollTask { id: 1 }
    );
    assert_eq!(c.queue_len(), 0);
    assert_eq!(c.overflow_len(), 1);
    assert_eq!(c.handle(Event::TaskPending), Action::Parse);
    assert_eq!(c.handle(Event::ReadPending { partial: false }), Action::PollTask { id: 1 });
    assert_eq!(c.handle(Event::TaskDone), Action::Parse);
    assert_eq!(c.handle(Event::ReadPending { partial: false }), Action::Parse);
    assert_eq!(c.overflow_len(), 0);
    assert_eq!(c.handle(Event::ReadPending { partial: false }), Action::ArmTimer { secs: 15 });
}

#[test]
fn unexpected_report_changes_nothing() {
    let mut c = channel(16, 15);
    assert_eq!(c.handle(Event::TimerFired), Action::Suspend);
    assert_eq!(c.handle(Event::Wake), Action::Parse);
    assert_eq!(c.handle(Event::IoPending), Action::Parse);
    assert_eq!(c.handle(Event::Wake), Action::Parse);
    assert_eq!(c.queue_len(), 0);
    assert_eq!(c.handle(Event::Request { id: 3 }), Action::PollIo { id: 3 });
    assert_eq!(c.handle(Event::TaskDone), Action::PollIo { id: 3 });
    assert_eq!(c.pending(), Action::PollIo { id: 3 });
}

#[test]
fn partial_write_keeps_the_head_and_the_pass_going() {
    let mut c = channel(16, 15);
    c.handle(Event::Wake);
    assert_eq!(c.handle(Event::Request { id: 1 }), Action::PollIo { id: 1 });
    assert_eq!(c.handle(Event::IoProgress), Action::Parse);
    // something has changed in this pass: the head is asked again
    assert_eq!(c.handle(Event::ReadPending { partial: false }), Action::PollIo { id: 1 });
    assert_eq!(c.queue_len(), 1);
    assert_eq!(c.handle(Event::IoPending), Action::Parse);
    assert_eq!(c.handle(Event::ReadPending { partial: false }), Action::Suspend);
}

#[test]
fn requests_retire_once_answered_and_ended() {
    let mut c = channel(16, 15);
    c.handle(Event::Wake);
    c.handle(Event::Request { id: 1 });
    c.handle(Event::IoPending);
    assert_eq!(c.handle(Event::Request { id: 2 }), Action::PollIo { id: 1 });
    assert_eq!(c.take_retired(), Vec::<u64>::new());
    // the first response is written while its invocation still runs
    assert_eq!(
        c.handle(Event::IoDone { finished: false, keepalive: true }),
        Action::PollIo { id: 2 }
    );
    assert_eq!(c.take_retired(), Vec::<u64>::new());
    // the second is written and has ended: it leaves at once
    assert_eq!(c.handle(done(true)), Action::PollTask { id: 1 });
    assert_eq!(c.take_retired(), vec![2]);
    assert_eq!(c.take_retired(), Vec::<u64>::new());
    assert_eq!(c.handle(Event::TaskDone), Action::Parse);
    assert_eq!(c.overflow_len(), 1);
    // the first leaves with the next pass
    assert_eq!(c.handle(Event::ReadPending { partial: false }), Action::Parse);
    assert_eq!(c.overflow_len(), 0);
    assert_eq!(c.take_retired(), vec![1]);
    assert_eq!(c.pending(), Action::Parse);
}
