//! Responses on a multiplexed connection: the head that goes out for a
//! response, and the pump that hands its body to a stream in bounded writes.

use crate::body::BodySize;
use crate::buf::bytes_seq;
use crate::config::ServiceConfig;
use bytes::Bytes;
use crate::header::{
    copy_bytes, count, decimal, digits, line, HeaderMap, HeaderName, Line, Name, StandardHeader,
};
use crate::message::{
    ResponseHead, ResponseHeadView, CONTINUE, NO_CONTENT, PROCESSING, SWITCHING_PROTOCOLS,
};
use vstd::prelude::*;

verus! {

/// The body size that is announced for a response of this status: responses
/// that may not have a body announce none, a response that switches protocols
/// is a stream, and any other keeps the size of its body.
pub open spec fn framed_size(status: u16, size: BodySize) -> BodySize {
    if status == NO_CONTENT || status == CONTINUE || status == PROCESSING {
        BodySize::NoBody
    } else if status == SWITCHING_PROTOCOLS {
        BodySize::Stream
    } else {
        size
    }
}

/// Whether a `Content-Length` that the application has set is left out: it is
/// unless the body is a stream, and always when protocols are switched.
pub open spec fn skips_length(status: u16, size: BodySize) -> bool {
    status == SWITCHING_PROTOCOLS || size != BodySize::Stream
}

/// The `Content-Length` line that announces a body of a known size; none for
/// a stream and where no body is allowed.
pub open spec fn length_lines(size: BodySize) -> Seq<Line> {
    match size {
        BodySize::NoBody => Seq::empty(),
        BodySize::Stream => Seq::empty(),
        BodySize::Empty => seq![line(StandardHeader::ContentLength, digits(0))],
        BodySize::Sized(n) => seq![line(StandardHeader::ContentLength, digits(n as nat))],
        BodySize::Sized64(n) => seq![line(StandardHeader::ContentLength, digits(n as nat))],
    }
}

/// Whether a line of the application's response is sent on: the headers that
/// manage the connection are not, and a `Content-Length` only where
/// `skip_len` does not hold.
pub open spec fn forwarded(l: Line, skip_len: bool) -> bool {
    &&& l.0 != Name::Standard(StandardHeader::Connection)
    &&& l.0 != Name::Standard(StandardHeader::TransferEncoding)
    &&& !(l.0 == Name::Standard(StandardHeader::ContentLength) && skip_len)
}

/// The lines that are sent on, in their order.
pub open spec fn copied(lines: Seq<Line>, skip_len: bool) -> Seq<Line>
    decreases lines.len(),
{
    if lines.len() == 0 {
        lines
    } else if forwarded(lines.last(), skip_len) {
        copied(lines.drop_last(), skip_len).push(lines.last())
    } else {
        copied(lines.drop_last(), skip_len)
    }
}

/// Whether one of the lines is a `Date`.
pub open spec fn has_date(lines: Seq<Line>) -> bool {
    exists|i: int| 0 <= i < lines.len() && (#[trigger] lines[i]).0 == Name::Standard(
        StandardHeader::Date,
    )
}

/// The `Date` line that is added where the application has set none.
pub open spec fn date_lines(lines: Seq<Line>, date: Seq<u8>) -> Seq<Line> {
    if has_date(lines) {
        Seq::empty()
    } else {
        seq![line(StandardHeader::Date, date)]
    }
}

/// The head that goes out for a response: the announced length first, then
/// the application's lines that are sent on, then the date if they hold none.
pub open spec fn prepared(head: ResponseHeadView, size: BodySize, date: Seq<u8>)
    -> ResponseHeadView {
    let skip_len = skips_length(head.status, size);
    ResponseHeadView {
        status: head.status,
        headers: length_lines(framed_size(head.status, size)) + copied(head.headers, skip_len)
            + date_lines(head.headers, date),
    }
}

/// Makes the head that goes out for the application's response `head` with a
/// body of size `size`, and sets `size` to the size that is announced.
/// `date` is the current date as the value of a `Date` header.
pub fn prepare_response(head: &ResponseHead, size: &mut BodySize, date: &[u8]) -> (res:
    ResponseHead)
    ensures
        res@ == prepared(head@, *old(size), date@),
        *final(size) == framed_size(head.status, *old(size)),
{
    let mut skip_len = match *size {
        BodySize::Stream => false,
        _ => true,
    };
    let mut res = ResponseHead::new(head.status);
    if head.status == NO_CONTENT || head.status == CONTINUE || head.status == PROCESSING {
        *size = BodySize::NoBody;
    } else if head.status == SWITCHING_PROTOCOLS {
        skip_len = true;
        *size = BodySize::Stream;
    }
    match *size {
        BodySize::NoBody => {},
        BodySize::Stream => {},
        BodySize::Empty => {
            res.headers.append(HeaderName::Standard(StandardHeader::ContentLength), decimal(0));
        },
        BodySize::Sized(len) => {
            res.headers.append(
                HeaderName::Standard(StandardHeader::ContentLength),
                decimal(len as u64),
            );
        },
        BodySize::Sized64(len) => {
            res.headers.append(HeaderName::Standard(StandardHeader::ContentLength), decimal(len));
        },
    }
    let ghost first = length_lines(*size);
    let ghost lines = head.headers@;
    proof {
        assert(res.headers@ =~= first);
        assert(lines.take(0) =~= Seq::<Line>::empty());
        assert(res.headers@ =~= first + copied(lines.take(0), skip_len));
    }
    let mut seen_date = false;
    let n = head.headers.len();
    let mut i: usize = 0;
    while i < n
        invariant
            n == head.headers.entries@.len(),
            lines == head.headers@,
            i <= n,
            res.status == head.status,
            res.headers@ == first + copied(lines.take(i as int), skip_len),
            seen_date == has_date(lines.take(i as int)),
        decreases n - i,
    {
        let entry = &head.headers.entries[i];
        proof {
            assert(lines.take(i + 1).drop_last() =~= lines.take(i as int));
            assert(lines.take(i + 1).last() == entry@);
            assert(lines[i as int] == entry@);
            if has_date(lines.take(i as int)) {
                let k = choose|k: int|
                    0 <= k < lines.take(i as int).len() && (#[trigger] lines.take(
                        i as int,
                    )[k]).0 == Name::Standard(StandardHeader::Date);
                assert(lines.take(i + 1)[k] == lines.take(i as int)[k]);
            }
            if has_date(lines.take(i + 1)) && !has_date(lines.take(i as int)) {
                let k = choose|k: int|
                    0 <= k < lines.take(i + 1).len() && (#[trigger] lines.take(i + 1)[k]).0
                        == Name::Standard(StandardHeader::Date);
                if k < i {
                    assert(lines.take(i as int)[k] == lines.take(i + 1)[k]);
                }
            }
        }
        let skip = entry.name.is(StandardHeader::Connection) || entry.name.is(
            StandardHeader::TransferEncoding,
        ) || (skip_len && entry.name.is(StandardHeader::ContentLength));
        if entry.name.is(StandardHeader::Date) {
            seen_date = true;
            proof {
                assert(lines.take(i + 1)[i as int].0 == Name::Standard(StandardHeader::Date));
            }
        }
        if !skip {
            let ghost before = res.headers@;
            res.headers.append(entry.name.duplicate(), copy_bytes(entry.value.as_slice()));
            proof {
                assert(res.headers@ =~= first + copied(lines.take(i + 1), skip_len));
            }
        }
        i = i + 1;
    }
    proof {
        assert(lines.take(n as int) =~= lines);
    }
    if !seen_date {
        res.headers.append(HeaderName::Standard(StandardHeader::Date), copy_bytes(date));
    }
    proof {
        assert(res.headers@ =~= first + copied(lines, skip_len) + date_lines(lines, date@));
    }
    res
}

/// A sum is the count of its parts.
pub proof fn lemma_count_add(a: Seq<Line>, b: Seq<Line>, name: Name)
    ensures
        count(a + b, name) == count(a, name) + count(b, name),
    decreases b.len(),
{
    if b.len() == 0 {
        assert(a + b =~= a);
    } else {
        assert((a + b).drop_last() =~= a + b.drop_last());
        assert((a + b).last() == b.last());
        lemma_count_add(a, b.drop_last(), name);
    }
}

/// What is sent on holds a name as often as the application's lines do,
/// where lines of that name are sent on, and not at all where they are not.
pub proof fn lemma_count_copied(lines: Seq<Line>, skip_len: bool, name: Name)
    ensures
        forwarded((name, Seq::<u8>::empty()), skip_len) ==> count(copied(lines, skip_len), name)
            == count(lines, name),
        !forwarded((name, Seq::<u8>::empty()), skip_len) ==> count(copied(lines, skip_len), name)
            == 0,
    decreases lines.len(),
{
    if lines.len() > 0 {
        lemma_count_copied(lines.drop_last(), skip_len, name);
        if forwarded(lines.last(), skip_len) {
            let c = copied(lines.drop_last(), skip_len);
            assert(c.push(lines.last()).drop_last() =~= c);
        }
    }
}

/// The lines hold a `Date` if and only if their count of it is not zero.
pub proof fn lemma_has_date_counts(lines: Seq<Line>)
    ensures
        has_date(lines) <==> count(lines, Name::Standard(StandardHeader::Date)) > 0,
    decreases lines.len(),
{
    let date = Name::Standard(StandardHeader::Date);
    if lines.len() > 0 {
        lemma_has_date_counts(lines.drop_last());
        if has_date(lines) {
            let k = choose|k: int| 0 <= k < lines.len() && (#[trigger] lines[k]).0 == date;
            if k < lines.len() - 1 {
                assert(lines.drop_last()[k] == lines[k]);
            }
        }
        if has_date(lines.drop_last()) {
            let k = choose|k: int|
                0 <= k < lines.drop_last().len() && (#[trigger] lines.drop_last()[k]).0 == date;
            assert(lines[k] == lines.drop_last()[k]);
        }
        if lines.last().0 == date {
            assert(lines[lines.len() - 1].0 == date);
        }
    }
}

/// The head that goes out never carries the headers that manage the
/// connection: no `Connection` and no `Transfer-Encoding`, whatever the
/// application has set.
pub proof fn theorem_connection_headers_stay_behind(
    head: ResponseHeadView,
    size: BodySize,
    date: Seq<u8>,
)
    ensures
        count(prepared(head, size, date).headers, Name::Standard(StandardHeader::Connection)) == 0,
        count(prepared(head, size, date).headers, Name::Standard(StandardHeader::TransferEncoding))
            == 0,
{
    let skip_len = skips_length(head.status, size);
    let first = length_lines(framed_size(head.status, size));
    let mid = copied(head.headers, skip_len);
    let last = date_lines(head.headers, date);
    let c = Name::Standard(StandardHeader::Connection);
    let t = Name::Standard(StandardHeader::TransferEncoding);
    lemma_count_add(first + mid, last, c);
    lemma_count_add(first, mid, c);
    lemma_count_add(first + mid, last, t);
    lemma_count_add(first, mid, t);
    lemma_count_copied(head.headers, skip_len, c);
    lemma_count_copied(head.headers, skip_len, t);
    lemma_count_short(first, c);
    lemma_count_short(first, t);
    lemma_count_short(last, c);
    lemma_count_short(last, t);
}

/// The count of a name in no line or in one line.
pub proof fn lemma_count_short(lines: Seq<Line>, name: Name)
    requires
        lines.len() <= 1,
    ensures
        lines.len() == 0 ==> count(lines, name) == 0,
        lines.len() == 1 ==> count(lines, name) == (if lines[0].0 == name {
            1nat
        } else {
            0nat
        }),
{
    if lines.len() == 1 {
        assert(lines.drop_last().len() == 0);
        assert(count(lines.drop_last(), name) == 0);
    }
}

/// Where the size of the body is known when the head goes out, the head
/// carries exactly one `Content-Length`, and it gives that size.
pub proof fn theorem_content_length_stands_once(
    head: ResponseHeadView,
    size: BodySize,
    date: Seq<u8>,
)
    requires
        framed_size(head.status, size) != BodySize::NoBody,
        framed_size(head.status, size) != BodySize::Stream,
    ensures
        count(prepared(head, size, date).headers, Name::Standard(StandardHeader::ContentLength))
            == 1,
        prepared(head, size, date).headers[0] == length_lines(framed_size(head.status, size))[0],
{
    let skip_len = skips_length(head.status, size);
    let first = length_lines(framed_size(head.status, size));
    let mid = copied(head.headers, skip_len);
    let last = date_lines(head.headers, date);
    let l = Name::Standard(StandardHeader::ContentLength);
    lemma_count_add(first + mid, last, l);
    lemma_count_add(first, mid, l);
    lemma_count_copied(head.headers, skip_len, l);
    lemma_count_short(first, l);
    lemma_count_short(last, l);
}

/// The head that goes out always carries a `Date`: the application's, or
/// else exactly one with the current date.
pub proof fn theorem_date_is_always_sent(head: ResponseHeadView, size: BodySize, date: Seq<u8>)
    ensures
        count(prepared(head, size, date).headers, Name::Standard(StandardHeader::Date)) >= 1,
        !has_date(head.headers) ==> count(
            prepared(head, size, date).headers,
            Name::Standard(StandardHeader::Date),
        ) == 1 && prepared(head, size, date).headers.last() == line(StandardHeader::Date, date),
        has_date(head.headers) ==> count(
            prepared(head, size, date).headers,
            Name::Standard(StandardHeader::Date),
        ) == count(head.headers, Name::Standard(StandardHeader::Date)),
{
    let skip_len = skips_length(head.status, size);
    let first = length_lines(framed_size(head.status, size));
    let mid = copied(head.headers, skip_len);
    let last = date_lines(head.headers, date);
    let d = Name::Standard(StandardHeader::Date);
    lemma_count_add(first + mid, last, d);
    lemma_count_add(first, mid, d);
    lemma_count_copied(head.headers, skip_len, d);
    lemma_count_short(first, d);
    lemma_count_short(last, d);
    lemma_has_date_counts(head.headers);
}

/// The largest number of bytes that goes to the stream in one write unless
/// configured otherwise.
pub const CHUNK_SIZE: usize = 16_384;

/// Where the pump of a response stands.
#[derive(Clone, Copy, Debug, PartialEq, Eq, Structural)]
pub enum Stage {
    /// Waiting for the application's response.
    Calling,
    /// Waiting for the head to be handed to the stream.
    Sending,
    /// Waiting for the next chunk of the body; none is buffered.
    Reading,
    /// Waiting for the stream to grant capacity for the buffered chunk.
    Waiting,
    /// Waiting for a piece of the buffered chunk to be accepted.
    Writing,
    /// Waiting for the frame that ends the body to be accepted.
    Ending,
    /// The response is over; nothing more is sent.
    Done,
    /// The response has failed; nothing more is sent, and the connection is
    /// to be given up.
    Failed,
}

/// What the caller reports to the pump.
#[derive(Debug)]
pub enum PumpEvent {
    /// The caller has been woken.
    Wake,
    /// The application has no response yet.
    CallPending,
    /// The application has answered, with a response or with an error that
    /// the caller has turned into one. `size` is the size of its body and
    /// `date` the current date as a header value.
    CallReady { head: ResponseHead, size: BodySize, date: Vec<u8> },
    /// The stream has taken the head.
    ResponseSent,
    /// The stream has refused the head.
    ResponseFailed,
    /// The body has no chunk yet.
    BodyPending,
    /// The body has produced this chunk.
    BodyChunk(Bytes),
    /// The body has ended.
    BodyEnd,
    /// The body has failed.
    BodyFailed,
    /// The stream has no capacity yet.
    CapacityPending,
    /// The stream grants this many bytes.
    Capacity(usize),
    /// The stream has been closed.
    CapacityClosed,
    /// The stream has failed.
    CapacityFailed,
    /// The stream has taken the data.
    DataSent,
    /// The stream has refused the data.
    DataFailed,
}

/// The model of a report to the pump.
pub enum PumpEventView {
    Wake,
    CallPending,
    CallReady { head: ResponseHeadView, size: BodySize, date: Seq<u8> },
    ResponseSent,
    ResponseFailed,
    BodyPending,
    BodyChunk(Seq<u8>),
    BodyEnd,
    BodyFailed,
    CapacityPending,
    Capacity(usize),
    CapacityClosed,
    CapacityFailed,
    DataSent,
    DataFailed,
}

impl View for PumpEvent {
    type V = PumpEventView;

    open spec fn view(&self) -> PumpEventView {
        match self {
            PumpEvent::Wake => PumpEventView::Wake,
            PumpEvent::CallPending => PumpEventView::CallPending,
            PumpEvent::CallReady { head, size, date } => PumpEventView::CallReady {
                head: head@,
                size: *size,
                date: date@,
            },
            PumpEvent::ResponseSent => PumpEventView::ResponseSent,
            PumpEvent::ResponseFailed => PumpEventView::ResponseFailed,
            PumpEvent::BodyPending => PumpEventView::BodyPending,
            PumpEvent::BodyChunk(b) => PumpEventView::BodyChunk(bytes_seq(*b)),
            PumpEvent::BodyEnd => PumpEventView::BodyEnd,
            PumpEvent::BodyFailed => PumpEventView::BodyFailed,
            PumpEvent::CapacityPending => PumpEventView::CapacityPending,
            PumpEvent::Capacity(n) => PumpEventView::Capacity(*n),
            PumpEvent::CapacityClosed => PumpEventView::CapacityClosed,
            PumpEvent::CapacityFailed => PumpEventView::CapacityFailed,
            PumpEvent::DataSent => PumpEventView::DataSent,
            PumpEvent::DataFailed => PumpEventView::DataFailed,
        }
    }
}

/// What the caller of the pump is to do next.
#[derive(Debug, PartialEq, Eq)]
pub enum PumpAction {
    /// Poll the application's invocation; answer with `CallPending` or
    /// `CallReady`.
    PollCall,
    /// Hand this head to the stream, ending the stream with it where
    /// `end_of_stream` holds; answer with `ResponseSent` or `ResponseFailed`.
    SendResponse { head: ResponseHead, end_of_stream: bool },
    /// Ask the body for its next chunk; answer with `BodyPending`,
    /// `BodyChunk`, `BodyEnd` or `BodyFailed`.
    PollBody,
    /// Reserve this much capacity on the stream, if any is named, and ask
    /// what it grants; answer with one of the `Capacity` events.
    PollCapacity { reserve: Option<usize> },
    /// Hand this data to the stream, ending the stream with it where
    /// `end_of_stream` holds; answer with `DataSent` or `DataFailed`.
    SendData { data: Bytes, end_of_stream: bool },
    /// Nothing can be done now: wait to be woken, then answer with `Wake`.
    Suspend,
    /// The response is over.
    Finish,
    /// The response has failed after a part of it may have gone out: no
    /// further frame is sent for it, and the connection is to be given up.
    Abort,
}

/// The model of an action of the pump.
pub enum PumpActionView {
    PollCall,
    SendResponse { head: ResponseHeadView, end_of_stream: bool },
    PollBody,
    PollCapacity { reserve: Option<usize> },
    SendData { data: Seq<u8>, end_of_stream: bool },
    Suspend,
    Finish,
    Abort,
}

impl View for PumpAction {
    type V = PumpActionView;

    open spec fn view(&self) -> PumpActionView {
        match self {
            PumpAction::PollCall => PumpActionView::PollCall,
            PumpAction::SendResponse { head, end_of_stream } => PumpActionView::SendResponse {
                head: head@,
                end_of_stream: *end_of_stream,
            },
            PumpAction::PollBody => PumpActionView::PollBody,
            PumpAction::PollCapacity { reserve } => PumpActionView::PollCapacity {
                reserve: *reserve,
            },
            PumpAction::SendData { data, end_of_stream } => PumpActionView::SendData {
                data: bytes_seq(*data),
                end_of_stream: *end_of_stream,
            },
            PumpAction::Suspend => PumpActionView::Suspend,
            PumpAction::Finish => PumpActionView::Finish,
            PumpAction::Abort => PumpActionView::Abort,
        }
    }
}

/// The smaller of two numbers.
pub open spec fn spec_least(a: usize, b: usize) -> usize {
    if a <= b {
        a
    } else {
        b
    }
}

/// The smaller of two numbers.
#[verifier::when_used_as_spec(spec_least)]
pub fn least(a: usize, b: usize) -> (r: usize)
    ensures
        r == spec_least(a, b),
{
    if a <= b {
        a
    } else {
        b
    }
}

/// The model of the pump of one response.
pub struct PumpState {
    /// Where the pump stands.
    pub stage: Stage,
    /// The size of the body as announced in the head.
    pub size: BodySize,
    /// The chunk of the body that has not gone to the stream in full.
    pub buffer: Option<Seq<u8>>,
    /// The largest number of bytes that goes to the stream in one write.
    pub ceiling: usize,
}

impl PumpState {
    /// The pump of a response that has not been asked for yet.
    pub open spec fn init(ceiling: usize) -> PumpState {
        PumpState { stage: Stage::Calling, size: BodySize::Stream, buffer: None, ceiling }
    }

    /// The pump once the response is over.
    pub open spec fn done(self) -> PumpState {
        PumpState { stage: Stage::Done, buffer: None, ..self }
    }

    /// The pump once the response has failed.
    pub open spec fn failed(self) -> PumpState {
        PumpState { stage: Stage::Failed, buffer: None, ..self }
    }

    /// The length of a sequence of bytes as a machine number.
    pub open spec fn len_of(bytes: Seq<u8>) -> usize {
        bytes.len() as usize
    }

    /// The number of bytes that one write takes from a chunk of `len` bytes
    /// when the stream grants `cap`: as many as are granted and left, and
    /// never more than the ceiling.
    pub open spec fn write_len(self, cap: usize, len: usize) -> usize {
        spec_least(spec_least(cap, len), self.ceiling)
    }

    /// The transition function of the pump: the state after `event` and the
    /// action that answers it. A failure of the body or of the stream fails
    /// the response: no frame follows, and the caller is told to give the
    /// connection up. A stream that the peer has closed ends the response.
    /// An event that does not answer what the pump waits for fails it.
    pub open spec fn step(self, event: PumpEventView) -> (PumpState, PumpActionView) {
        match (self.stage, event) {
            (Stage::Calling, PumpEventView::Wake) => (self, PumpActionView::PollCall),
            (Stage::Calling, PumpEventView::CallPending) => (self, PumpActionView::Suspend),
            (Stage::Calling, PumpEventView::CallReady { head, size, date }) => {
                let announced = framed_size(head.status, size);
                (
                    PumpState { stage: Stage::Sending, size: announced, ..self },
                    PumpActionView::SendResponse {
                        head: prepared(head, size, date),
                        end_of_stream: announced.spec_is_eof(),
                    },
                )
            },
            (Stage::Sending, PumpEventView::ResponseSent) => if self.size.spec_is_eof() {
                (self.done(), PumpActionView::Finish)
            } else {
                (PumpState { stage: Stage::Reading, ..self }, PumpActionView::PollBody)
            },
            (Stage::Reading, PumpEventView::Wake) => (self, PumpActionView::PollBody),
            (Stage::Reading, PumpEventView::BodyPending) => (self, PumpActionView::Suspend),
            (Stage::Reading, PumpEventView::BodyEnd) => (
                PumpState { stage: Stage::Ending, ..self },
                PumpActionView::SendData { data: Seq::empty(), end_of_stream: true },
            ),
            (Stage::Reading, PumpEventView::BodyChunk(chunk)) => (
                PumpState { stage: Stage::Waiting, buffer: Some(chunk), ..self },
                PumpActionView::PollCapacity {
                    reserve: Some(spec_least(Self::len_of(chunk), self.ceiling)),
                },
            ),
            (Stage::Waiting, PumpEventView::Wake) => (
                self,
                PumpActionView::PollCapacity { reserve: None },
            ),
            (Stage::Waiting, PumpEventView::CapacityPending) => (self, PumpActionView::Suspend),
            (Stage::Waiting, PumpEventView::Capacity(cap)) => {
                let chunk = self.buffer->0;
                let n = self.write_len(cap, Self::len_of(chunk));
                (
                    PumpState { stage: Stage::Writing, buffer: Some(chunk.skip(n as int)), ..self },
                    PumpActionView::SendData { data: chunk.take(n as int), end_of_stream: false },
                )
            },
            (Stage::Writing, PumpEventView::DataSent) => {
                let rest = self.buffer->0;
                if rest.len() > 0 {
                    (
                        PumpState { stage: Stage::Waiting, ..self },
                        PumpActionView::PollCapacity {
                            reserve: Some(spec_least(Self::len_of(rest), self.ceiling)),
                        },
                    )
                } else {
                    (
                        PumpState { stage: Stage::Reading, buffer: None, ..self },
                        PumpActionView::PollBody,
                    )
                }
            },
            (Stage::Waiting, PumpEventView::CapacityClosed) => (
                self.done(),
                PumpActionView::Finish,
            ),
            (Stage::Ending, PumpEventView::DataSent) => (self.done(), PumpActionView::Finish),
            (Stage::Done, _) => (self.done(), PumpActionView::Finish),
            _ => (self.failed(), PumpActionView::Abort),
        }
    }

    /// What holds of every pump: the ceiling is not zero, and a chunk is
    /// buffered exactly while the pump waits for capacity or for a write.
    pub open spec fn wf(self) -> bool {
        &&& self.ceiling >= 1
        &&& match self.stage {
            Stage::Waiting => self.buffer is Some && self.buffer->0.len() <= usize::MAX,
            Stage::Writing => self.buffer is Some && self.buffer->0.len() <= usize::MAX,
            _ => self.buffer is None,
        }
    }
}

/// The pump of one response on a multiplexed connection.
///
/// The caller reports each [`PumpEvent`] to [`ServiceResponse::handle`] and
/// does what the returned [`PumpAction`] says, beginning with
/// `PumpEvent::Wake`.
pub struct ServiceResponse {
    stage: Stage,
    size: BodySize,
    buffer: Option<Bytes>,
    ceiling: usize,
}

impl View for ServiceResponse {
    type V = PumpState;

    closed spec fn view(&self) -> PumpState {
        PumpState {
            stage: self.stage,
            size: self.size,
            buffer: match self.buffer {
                Some(b) => Some(bytes_seq(b)),
                None => None,
            },
            ceiling: self.ceiling,
        }
    }
}

impl ServiceResponse {
    /// The pump is well formed: its model is.
    pub open spec fn wf(&self) -> bool {
        self@.wf()
    }

    /// Makes the pump of a response whose writes take `ceiling` bytes at
    /// most. A ceiling of zero would let no byte through and is refused.
    pub fn new(ceiling: usize) -> (r: Option<ServiceResponse>)
        ensures
            r is None <==> ceiling == 0,
            r matches Some(p) ==> p.wf() && p@ == PumpState::init(ceiling),
    {
        if ceiling == 0 {
            None
        } else {
            Some(
                ServiceResponse {
                    stage: Stage::Calling,
                    size: BodySize::Stream,
                    buffer: None,
                    ceiling,
                },
            )
        }
    }

    /// Where the pump stands.
    pub fn stage(&self) -> (r: Stage)
        ensures
            r == self@.stage,
    {
        self.stage
    }

    fn finish(&mut self) -> (action: PumpAction)
        ensures
            final(self)@ == old(self)@.done(),
            action@ == PumpActionView::Finish,
    {
        self.stage = Stage::Done;
        self.buffer = None;
        PumpAction::Finish
    }

    fn fail(&mut self) -> (action: PumpAction)
        ensures
            final(self)@ == old(self)@.failed(),
            action@ == PumpActionView::Abort,
    {
        self.stage = Stage::Failed;
        self.buffer = None;
        PumpAction::Abort
    }

    /// Takes the caller's report and says what is to be done next.
    ///
    /// The pump moves as the model's transition function says and stays well
    /// formed. No write that it orders takes more bytes than the ceiling, and
    /// the next chunk of the body is asked for only when the one before has
    /// gone to the stream in full. After a failure of the body or of the
    /// stream it orders no further frame and tells the caller to give the
    /// connection up.
    pub fn handle(&mut self, event: PumpEvent) -> (action: PumpAction)
        requires
            old(self).wf(),
        ensures
            final(self).wf(),
            (final(self)@, action@) == old(self)@.step(event@),
    {
        match (self.stage, event) {
            (Stage::Calling, PumpEvent::Wake) => PumpAction::PollCall,
            (Stage::Calling, PumpEvent::CallPending) => PumpAction::Suspend,
            (Stage::Calling, PumpEvent::CallReady { head, size, date }) => {
                let mut announced = size;
                let out = prepare_response(&head, &mut announced, date.as_slice());
                self.stage = Stage::Sending;
                self.size = announced;
                PumpAction::SendResponse { head: out, end_of_stream: announced.is_eof() }
            },
            (Stage::Sending, PumpEvent::ResponseSent) => {
                if self.size.is_eof() {
                    self.finish()
                } else {
                    self.stage = Stage::Reading;
                    PumpAction::PollBody
                }
            },
            (Stage::Reading, PumpEvent::Wake) => PumpAction::PollBody,
            (Stage::Reading, PumpEvent::BodyPending) => PumpAction::Suspend,
            (Stage::Reading, PumpEvent::BodyEnd) => {
                self.stage = Stage::Ending;
                PumpAction::SendData { data: Bytes::new(), end_of_stream: true }
            },
            (Stage::Reading, PumpEvent::BodyChunk(chunk)) => {
                let reserve = least(chunk.len(), self.ceiling);
                self.buffer = Some(chunk);
                self.stage = Stage::Waiting;
                PumpAction::PollCapacity { reserve: Some(reserve) }
            },
            (Stage::Waiting, PumpEvent::Wake) => PumpAction::PollCapacity { reserve: None },
            (Stage::Waiting, PumpEvent::CapacityPending) => PumpAction::Suspend,
            (Stage::Waiting, PumpEvent::Capacity(cap)) => {
                let mut held: Option<Bytes> = None;
                std::mem::swap(&mut self.buffer, &mut held);
                match held {
                    Some(mut chunk) => {
                        let n = least(least(cap, chunk.len()), self.ceiling);
                        let data = chunk.split_to(n);
                        self.buffer = Some(chunk);
                        self.stage = Stage::Writing;
                        PumpAction::SendData { data, end_of_stream: false }
                    },
                    None => self.fail(),
                }
            },
            (Stage::Writing, PumpEvent::DataSent) => {
                let left = match &self.buffer {
                    Some(rest) => rest.len(),
                    None => 0,
                };
                if left > 0 {
                    self.stage = Stage::Waiting;
                    PumpAction::PollCapacity { reserve: Some(least(left, self.ceiling)) }
                } else {
                    self.buffer = None;
                    self.stage = Stage::Reading;
                    PumpAction::PollBody
                }
            },
            (Stage::Waiting, PumpEvent::CapacityClosed) => self.finish(),
            (Stage::Ending, PumpEvent::DataSent) => self.finish(),
            (Stage::Done, _) => self.finish(),
            _ => self.fail(),
        }
    }
}

impl Default for ServiceResponse {
    /// The pump whose writes take sixteen kibibytes at most.
    fn default() -> (r: ServiceResponse)
        ensures
            r.wf(),
            r@ == PumpState::init(CHUNK_SIZE),
    {
        ServiceResponse { stage: Stage::Calling, size: BodySize::Stream, buffer: None, ceiling: CHUNK_SIZE }
    }
}

impl PumpState {
    /// The state after the caller has reported `events` one after the other.
    pub open spec fn run(self, events: Seq<PumpEventView>) -> PumpState
        decreases events.len(),
    {
        if events.len() == 0 {
            self
        } else {
            self.run(events.drop_last()).step(events.last()).0
        }
    }
}

/// Every step leads a well-formed pump to a well-formed pump, where the
/// chunks that the body produces fit the machine.
pub proof fn lemma_pump_step_wf(s: PumpState, event: PumpEventView)
    requires
        s.wf(),
        event matches PumpEventView::BodyChunk(chunk) ==> chunk.len() <= usize::MAX,
    ensures
        s.step(event).0.wf(),
        s.step(event).0.ceiling == s.ceiling,
{
}

/// No write takes more than the ceiling: whatever the stream grants and
/// however large the chunk, the data of every write that the pump orders is
/// as long as the ceiling at most.
pub proof fn theorem_writes_respect_ceiling(s: PumpState, event: PumpEventView)
    requires
        s.wf(),
    ensures
        s.step(event).1 matches PumpActionView::SendData { data, .. } ==> data.len() <= s.ceiling,
        s.step(event).1 matches PumpActionView::PollCapacity { reserve: Some(n) } ==> n
            <= s.ceiling,
{
}

/// Whether every chunk among the events fits the machine.
pub open spec fn chunks_fit(events: Seq<PumpEventView>) -> bool {
    forall|k: int|
        0 <= k < events.len() ==> ((#[trigger] events[k]) matches PumpEventView::BodyChunk(chunk)
            ==> chunk.len() <= usize::MAX)
}

/// Every pump that a response reaches is well formed and has kept its
/// ceiling, whatever is reported and in whatever order.
pub proof fn lemma_reachable_pumps_are_well_formed(ceiling: usize, events: Seq<PumpEventView>)
    requires
        ceiling >= 1,
        chunks_fit(events),
    ensures
        PumpState::init(ceiling).run(events).wf(),
        PumpState::init(ceiling).run(events).ceiling == ceiling,
    decreases events.len(),
{
    if events.len() > 0 {
        assert(chunks_fit(events.drop_last())) by {
            assert forall|k: int| 0 <= k < events.drop_last().len() implies ((
            #[trigger] events.drop_last()[k]) matches PumpEventView::BodyChunk(chunk)
                ==> chunk.len() <= usize::MAX) by {
                assert(events.drop_last()[k] == events[k]);
            }
        }
        lemma_reachable_pumps_are_well_formed(ceiling, events.drop_last());
        lemma_pump_step_wf(PumpState::init(ceiling).run(events.drop_last()), events.last());
    }
}

/// A body of any size goes out in writes of the ceiling at most: in the
/// whole life of a response, whatever the body produces and whatever the
/// stream grants, no write that the pump orders is longer than the ceiling.
pub proof fn theorem_every_write_is_bounded(
    ceiling: usize,
    events: Seq<PumpEventView>,
    event: PumpEventView,
)
    requires
        ceiling >= 1,
        chunks_fit(events),
    ensures
        PumpState::init(ceiling).run(events).step(event).1 matches PumpActionView::SendData {
            data,
            ..
        } ==> data.len() <= ceiling,
{
    lemma_reachable_pumps_are_well_formed(ceiling, events);
    theorem_writes_respect_ceiling(PumpState::init(ceiling).run(events), event);
}

/// A write takes the front of the buffered chunk and leaves the rest: what
/// is written and what stays are the chunk, byte for byte.
pub proof fn theorem_write_takes_the_front(s: PumpState, cap: usize)
    requires
        s.wf(),
        s.stage == Stage::Waiting,
    ensures
        ({
            let n = s.write_len(cap, PumpState::len_of(s.buffer->0));
            let (t, action) = s.step(PumpEventView::Capacity(cap));
            &&& action == (PumpActionView::SendData {
                data: s.buffer->0.take(n as int),
                end_of_stream: false,
            })
            &&& t.buffer == Some(s.buffer->0.skip(n as int))
            &&& s.buffer->0.take(n as int) + s.buffer->0.skip(n as int) == s.buffer->0
        }),
{
    let chunk = s.buffer->0;
    let n = s.write_len(cap, PumpState::len_of(chunk));
    assert(chunk.take(n as int) + chunk.skip(n as int) =~= chunk);
}

/// A chunk that is larger than the ceiling goes out in more than one write:
/// after its first write bytes are left, and the pump asks the stream for
/// capacity again before it asks the body for anything.
pub proof fn theorem_large_chunk_takes_several_writes(s: PumpState, cap: usize)
    requires
        s.wf(),
        s.stage == Stage::Waiting,
        s.buffer->0.len() > s.ceiling,
    ensures
        ({
            let t = s.step(PumpEventView::Capacity(cap)).0;
            &&& t.stage == Stage::Writing
            &&& t.buffer->0.len() > 0
            &&& t.step(PumpEventView::DataSent).0.stage == Stage::Waiting
            &&& t.step(PumpEventView::DataSent).1 is PollCapacity
        }),
{
}

/// At most one chunk is in flight: the body is asked for its next chunk only
/// when nothing is buffered.
pub proof fn theorem_one_chunk_in_flight(s: PumpState, event: PumpEventView)
    requires
        s.wf(),
        s.step(event).1 == PumpActionView::PollBody,
    ensures
        s.step(event).0.buffer is None,
        s.step(event).0.stage == Stage::Reading,
{
}

/// The end of the body goes to the stream as an empty frame that ends it,
/// and the response is over once the stream has taken that frame.
pub proof fn theorem_body_ends_with_empty_frame(s: PumpState, event: PumpEventView)
    requires
        s.wf(),
        s.stage == Stage::Reading,
    ensures
        s.step(PumpEventView::BodyEnd).1 == (PumpActionView::SendData {
            data: Seq::empty(),
            end_of_stream: true,
        }),
        s.step(PumpEventView::BodyEnd).0.step(PumpEventView::DataSent).1
            == PumpActionView::Finish,
        s.step(PumpEventView::BodyEnd).0.step(PumpEventView::DataSent).0.step(event).1
            == PumpActionView::Finish,
{
}

/// Whether the event reports a failure of the body or of the stream.
pub open spec fn is_failure(event: PumpEventView) -> bool {
    event is ResponseFailed || event is BodyFailed || event is CapacityFailed
        || event is DataFailed
}

/// The report of a failure that can come at a stage of the response.
pub open spec fn fails_at(stage: Stage, event: PumpEventView) -> bool {
    match stage {
        Stage::Sending => event is ResponseFailed,
        Stage::Reading => event is BodyFailed,
        Stage::Waiting => event is CapacityFailed,
        Stage::Writing => event is DataFailed,
        Stage::Ending => event is DataFailed,
        _ => false,
    }
}

/// A failure in the middle of a response gives the connection up: when the
/// body fails, or the stream refuses the head, capacity or data, the pump
/// answers with the order to abort, and whatever is reported afterwards it
/// orders no data frame, no frame that ends the stream and nothing else but
/// to abort.
pub proof fn theorem_failure_aborts_the_response(
    s: PumpState,
    event: PumpEventView,
    later: Seq<PumpEventView>,
    last: PumpEventView,
)
    requires
        s.wf(),
        fails_at(s.stage, event),
    ensures
        s.step(event).1 == PumpActionView::Abort,
        s.step(event).0.stage == Stage::Failed,
        s.step(event).0.run(later).stage == Stage::Failed,
        s.step(event).0.run(later).step(last).1 == PumpActionView::Abort,
    decreases later.len(),
{
    if later.len() > 0 {
        theorem_failure_aborts_the_response(s, event, later.drop_last(), later.last());
    }
}

/// A response is reported as over only when it is: after the head of a
/// response without a body, after the frame that ends the body, after the
/// peer has closed the stream, or when it was over before.
pub proof fn theorem_finish_means_done(s: PumpState, event: PumpEventView)
    requires
        s.wf(),
        s.step(event).1 == PumpActionView::Finish,
    ensures
        !is_failure(event) || s.stage == Stage::Done,
        s.step(event).0.stage == Stage::Done,
        (s.stage == Stage::Sending && event is ResponseSent && s.size.spec_is_eof()) || (s.stage
            == Stage::Ending && event is DataSent) || (s.stage == Stage::Waiting
            && event is CapacityClosed) || s.stage == Stage::Done,
{
}

/// When a connection's keep-alive runs out, in milliseconds of the caller's
/// clock, and whether a timer watches it.
#[derive(Clone, Copy, Debug, PartialEq, Eq)]
pub struct Dispatcher {
    /// The moment at which the connection has been idle for too long.
    pub ka_expire: u64,
    /// The deadline of the timer, if one runs.
    pub ka_timer: Option<u64>,
}

/// What the connection has delivered.
#[derive(Clone, Copy, Debug, PartialEq, Eq, Structural)]
pub enum AcceptEvent {
    /// A request has been accepted at this moment.
    Request { now: u64 },
    /// The connection has ended.
    End,
    /// The connection has failed.
    Failed,
    /// The connection has nothing yet.
    Pending,
}

/// What is to be done after a report of the connection.
#[derive(Clone, Copy, Debug, PartialEq, Eq, Structural)]
pub enum AcceptAction {
    /// Start the response to the request, then ask the connection again.
    Serve,
    /// The connection is over; it ended in good order.
    Close,
    /// The connection is over; it failed.
    Abort,
    /// Wait to be woken, then ask the connection again.
    Suspend,
}

impl Dispatcher {
    /// The first state of a connection: a deadline given from outside comes
    /// before the configured keep-alive, and without either no timer runs.
    pub open spec fn spec_new(config: ServiceConfig, timeout: Option<u64>, now: u64)
        -> Dispatcher {
        match timeout {
            Some(deadline) => Dispatcher { ka_expire: deadline, ka_timer: Some(deadline) },
            None => match config.spec_keep_alive_expire(now) {
                Some(deadline) => Dispatcher { ka_expire: deadline, ka_timer: Some(deadline) },
                None => Dispatcher { ka_expire: now, ka_timer: None },
            },
        }
    }

    /// Makes the state of a connection accepted at `now`, with a deadline
    /// for the whole connection if one is given.
    pub fn new(config: &ServiceConfig, timeout: Option<u64>, now: u64) -> (r: Dispatcher)
        ensures
            r == Dispatcher::spec_new(*config, timeout, now),
    {
        match timeout {
            Some(deadline) => Dispatcher { ka_expire: deadline, ka_timer: Some(deadline) },
            None => match config.keep_alive_expire(now) {
                Some(deadline) => Dispatcher { ka_expire: deadline, ka_timer: Some(deadline) },
                None => Dispatcher { ka_expire: now, ka_timer: None },
            },
        }
    }

    /// The state after a report of the connection: a request moves the
    /// expiry on where a timer runs and keep-alive is configured.
    pub open spec fn spec_accept(self, config: ServiceConfig, event: AcceptEvent) -> Dispatcher {
        match event {
            AcceptEvent::Request { now } => if self.ka_timer is Some
                && config.spec_keep_alive_expire(now) is Some {
                Dispatcher { ka_expire: config.spec_keep_alive_expire(now)->0, ..self }
            } else {
                self
            },
            _ => self,
        }
    }

    /// The action that answers a report of the connection.
    pub open spec fn spec_action(event: AcceptEvent) -> AcceptAction {
        match event {
            AcceptEvent::Request { now } => AcceptAction::Serve,
            AcceptEvent::End => AcceptAction::Close,
            AcceptEvent::Failed => AcceptAction::Abort,
            AcceptEvent::Pending => AcceptAction::Suspend,
        }
    }

    /// Takes a report of the connection and says what is to be done next.
    pub fn poll(&mut self, config: &ServiceConfig, event: AcceptEvent) -> (action: AcceptAction)
        ensures
            *final(self) == old(self).spec_accept(*config, event),
            action == Dispatcher::spec_action(event),
    {
        match event {
            AcceptEvent::Request { now } => {
                if self.ka_timer.is_some() {
                    match config.keep_alive_expire(now) {
                        Some(expire) => {
                            self.ka_expire = expire;
                        },
                        None => {},
                    }
                }
                AcceptAction::Serve
            },
            AcceptEvent::End => AcceptAction::Close,
            AcceptEvent::Failed => AcceptAction::Abort,
            AcceptEvent::Pending => AcceptAction::Suspend,
        }
    }
}

} // verus!
