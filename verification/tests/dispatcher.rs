use actix_http::body::BodySize;
use actix_http::config::ServiceConfig;
use actix_http::header::{Header, HeaderName, StandardHeader};
use actix_http::dispatcher::{
    least, prepare_response, AcceptAction, AcceptEvent, Dispatcher, PumpAction, PumpEvent,
    ServiceResponse, Stage, CHUNK_SIZE,
};
use actix_http::message::ResponseHead;
use bytes::Bytes;

const DATE: &[u8] = b"Tue, 15 Nov 1994 08:12:31 GMT";

fn std_line(name: StandardHeader, value: &[u8]) -> Header {
    Header { name: HeaderName::Standard(name), value: value.to_vec() }
}

fn custom_line(name: &[u8], value: &[u8]) -> Header {
    Header { name: HeaderName::Custom(name.to_vec()), value: value.to_vec() }
}

fn head(status: u16, lines: Vec<Header>) -> ResponseHead {
    let mut h = ResponseHead::new(status);
    for l in lines {
        h.headers.append(l.name, l.value);
    }
    h
}

#[test]
fn known_size_is_announced_once() {
    let h = head(
        200,
        vec![
            std_line(StandardHeader::ContentLength, b"999"),
            custom_line(b"x-request-id", b"7"),
        ],
    );
    let mut size = BodySize::Sized(1234);
    let out = prepare_response(&h, &mut size, DATE);
    assert_eq!(size, BodySize::Sized(1234));
    assert_eq!(out.status, 200);
    assert_eq!(
        out.headers.entries,
        vec![
            std_line(StandardHeader::ContentLength, b"1234"),
            custom_line(b"x-request-id", b"7"),
            std_line(StandardHeader::Date, DATE),
        ]
    );
}

#[test]
fn empty_body_announces_zero() {
    let h = head(200, vec![]);
    let mut size = BodySize::Empty;
    let out = prepare_response(&h, &mut size, DATE);
    assert_eq!(
        out.headers.entries,
        vec![std_line(StandardHeader::ContentLength, b"0"), std_line(StandardHeader::Date, DATE)]
    );
    let mut size64 = BodySize::Sized64(18_446_744_073_709_551_615);
    let out = prepare_response(&h, &mut size64, DATE);
    assert_eq!(out.headers.entries[0], std_line(StandardHeader::ContentLength, b"18446744073709551615"));
}

#[test]
fn connection_headers_are_not_forwarded() {
    let h = head(
        200,
        vec![
            std_line(StandardHeader::Connection, b"keep-alive"),
            std_line(StandardHeader::TransferEncoding, b"chunked"),
            std_line(StandardHeader::ContentType, b"text/plain"),
        ],
    );
    let mut size = BodySize::Stream;
    let out = prepare_response(&h, &mut size, DATE);
    assert_eq!(size, BodySize::Stream);
    assert_eq!(
        out.headers.entries,
        vec![std_line(StandardHeader::ContentType, b"text/plain"), std_line(StandardHeader::Date, DATE)]
    );
}

#[test]
fn stream_keeps_the_length_of_the_application() {
    let h = head(200, vec![std_line(StandardHeader::ContentLength, b"42")]);
    let mut size = BodySize::Stream;
    let out = prepare_response(&h, &mut size, DATE);
    assert_eq!(
        out.headers.entries,
        vec![std_line(StandardHeader::ContentLength, b"42"), std_line(StandardHeader::Date, DATE)]
    );
}

#[test]
fn date_of_the_application_is_kept() {
    let h = head(200, vec![std_line(StandardHeader::Date, b"yesterday")]);
    let mut size = BodySize::NoBody;
    let out = prepare_response(&h, &mut size, DATE);
    assert_eq!(out.headers.entries, vec![std_line(StandardHeader::Date, b"yesterday")]);
}

#[test]
fn bodiless_statuses_announce_nothing() {
    for status in [204u16, 100, 102] {
        let h = head(status, vec![std_line(StandardHeader::ContentLength, b"5")]);
        let mut size = BodySize::Sized(5);
        let out = prepare_response(&h, &mut size, DATE);
        assert_eq!(size, BodySize::NoBody);
        assert_eq!(out.headers.entries, vec![std_line(StandardHeader::Date, DATE)]);
    }
}

#[test]
fn switching_protocols_makes_a_stream() {
    let h = head(101, vec![std_line(StandardHeader::ContentLength, b"5")]);
    let mut size = BodySize::Stream;
    let out = prepare_response(&h, &mut size, DATE);
    assert_eq!(size, BodySize::Stream);
    assert_eq!(out.headers.entries, vec![std_line(StandardHeader::Date, DATE)]);
    let mut sized = BodySize::Sized(5);
    let out = prepare_response(&h, &mut sized, DATE);
    assert_eq!(sized, BodySize::Stream);
    assert_eq!(out.headers.entries, vec![std_line(StandardHeader::Date, DATE)]);
}

#[test]
fn body_size_end_of_stream() {
    assert!(BodySize::NoBody.is_eof());
    assert!(BodySize::Empty.is_eof());
    assert!(BodySize::Sized(0).is_eof());
    assert!(BodySize::Sized64(0).is_eof());
    assert!(!BodySize::Sized(1).is_eof());
    assert!(!BodySize::Sized64(1).is_eof());
    assert!(!BodySize::Stream.is_eof());
}

fn ready(status: u16, size: BodySize) -> PumpEvent {
    PumpEvent::CallReady { head: head(status, vec![]), size, date: DATE.to_vec() }
}

#[test]
fn least_of_two() {
    assert_eq!(least(3, 9), 3);
    assert_eq!(least(9, 3), 3);
    assert_eq!(least(4, 4), 4);
}

#[test]
fn default_chunk_ceiling_is_sixteen_kibibytes() {
    assert_eq!(CHUNK_SIZE, 16_384);
    assert!(ServiceResponse::new(0).is_none());
    let mut p = ServiceResponse::default();
    assert_eq!(p.stage(), Stage::Calling);
    assert_eq!(p.handle(PumpEvent::Wake), PumpAction::PollCall);
    assert_eq!(p.handle(PumpEvent::CallPending), PumpAction::Suspend);
    assert_eq!(p.handle(PumpEvent::Wake), PumpAction::PollCall);
}

#[test]
fn large_body_goes_out_in_bounded_writes() {
    let mut p = ServiceResponse::default();
    p.handle(PumpEvent::Wake);
    match p.handle(ready(200, BodySize::Sized(40_000))) {
        PumpAction::SendResponse { head, end_of_stream } => {
            assert!(!end_of_stream);
            assert_eq!(head.headers.entries[0], std_line(StandardHeader::ContentLength, b"40000"));
        }
        other => panic!("{:?}", other),
    }
    assert_eq!(p.handle(PumpEvent::ResponseSent), PumpAction::PollBody);
    let body: Vec<u8> = (0..40_000u32).map(|i| (i % 251) as u8).collect();
    assert_eq!(
        p.handle(PumpEvent::BodyChunk(Bytes::from(body.clone()))),
        PumpAction::PollCapacity { reserve: Some(16_384) }
    );
    // the stream grants more than a write may take
    let mut written: Vec<u8> = Vec::new();
    let mut writes = 0;
    let mut action = p.handle(PumpEvent::Capacity(1_000_000));
    loop {
        match action {
            PumpAction::SendData { data, end_of_stream } => {
                assert!(!end_of_stream);
                assert!(data.len() <= 16_384);
                written.extend_from_slice(&data);
                writes += 1;
                action = p.handle(PumpEvent::DataSent);
            }
            PumpAction::PollCapacity { reserve } => {
                assert_eq!(reserve, Some(least(40_000 - written.len(), 16_384)));
                action = p.handle(PumpEvent::Capacity(1_000_000));
            }
            PumpAction::PollBody => break,
            other => panic!("{:?}", other),
        }
    }
    assert_eq!(writes, 3);
    assert_eq!(written, body);
    assert_eq!(
        p.handle(PumpEvent::BodyEnd),
        PumpAction::SendData { data: Bytes::new(), end_of_stream: true }
    );
    assert_eq!(p.handle(PumpEvent::DataSent), PumpAction::Finish);
    assert_eq!(p.stage(), Stage::Done);
}

#[test]
fn write_takes_what_the_stream_grants() {
    let mut p = ServiceResponse::new(8).unwrap();
    p.handle(PumpEvent::Wake);
    p.handle(ready(200, BodySize::Stream));
    assert_eq!(p.handle(PumpEvent::ResponseSent), PumpAction::PollBody);
    assert_eq!(p.handle(PumpEvent::BodyPending), PumpAction::Suspend);
    assert_eq!(p.handle(PumpEvent::Wake), PumpAction::PollBody);
    assert_eq!(
        p.handle(PumpEvent::BodyChunk(Bytes::from(&b"hello world"[..]))),
        PumpAction::PollCapacity { reserve: Some(8) }
    );
    assert_eq!(p.handle(PumpEvent::CapacityPending), PumpAction::Suspend);
    assert_eq!(p.handle(PumpEvent::Wake), PumpAction::PollCapacity { reserve: None });
    assert_eq!(
        p.handle(PumpEvent::Capacity(5)),
        PumpAction::SendData { data: Bytes::from(&b"hello"[..]), end_of_stream: false }
    );
    assert_eq!(p.handle(PumpEvent::DataSent), PumpAction::PollCapacity { reserve: Some(6) });
    assert_eq!(
        p.handle(PumpEvent::Capacity(0)),
        PumpAction::SendData { data: Bytes::new(), end_of_stream: false }
    );
    assert_eq!(p.handle(PumpEvent::DataSent), PumpAction::PollCapacity { reserve: Some(6) });
    assert_eq!(
        p.handle(PumpEvent::Capacity(100)),
        PumpAction::SendData { data: Bytes::from(&b" world"[..]), end_of_stream: false }
    );
    assert_eq!(p.handle(PumpEvent::DataSent), PumpAction::PollBody);
}

#[test]
fn response_without_body_ends_with_its_head() {
    let mut p = ServiceResponse::default();
    p.handle(PumpEvent::Wake);
    match p.handle(ready(204, BodySize::Sized(10))) {
        PumpAction::SendResponse { head, end_of_stream } => {
            assert!(end_of_stream);
            assert_eq!(head.status, 204);
            assert_eq!(head.headers.entries, vec![std_line(StandardHeader::Date, DATE)]);
        }
        other => panic!("{:?}", other),
    }
    assert_eq!(p.handle(PumpEvent::ResponseSent), PumpAction::Finish);
}

#[test]
fn failures_abort_the_response() {
    let mut p = ServiceResponse::default();
    p.handle(PumpEvent::Wake);
    p.handle(ready(200, BodySize::Stream));
    assert_eq!(p.handle(PumpEvent::ResponseFailed), PumpAction::Abort);
    assert_eq!(p.stage(), Stage::Failed);
    assert_eq!(p.handle(PumpEvent::Wake), PumpAction::Abort);

    let mut p = ServiceResponse::default();
    p.handle(ready(200, BodySize::Stream));
    p.handle(PumpEvent::ResponseSent);
    assert_eq!(p.handle(PumpEvent::BodyFailed), PumpAction::Abort);
    // nothing more is sent for the response, whatever is reported
    assert_eq!(p.handle(PumpEvent::BodyChunk(Bytes::from(&b"abc"[..]))), PumpAction::Abort);
    assert_eq!(p.handle(PumpEvent::Capacity(3)), PumpAction::Abort);
    assert_eq!(p.handle(PumpEvent::BodyEnd), PumpAction::Abort);

    let mut p = ServiceResponse::default();
    p.handle(ready(200, BodySize::Stream));
    p.handle(PumpEvent::ResponseSent);
    p.handle(PumpEvent::BodyChunk(Bytes::from(&b"abc"[..])));
    assert_eq!(p.handle(PumpEvent::CapacityFailed), PumpAction::Abort);

    let mut p = ServiceResponse::default();
    p.handle(ready(200, BodySize::Stream));
    p.handle(PumpEvent::ResponseSent);
    p.handle(PumpEvent::BodyChunk(Bytes::from(&b"abc"[..])));
    p.handle(PumpEvent::Capacity(2));
    assert_eq!(p.handle(PumpEvent::DataFailed), PumpAction::Abort);
    assert_eq!(p.stage(), Stage::Failed);

    let mut p = ServiceResponse::default();
    p.handle(ready(200, BodySize::Stream));
    p.handle(PumpEvent::ResponseSent);
    p.handle(PumpEvent::BodyEnd);
    assert_eq!(p.handle(PumpEvent::DataFailed), PumpAction::Abort);
}

#[test]
fn closed_stream_ends_the_response() {
    let mut p = ServiceResponse::default();
    p.handle(ready(200, BodySize::Stream));
    p.handle(PumpEvent::ResponseSent);
    p.handle(PumpEvent::BodyChunk(Bytes::from(&b"abc"[..])));
    assert_eq!(p.handle(PumpEvent::CapacityClosed), PumpAction::Finish);
    assert_eq!(p.stage(), Stage::Done);
    assert_eq!(p.handle(PumpEvent::Wake), PumpAction::Finish);
}

#[test]
fn empty_chunk_is_written_as_empty_data() {
    let mut p = ServiceResponse::default();
    p.handle(ready(200, BodySize::Stream));
    p.handle(PumpEvent::ResponseSent);
    assert_eq!(
        p.handle(PumpEvent::BodyChunk(Bytes::new())),
        PumpAction::PollCapacity { reserve: Some(0) }
    );
    assert_eq!(
        p.handle(PumpEvent::Capacity(10)),
        PumpAction::SendData { data: Bytes::new(), end_of_stream: false }
    );
    assert_eq!(p.handle(PumpEvent::DataSent), PumpAction::PollBody);
}

#[test]
fn keep_alive_deadline_of_a_connection() {
    let on = ServiceConfig::new(Some(5_000));
    let off = ServiceConfig::new(None);
    assert!(on.keep_alive_enabled());
    assert!(!off.keep_alive_enabled());
    assert_eq!(on.keep_alive_expire(1_000), Some(6_000));
    assert_eq!(on.keep_alive_expire(u64::MAX - 10), Some(u64::MAX));
    assert_eq!(off.keep_alive_expire(1_000), None);

    assert_eq!(
        Dispatcher::new(&on, Some(9_000), 1_000),
        Dispatcher { ka_expire: 9_000, ka_timer: Some(9_000) }
    );
    assert_eq!(
        Dispatcher::new(&on, None, 1_000),
        Dispatcher { ka_expire: 6_000, ka_timer: Some(6_000) }
    );
    assert_eq!(Dispatcher::new(&off, None, 1_000), Dispatcher { ka_expire: 1_000, ka_timer: None });
}

#[test]
fn accepted_request_moves_the_expiry() {
    let on = ServiceConfig::new(Some(5_000));
    let off = ServiceConfig::new(None);
    let mut d = Dispatcher::new(&on, None, 1_000);
    assert_eq!(d.poll(&on, AcceptEvent::Request { now: 2_000 }), AcceptAction::Serve);
    assert_eq!(d, Dispatcher { ka_expire: 7_000, ka_timer: Some(6_000) });
    assert_eq!(d.poll(&on, AcceptEvent::Pending), AcceptAction::Suspend);
    assert_eq!(d.poll(&on, AcceptEvent::End), AcceptAction::Close);
    assert_eq!(d.poll(&on, AcceptEvent::Failed), AcceptAction::Abort);
    assert_eq!(d, Dispatcher { ka_expire: 7_000, ka_timer: Some(6_000) });

    let mut fixed = Dispatcher::new(&off, Some(9_000), 1_000);
    assert_eq!(fixed.poll(&off, AcceptEvent::Request { now: 2_000 }), AcceptAction::Serve);
    assert_eq!(fixed, Dispatcher { ka_expire: 9_000, ka_timer: Some(9_000) });

    let mut none = Dispatcher::new(&off, None, 1_000);
    none.poll(&on, AcceptEvent::Request { now: 2_000 });
    assert_eq!(none, Dispatcher { ka_expire: 1_000, ka_timer: None });
}
