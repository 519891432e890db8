use wasi_gateway::stream::{
    read_request_body, ReadOutcome, ReadPolicy, ReadRequest, Reader, DRAIN_CHUNK, REPLY_CHUNK,
    REPLY_CYCLES, REPLY_LIMIT,
};

fn data(bytes: &[u8]) -> ReadOutcome {
    ReadOutcome::Data(bytes.to_vec())
}

#[test]
fn the_read_limits_are_the_fixed_ones() {
    assert_eq!(DRAIN_CHUNK, 32 * 1024);
    assert_eq!(REPLY_CHUNK, 4 * 1024);
    assert_eq!(REPLY_CYCLES, 20);
    assert_eq!(REPLY_LIMIT, 4096);
}

#[test]
fn a_drain_asks_for_large_reads_without_waiting() {
    let reader = Reader::new(ReadPolicy::Drain);
    assert_eq!(reader.request(), Some(ReadRequest { wait_first: false, limit: 32768 }));
}

#[test]
fn an_awaited_drain_waits_before_each_read() {
    let reader = Reader::new(ReadPolicy::DrainAwaited);
    assert_eq!(reader.request(), Some(ReadRequest { wait_first: true, limit: 32768 }));
}

#[test]
fn a_reply_waits_and_asks_for_small_reads() {
    let reader = Reader::new(ReadPolicy::Reply);
    assert_eq!(reader.request(), Some(ReadRequest { wait_first: true, limit: 4096 }));
}

#[test]
fn a_drain_ends_at_the_first_empty_read() {
    let mut reader = Reader::new(ReadPolicy::Drain);
    reader = reader.accept(data(b"hello "));
    assert!(!reader.is_finished());
    reader = reader.accept(data(b"world"));
    assert!(!reader.is_finished());
    reader = reader.accept(data(b""));
    assert!(reader.is_finished());
    assert_eq!(reader.request(), None);
    assert_eq!(reader.bytes(), &b"hello world".to_vec());
    assert_eq!(reader.text(), "hello world");
}

#[test]
fn a_drain_ends_when_the_stream_is_closed() {
    let mut reader = Reader::new(ReadPolicy::Drain);
    reader = reader.accept(data(b"abc"));
    reader = reader.accept(ReadOutcome::Closed);
    assert!(reader.is_finished());
    assert_eq!(reader.bytes(), &b"abc".to_vec());
}

#[test]
fn a_drain_ends_at_a_failed_read_and_keeps_what_it_has() {
    let mut reader = Reader::new(ReadPolicy::DrainAwaited);
    reader = reader.accept(data(b"partial"));
    reader = reader.accept(ReadOutcome::Failed);
    assert!(reader.is_finished());
    assert_eq!(reader.request(), None);
    assert_eq!(reader.text(), "partial");
}

#[test]
fn a_drain_that_is_over_takes_nothing_more() {
    let mut reader = Reader::new(ReadPolicy::Drain);
    reader = reader.accept(data(b"abc"));
    reader = reader.accept(ReadOutcome::Closed);
    reader = reader.accept(data(b"late"));
    assert!(reader.is_finished());
    assert_eq!(reader.bytes(), &b"abc".to_vec());
}

#[test]
fn a_drain_has_no_ceiling() {
    let mut reader = Reader::new(ReadPolicy::Drain);
    for _ in 0..100 {
        reader = reader.accept(data(&[7u8; 100]));
    }
    assert!(!reader.is_finished());
    assert_eq!(reader.bytes().len(), 10_000);
    assert_eq!(reader.cycles(), 0);
}

#[test]
fn a_reply_gives_up_after_twenty_reads_of_a_silent_peer() {
    let mut reader = Reader::new(ReadPolicy::Reply);
    let mut reads = 0;
    while reader.request().is_some() {
        reader = reader.accept(ReadOutcome::Failed);
        reads += 1;
        assert!(reads <= 20);
    }
    assert_eq!(reads, 20);
    assert_eq!(reader.cycles(), 20);
    assert!(reader.is_finished());
    assert_eq!(reader.text(), "");
}

#[test]
fn a_reply_gives_up_after_twenty_reads_of_a_trickling_peer() {
    let mut reader = Reader::new(ReadPolicy::Reply);
    let mut reads = 0;
    while reader.request().is_some() {
        reader = reader.accept(data(b"x"));
        reads += 1;
    }
    assert_eq!(reads, 20);
    assert_eq!(reader.text(), "x".repeat(20));
}

#[test]
fn a_failed_read_of_a_reply_only_counts() {
    let mut reader = Reader::new(ReadPolicy::Reply);
    reader = reader.accept(ReadOutcome::Failed);
    assert!(!reader.is_finished());
    assert_eq!(reader.cycles(), 1);
    reader = reader.accept(data(b"pong"));
    assert!(!reader.is_finished());
    reader = reader.accept(data(b""));
    assert!(reader.is_finished());
    assert_eq!(reader.cycles(), 3);
    assert_eq!(reader.text(), "pong");
}

#[test]
fn a_reply_ends_when_the_stream_is_closed() {
    let mut reader = Reader::new(ReadPolicy::Reply);
    reader = reader.accept(data(b"bye"));
    reader = reader.accept(ReadOutcome::Closed);
    assert!(reader.is_finished());
    assert_eq!(reader.text(), "bye");
}

#[test]
fn a_reply_ends_once_it_holds_the_byte_limit() {
    let mut reader = Reader::new(ReadPolicy::Reply);
    reader = reader.accept(data(&[b'a'; 4095]));
    assert!(!reader.is_finished());
    reader = reader.accept(data(b"b"));
    assert!(reader.is_finished());
    assert_eq!(reader.bytes().len(), 4096);
    assert_eq!(reader.cycles(), 2);
}

#[test]
fn a_reply_keeps_a_read_that_goes_past_the_byte_limit() {
    let mut reader = Reader::new(ReadPolicy::Reply);
    reader = reader.accept(data(&[b'a'; 4000]));
    reader = reader.accept(data(&[b'b'; 4000]));
    assert!(reader.is_finished());
    assert_eq!(reader.bytes().len(), 8000);
}

#[test]
fn the_text_of_a_reader_repairs_broken_utf8() {
    let mut reader = Reader::new(ReadPolicy::Drain);
    reader = reader.accept(data(&[b'o', b'k', 0xff]));
    reader = reader.accept(ReadOutcome::Closed);
    assert_eq!(reader.text(), "ok\u{fffd}");
}

#[test]
fn a_body_without_a_stream_is_empty() {
    let reader = read_request_body(false);
    assert!(reader.is_finished());
    assert_eq!(reader.request(), None);
    assert_eq!(reader.text(), "");
}

#[test]
fn a_body_is_drained() {
    let mut reader = read_request_body(true);
    assert_eq!(reader.request(), Some(ReadRequest { wait_first: false, limit: 32768 }));
    reader = reader.accept(data(b"text=hello&"));
    reader = reader.accept(data(b"response_url="));
    reader = reader.accept(data(b""));
    assert_eq!(reader.request(), None);
    assert_eq!(reader.text(), "text=hello&response_url=");
}

#[test]
fn a_closed_reader_stays_closed() {
    let reader = Reader::closed(ReadPolicy::Reply).accept(data(b"late"));
    assert!(reader.is_finished());
    assert_eq!(reader.cycles(), 0);
    assert_eq!(reader.text(), "");
}
