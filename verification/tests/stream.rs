use http_transport::connect::{connect_step, plan_upgrade, select_candidate, AttemptOutcome,
    ConnectDecision, UpgradeAction};
use http_transport::errors::{ConnectKind, Error};
use http_transport::head::{find_head_end, read_head};
use http_transport::pipe::{ThreadReceive, ThreadSend};
use http_transport::source::{BufSource, ByteReader};
use std::sync::mpsc;
use std::time::{SystemTime, UNIX_EPOCH};

const TIMEOUT_MS: u64 = 3000;

const RESPONSE: &[u8; 129] = b"HTTP/1.1 200 OK\r\n\
                             Date: Sat, 11 Jan 2003 02:44:04 GMT\r\n\
                             Content-Type: text/html\r\n\
                             Content-Length: 100\r\n\r\n\
                             <html>hello</html>\r\n\r\nhello";

const RESPONSE_H: &[u8; 102] = b"HTTP/1.1 200 OK\r\n\
                               Date: Sat, 11 Jan 2003 02:44:04 GMT\r\n\
                               Content-Type: text/html\r\n\
                               Content-Length: 100\r\n\r\n";

fn now_ms() -> u64 {
    SystemTime::now()
        .duration_since(UNIX_EPOCH)
        .map_or(0, |d| d.as_millis() as u64)
}

#[test]
fn fn_read_head() {
    let mut buf_reader = ByteReader::new(RESPONSE.to_vec());
    let raw_head = read_head(&mut buf_reader);

    assert_eq!(raw_head, RESPONSE_H);
}

#[test]
fn thread_send_send_head() {
    let (sender, receiver) = mpsc::channel();

    let mut reader = ByteReader::new(RESPONSE.to_vec());
    reader.send_head(&sender);

    let raw_head = receiver.recv().unwrap();
    assert_eq!(raw_head, RESPONSE_H);
}

#[test]
fn thread_send_send_all() {
    let (sender, receiver) = mpsc::channel();

    let mut reader = ByteReader::new(RESPONSE.to_vec());
    reader.send_all(&sender);

    let raw_head = receiver.recv().unwrap();
    assert_eq!(raw_head, RESPONSE);
}

#[test]
fn thread_receive_receive() {
    let (sender, receiver) = mpsc::channel();
    let deadline = now_ms() + TIMEOUT_MS;

    let res = [RESPONSE[..50].to_vec(), RESPONSE[50..].to_vec()];
    for part in res {
        sender.send(part).unwrap();
    }

    let mut buf: Vec<u8> = Vec::new();
    buf.receive(&receiver, deadline).0.unwrap();

    assert_eq!(buf, RESPONSE[..50]);
}

#[test]
fn thread_receive_receive_all() {
    let (sender, receiver) = mpsc::channel();
    let deadline = now_ms() + TIMEOUT_MS;

    let res = [RESPONSE[..50].to_vec(), RESPONSE[50..].to_vec()];
    for part in res {
        sender.send(part).unwrap();
    }
    drop(sender);

    let mut buf: Vec<u8> = Vec::new();
    buf.receive_all(&receiver, deadline).0.unwrap();

    assert_eq!(buf, RESPONSE);
}

#[test]
fn thread_receive_receive_all_update() {
    let (sender, receiver) = mpsc::channel();
    let deadline = now_ms() + TIMEOUT_MS;

    let res = [RESPONSE[..50].to_vec(), RESPONSE[50..].to_vec()];
    for part in res {
        sender.send(part).unwrap();
    }
    drop(sender);

    let mut buf: Vec<u8> = Vec::new();
    buf.receive_all_update(&receiver, deadline, |len: usize| {
        assert!(len == 50 || len == 79);
    })
    .0
    .unwrap();

    assert_eq!(buf, RESPONSE);
}

#[test]
fn receive_with_passed_deadline_times_out() {
    let (sender, receiver) = mpsc::channel::<Vec<u8>>();

    let mut buf: Vec<u8> = Vec::new();
    let r = buf.receive(&receiver, 0).0;

    assert_eq!(r, Err(Error::Timeout));
    assert!(buf.is_empty());
    drop(sender);
}

#[test]
fn receive_all_with_passed_deadline_stops_before_any_wait() {
    let (sender, receiver) = mpsc::channel::<Vec<u8>>();

    let mut buf: Vec<u8> = Vec::new();
    let r = buf.receive_all(&receiver, 0).0;

    // The deadline loop stops before a single wait is attempted, so no
    // failure is recorded and nothing is received.
    assert_eq!(r, Ok(()));
    assert!(buf.is_empty());
    drop(sender);
}

#[test]
fn receive_all_two_chunks_then_close() {
    let (sender, receiver) = mpsc::channel();
    let deadline = now_ms() + TIMEOUT_MS;

    sender.send(b"ab".to_vec()).unwrap();
    sender.send(b"cde".to_vec()).unwrap();
    drop(sender);

    let mut buf: Vec<u8> = Vec::new();
    let r = buf.receive_all(&receiver, deadline).0;

    assert_eq!(r, Ok(()));
    assert_eq!(buf, b"abcde");
}

#[test]
fn head_then_body_round_trip() {
    let input = b"HTTP/1.1 200 OK\r\nContent-Length: 5\r\n\r\nhello";
    let deadline = now_ms() + TIMEOUT_MS;

    let mut reader = ByteReader::new(input.to_vec());
    let (sender, receiver) = mpsc::channel();

    reader.send_head(&sender);
    let head = receiver.recv().unwrap();
    assert_eq!(head, b"HTTP/1.1 200 OK\r\nContent-Length: 5\r\n\r\n");

    reader.send_all(&sender);
    drop(sender);

    let mut sink: Vec<u8> = Vec::new();
    sink.receive_all(&receiver, deadline).0.unwrap();
    assert_eq!(sink, b"hello");
}

#[test]
fn read_head_without_blank_line_returns_everything() {
    let input = b"HTTP/1.1 200 OK\r\nContent-Length: 5\r\n";
    let mut reader = ByteReader::new(input.to_vec());

    let raw_head = read_head(&mut reader);
    assert_eq!(raw_head, input);
}

#[test]
fn byte_reader_reads_lines_and_blocks() {
    let mut reader = ByteReader::new(b"ab\ncd".to_vec());

    let mut line: Vec<u8> = Vec::new();
    let n = reader.read_until_lf(&mut line);
    assert_eq!(n, 3);
    assert_eq!(line, b"ab\n");

    let block = reader.read_block(10);
    assert_eq!(block, b"cd");

    let end = reader.read_block(10);
    assert!(end.is_empty());
}

#[test]
fn read_head_of_empty_input_is_empty() {
    let mut reader = ByteReader::new(Vec::new());
    assert!(read_head(&mut reader).is_empty());
}

#[test]
fn read_head_stops_at_immediate_blank_line() {
    let mut reader = ByteReader::new(b"\r\nbody".to_vec());
    assert_eq!(read_head(&mut reader), b"\r\n");
}

#[test]
fn read_head_ignores_bare_line_feed_as_blank() {
    // A line that is only a line feed is not the blank terminator: the
    // head ends at the first full carriage-return line-feed line.
    let mut reader = ByteReader::new(b"\n\r\nx".to_vec());
    assert_eq!(read_head(&mut reader), b"\n\r\n");
}

#[test]
fn find_head_end_tracks_arriving_bytes() {
    assert_eq!(find_head_end(&b"".to_vec()), None);
    assert_eq!(find_head_end(&b"HTTP/1.1 200 OK\r\n".to_vec()), None);
    assert_eq!(find_head_end(&b"HTTP/1.1 200 OK\r\n\r".to_vec()), None);
    assert_eq!(find_head_end(&b"HTTP/1.1 200 OK\r\n\r\n".to_vec()), Some(19));
    assert_eq!(find_head_end(&b"HTTP/1.1 200 OK\r\n\r\nbody\r\n\r\n".to_vec()), Some(19));
    assert_eq!(find_head_end(&RESPONSE.to_vec()), Some(RESPONSE_H.len()));
}

#[test]
fn send_all_splits_large_input_into_blocks() {
    let data = vec![7u8; 33000];
    let (sender, receiver) = mpsc::channel();

    let mut reader = ByteReader::new(data.clone());
    reader.send_all(&sender);
    drop(sender);

    let first = receiver.recv().unwrap();
    let second = receiver.recv().unwrap();
    let third = receiver.recv().unwrap();
    assert_eq!(first.len(), 16000);
    assert_eq!(second.len(), 16000);
    assert_eq!(third.len(), 1000);
    assert!(receiver.recv().is_err());

    let mut joined = first;
    joined.extend(second);
    joined.extend(third);
    assert_eq!(joined, data);
}

#[test]
fn select_candidate_skips_plain_failures() {
    let outcomes = vec![
        AttemptOutcome::Failed,
        AttemptOutcome::Failed,
        AttemptOutcome::Connected,
        AttemptOutcome::TimedOut,
    ];
    assert_eq!(select_candidate(&outcomes), Ok(2));
}

#[test]
fn select_candidate_timeout_is_final() {
    let outcomes = vec![AttemptOutcome::TimedOut, AttemptOutcome::Connected];
    assert_eq!(
        select_candidate(&outcomes),
        Err(Error::Connect(ConnectKind::TimedOut))
    );
}

#[test]
fn select_candidate_exhausts_candidates() {
    let outcomes = vec![AttemptOutcome::Failed, AttemptOutcome::Failed];
    assert_eq!(
        select_candidate(&outcomes),
        Err(Error::Connect(ConnectKind::Exhausted))
    );
}

#[test]
fn select_candidate_without_candidates() {
    let outcomes: Vec<AttemptOutcome> = Vec::new();
    assert_eq!(select_candidate(&outcomes), Err(Error::AddressResolution));
}

#[test]
fn connect_step_decisions() {
    assert_eq!(
        connect_step(AttemptOutcome::Connected, false),
        ConnectDecision::UseThis
    );
    assert_eq!(
        connect_step(AttemptOutcome::TimedOut, false),
        ConnectDecision::FailTimeout
    );
    assert_eq!(
        connect_step(AttemptOutcome::Failed, false),
        ConnectDecision::TryNext
    );
    assert_eq!(
        connect_step(AttemptOutcome::Failed, true),
        ConnectDecision::FailExhausted
    );
}

#[test]
fn plan_upgrade_decisions() {
    assert_eq!(plan_upgrade(false, true), UpgradeAction::Handshake);
    assert_eq!(plan_upgrade(false, false), UpgradeAction::Keep);
    assert_eq!(plan_upgrade(true, true), UpgradeAction::Keep);
    assert_eq!(plan_upgrade(true, false), UpgradeAction::Keep);
}
