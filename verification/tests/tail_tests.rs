use std::sync::mpsc::sync_channel;

use flowgger::decoder::JsonDecoder;
use flowgger::pipeline::{Encoder, ForwardError};
use flowgger::record::Record;
use flowgger::tail::{FileWorker, TailBuffer};

/// A minimal encoder for the tests: the record's hostname as bytes.
struct HostnameEncoder;

impl Encoder for HostnameEncoder {
    fn encode(&self, record: Record) -> Result<Vec<u8>, &'static str> {
        Ok(record.hostname.into_bytes())
    }
}

/// An encoder that always fails, to observe the per-line error policy.
struct RefusingEncoder;

impl Encoder for RefusingEncoder {
    fn encode(&self, _record: Record) -> Result<Vec<u8>, &'static str> {
        Err("nothing can be represented")
    }
}

#[test]
fn feed_splits_complete_lines_in_order() {
    let mut buf = TailBuffer::new();
    let lines = buf.feed(&b"first\nsecond\nthird\n".to_vec());
    assert_eq!(lines, vec![b"first".to_vec(), b"second".to_vec(), b"third".to_vec()]);
    // Nothing pending: the next terminator yields an empty line only.
    let lines = buf.feed(&b"\n".to_vec());
    assert_eq!(lines, vec![Vec::<u8>::new()]);
}

#[test]
fn unterminated_line_stays_pending() {
    let mut buf = TailBuffer::new();
    let lines = buf.feed(&b"partial".to_vec());
    assert!(lines.is_empty());
    // Still incomplete after another unterminated chunk.
    let lines = buf.feed(&b" line".to_vec());
    assert!(lines.is_empty());
    // The terminator completes the whole accumulated line.
    let lines = buf.feed(&b" done\n".to_vec());
    assert_eq!(lines, vec![b"partial line done".to_vec()]);
    let lines = buf.feed(&b"".to_vec());
    assert!(lines.is_empty());
}

#[test]
fn mixed_chunk_keeps_only_the_tail() {
    let mut buf = TailBuffer::new();
    let lines = buf.feed(&b"a\nb\nrest".to_vec());
    assert_eq!(lines, vec![b"a".to_vec(), b"b".to_vec()]);
    let lines = buf.feed(&b"!\n".to_vec());
    assert_eq!(lines, vec![b"rest!".to_vec()]);
}

#[test]
fn worker_forwards_each_complete_line_in_order() {
    let (tx, rx) = sync_channel::<Vec<u8>>(16);
    let mut worker = FileWorker::new("/var/log/app.log", tx, JsonDecoder, HostnameEncoder);
    let failures = worker.drain(&b"{\"host\":\"one\"}\n{\"host\":\"two\"}\n".to_vec());
    assert!(failures.is_empty());
    assert_eq!(rx.try_recv().unwrap(), b"one".to_vec());
    assert_eq!(rx.try_recv().unwrap(), b"two".to_vec());
    assert!(rx.try_recv().is_err());
}

#[test]
fn worker_attempts_nothing_before_the_terminator() {
    let (tx, rx) = sync_channel::<Vec<u8>>(16);
    let mut worker = FileWorker::new("/var/log/app.log", tx, JsonDecoder, HostnameEncoder);
    let failures = worker.drain(&b"{\"host\":\"late\"}".to_vec());
    assert!(failures.is_empty());
    assert!(rx.try_recv().is_err());
    // The terminator arrives in a later append: only then is the line
    // decoded and forwarded.
    let failures = worker.drain(&b"\n".to_vec());
    assert!(failures.is_empty());
    assert_eq!(rx.try_recv().unwrap(), b"late".to_vec());
}

#[test]
fn one_bad_line_never_halts_the_tail() {
    let (tx, rx) = sync_channel::<Vec<u8>>(16);
    let mut worker = FileWorker::new("/var/log/app.log", tx, JsonDecoder, HostnameEncoder);
    let failures = worker.drain(&b"not json\n{\"host\":\"ok\"}\n".to_vec());
    assert_eq!(failures.len(), 1);
    assert_eq!(failures[0].0, b"not json".to_vec());
    assert!(matches!(failures[0].1, ForwardError::Decode(_)));
    // The line after the bad one still went through.
    assert_eq!(rx.try_recv().unwrap(), b"ok".to_vec());
}

#[test]
fn encode_failure_is_reported_per_line() {
    let (tx, rx) = sync_channel::<Vec<u8>>(16);
    let mut worker = FileWorker::new("/var/log/app.log", tx, JsonDecoder, RefusingEncoder);
    let failures = worker.drain(&b"{\"host\":\"x\"}\n".to_vec());
    assert_eq!(failures.len(), 1);
    assert!(matches!(failures[0].1, ForwardError::Encode(_)));
    assert!(rx.try_recv().is_err());
}

#[test]
fn closed_queue_is_reported() {
    let (tx, rx) = sync_channel::<Vec<u8>>(16);
    drop(rx);
    let mut worker = FileWorker::new("/var/log/app.log", tx, JsonDecoder, HostnameEncoder);
    let failures = worker.drain(&b"{\"host\":\"x\"}\n".to_vec());
    assert_eq!(failures.len(), 1);
    assert!(matches!(failures[0].1, ForwardError::QueueClosed));
}

#[test]
fn invalid_utf8_line_is_reported() {
    let (tx, rx) = sync_channel::<Vec<u8>>(16);
    let mut worker = FileWorker::new("/var/log/app.log", tx, JsonDecoder, HostnameEncoder);
    let failures = worker.drain(&vec![0xffu8, 0xfe, 10]);
    assert_eq!(failures.len(), 1);
    assert!(matches!(failures[0].1, ForwardError::NotUtf8));
    assert!(rx.try_recv().is_err());
}
