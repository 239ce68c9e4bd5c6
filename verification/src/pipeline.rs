//! The capabilities a pipeline stage is wired from, and the forwarding step
//! an input worker performs per complete line: decode, re-encode, push onto
//! the shared bounded queue.
//!
//! The queue itself is a bounded multi-producer channel of encoded byte
//! records; pushing blocks when it is full, which is the pipeline's
//! backpressure mechanism. The channel sits behind a trusted wrapper.

use vstd::prelude::*;

use crate::decoder::{Decoder, DecodeError};
use crate::record::Record;

verus! {

/// The capability a pipeline output needs: record in, wire bytes out. An
/// implementation is duplicable across worker threads; an encoding failure
/// is reported, never silently truncated.
pub trait Encoder: Sized {
    /// Serializes the full record into the target wire representation.
    fn encode(&self, record: Record) -> Result<Vec<u8>, &'static str>;
}

/// The optional framing capability of byte-stream sinks: delimits one
/// encoded record in place. Message-oriented sinks ignore it.
pub trait Merger: Sized {
    /// Frames one encoded record for a streaming sink.
    fn frame(&self, bytes: &mut Vec<u8>);
}

/// Why forwarding one complete line failed.
#[derive(Clone, Copy, Debug, PartialEq)]
pub enum ForwardError {
    /// The line's bytes are not valid UTF-8.
    NotUtf8,
    /// The decoder rejected the line.
    Decode(DecodeError),
    /// The encoder rejected the record.
    Encode(&'static str),
    /// The consuming side of the pipeline queue is gone.
    QueueClosed,
}

/// Declares `std::sync::mpsc::SyncSender`, the producing end of the bounded
/// pipeline queue, so a worker can hold one; it stays opaque to the proofs.
#[verifier::external_type_specification]
#[verifier::external_body]
#[verifier::reject_recursive_types(T)]
pub struct ExSyncSender<T>(std::sync::mpsc::SyncSender<T>);

/// Relies on `std::sync::mpsc::SyncSender::send`: blocks while the bounded
/// queue is full (the backpressure this pipeline is built on) and fails only
/// when the receiving side has disconnected.
#[verifier::external_body]
pub(crate) fn queue_send(tx: &std::sync::mpsc::SyncSender<Vec<u8>>, bytes: Vec<u8>) -> (r: Result<
    (),
    ForwardError,
>)
    ensures
        r matches Err(e) ==> e == ForwardError::QueueClosed,
{
    tx.send(bytes).map_err(|_| ForwardError::QueueClosed)
}

/// Relies on `String::from_utf8`: turns a complete line's bytes into text,
/// `None` exactly when they are not valid UTF-8.
#[verifier::external_body]
pub(crate) fn bytes_to_string(bytes: Vec<u8>) -> (r: Option<String>)
    ensures
        r is Some <==> vstd::utf8::valid_utf8(bytes@),
        r matches Some(s) ==> s@ == vstd::utf8::decode_utf8(bytes@),
{
    String::from_utf8(bytes).ok()
}

/// Forwards one complete line: decode, encode, push onto the queue. A
/// failure of any step is returned to the caller, who logs it and goes on —
/// a single malformed line never halts a tail. A decode error is the
/// decoder's own verdict on the line; an encode error the encoder's on a
/// record the decoder produced; success, and a closed queue, both mean the
/// line decoded and its record encoded.
pub fn handle_record<D: Decoder, E: Encoder>(
    line: &str,
    tx: &std::sync::mpsc::SyncSender<Vec<u8>>,
    decoder: &D,
    encoder: &E,
) -> (r: Result<(), ForwardError>)
    ensures
        r matches Err(ForwardError::Decode(e)) ==> call_ensures(
            D::decode,
            (decoder, line),
            Err::<Record, DecodeError>(e),
        ),
        r matches Err(ForwardError::Encode(m)) ==> exists|rec: Record|
            call_ensures(D::decode, (decoder, line), Ok::<Record, DecodeError>(rec))
                && call_ensures(E::encode, (encoder, rec), Err::<Vec<u8>, &'static str>(m)),
        (r is Ok || r matches Err(ForwardError::QueueClosed)) ==> exists|
            rec: Record,
            bytes: Vec<u8>,
        |
            call_ensures(D::decode, (decoder, line), Ok::<Record, DecodeError>(rec))
                && call_ensures(E::encode, (encoder, rec), Ok::<Vec<u8>, &'static str>(bytes)),
        !(r matches Err(ForwardError::NotUtf8)),
{
    let record = match decoder.decode(line) {
        Ok(r) => r,
        Err(e) => {
            return Err(ForwardError::Decode(e));
        },
    };
    let bytes = match encoder.encode(record) {
        Ok(b) => b,
        Err(e) => {
            return Err(ForwardError::Encode(e));
        },
    };
    queue_send(tx, bytes)
}

/// Whether a reported failure is genuine for a completed line's bytes:
/// text that is not UTF-8; the decoder's own verdict on the decoded text;
/// the encoder's verdict on a record the decoder produced; or a line that
/// decoded and encoded but found the queue's consuming side gone.
pub open spec fn spec_line_failure<D: Decoder, E: Encoder>(
    decoder: &D,
    encoder: &E,
    bytes: Seq<u8>,
    e: ForwardError,
) -> bool {
    match e {
        ForwardError::NotUtf8 => !vstd::utf8::valid_utf8(bytes),
        ForwardError::Decode(de) => exists|s: &str|
            s@ == vstd::utf8::decode_utf8(bytes) && call_ensures(
                D::decode,
                (decoder, s),
                Err::<Record, DecodeError>(de),
            ),
        ForwardError::Encode(m) => exists|s: &str, rec: Record|
            s@ == vstd::utf8::decode_utf8(bytes) && call_ensures(
                D::decode,
                (decoder, s),
                Ok::<Record, DecodeError>(rec),
            ) && call_ensures(E::encode, (encoder, rec), Err::<Vec<u8>, &'static str>(m)),
        ForwardError::QueueClosed => exists|s: &str, rec: Record, out: Vec<u8>|
            s@ == vstd::utf8::decode_utf8(bytes) && call_ensures(
                D::decode,
                (decoder, s),
                Ok::<Record, DecodeError>(rec),
            ) && call_ensures(E::encode, (encoder, rec), Ok::<Vec<u8>, &'static str>(out)),
    }
}

} // verus!
