//! The file-tail input worker's verified core: partial-line buffering.
//!
//! Raw bytes arrive in arbitrary chunks as a tailed file grows. A line is
//! complete only once its terminator (byte value 10) has arrived; bytes
//! after the last terminator stay pending until a later chunk completes
//! them. `TailBuffer::feed` is proved to return exactly the complete lines
//! of `pending + chunk`, in order, and to retain exactly the unterminated
//! rest. The worker forwards each complete line through its decoder and
//! encoder onto the pipeline queue; one bad line never halts the tail.

use vstd::prelude::*;

use crate::decoder::Decoder;
use crate::pipeline::{handle_record, bytes_to_string, spec_line_failure, Encoder, ForwardError};
use vstd::slice::slice_to_vec;

verus! {

/// What splitting a byte stream into terminated lines yields: the complete
/// lines (without their terminators), and the unterminated rest. `cur` is
/// the partial line already pending when the stream starts.
pub open spec fn spec_split(s: Seq<u8>, cur: Seq<u8>) -> (Seq<Seq<u8>>, Seq<u8>)
    decreases s.len(),
{
    if s.len() == 0 {
        (Seq::empty(), cur)
    } else if s[0] == 10u8 {
        let (rest_lines, rest) = spec_split(s.drop_first(), Seq::empty());
        (seq![cur] + rest_lines, rest)
    } else {
        spec_split(s.drop_first(), cur.push(s[0]))
    }
}

/// The accumulation buffer of one tailed source: everything read since the
/// last line terminator.
pub struct TailBuffer {
    pending: Vec<u8>,
}

impl View for TailBuffer {
    type V = Seq<u8>;

    closed spec fn view(&self) -> Seq<u8> {
        self.pending@
    }
}

impl TailBuffer {
    /// A buffer with nothing pending.
    pub fn new() -> (r: TailBuffer)
        ensures
            r@ == Seq::<u8>::empty(),
    {
        let r = TailBuffer { pending: Vec::new() };
        proof {
            assert(r@ =~= Seq::<u8>::empty());
        }
        r
    }

    /// Absorbs one chunk of freshly read bytes: returns every line completed
    /// by it, in order, and keeps the unterminated rest pending.
    pub fn feed(&mut self, chunk: &Vec<u8>) -> (lines: Vec<Vec<u8>>)
        ensures
            lines.deep_view() == spec_split(chunk@, old(self)@).0,
            final(self)@ == spec_split(chunk@, old(self)@).1,
    {
        let mut cur: Vec<u8> = Vec::new();
        core::mem::swap(&mut cur, &mut self.pending);
        let mut lines: Vec<Vec<u8>> = Vec::new();
        proof {
            assert(chunk@.skip(0) =~= chunk@);
            assert(lines.deep_view() =~= Seq::<Seq<u8>>::empty());
        }
        let mut j: usize = 0;
        while j < chunk.len()
            invariant
                0 <= j <= chunk.len(),
                spec_split(chunk@, old(self)@) == ({
                    let (ls, rest) = spec_split(chunk@.skip(j as int), cur@);
                    (lines.deep_view() + ls, rest)
                }),
            decreases chunk.len() - j,
        {
            proof {
                assert(chunk@.skip(j as int)[0] == chunk@[j as int]);
                assert(chunk@.skip(j as int).drop_first() =~= chunk@.skip(j as int + 1));
            }
            let ghost lines_before = lines.deep_view();
            let ghost cur_before = cur@;
            let b = chunk[j];
            if b == 10 {
                lines.push(cur);
                cur = Vec::new();
                proof {
                    assert(cur@ =~= Seq::<u8>::empty());
                    assert(lines.deep_view() =~~= lines_before.push(cur_before));
                    let (ls2, rest2) = spec_split(chunk@.skip(j as int + 1), Seq::empty());
                    assert(spec_split(chunk@.skip(j as int), cur_before).0 =~= seq![cur_before]
                        + ls2);
                    assert(lines_before + (seq![cur_before] + ls2) =~= lines.deep_view() + ls2);
                }
            } else {
                cur.push(b);
            }
            j = j + 1;
        }
        proof {
            assert(chunk@.skip(j as int) =~= Seq::<u8>::empty());
            assert(lines.deep_view() + Seq::<Seq<u8>>::empty() =~= lines.deep_view());
        }
        self.pending = cur;
        lines
    }
}

/// Feeding bytes that hold no terminator completes no line: they only
/// extend what is pending. A line written without its trailing terminator
/// produces no decode attempt until the terminator arrives.
pub proof fn lemma_split_no_terminator(chunk: Seq<u8>, cur: Seq<u8>)
    requires
        !chunk.contains(10u8),
    ensures
        spec_split(chunk, cur) == (Seq::<Seq<u8>>::empty(), cur + chunk),
    decreases chunk.len(),
{
    if chunk.len() == 0 {
        assert(cur + chunk =~= cur);
    } else {
        assert(chunk[0] != 10u8);
        assert(!chunk.drop_first().contains(10u8)) by {
            assert(forall|i: int|
                0 <= i < chunk.drop_first().len() ==> chunk.drop_first()[i] == (
                #[trigger] chunk[i + 1]));
        }
        lemma_split_no_terminator(chunk.drop_first(), cur.push(chunk[0]));
        assert(cur.push(chunk[0]) + chunk.drop_first() =~= cur + chunk);
    }
}

/// One terminated line at the stream's front comes out as one complete
/// line: the pending prefix plus that line, with the rest split on its own.
pub proof fn lemma_split_first_line(line: Seq<u8>, rest: Seq<u8>, cur: Seq<u8>)
    requires
        !line.contains(10u8),
    ensures
        spec_split(line + seq![10u8] + rest, cur) == ({
            let (ls, pending) = spec_split(rest, Seq::empty());
            (seq![cur + line] + ls, pending)
        }),
    decreases line.len(),
{
    let s = line + seq![10u8] + rest;
    if line.len() == 0 {
        assert(s[0] == 10u8);
        assert(s.drop_first() =~= rest);
        assert(cur + line =~= cur);
        let (ls, pending) = spec_split(rest, Seq::empty());
        assert(spec_split(s, cur).0 =~= seq![cur + line] + ls);
    } else {
        assert(s[0] == line[0]);
        assert(s[0] != 10u8);
        assert(s.drop_first() =~= line.drop_first() + seq![10u8] + rest);
        assert(!line.drop_first().contains(10u8)) by {
            assert(forall|i: int|
                0 <= i < line.drop_first().len() ==> line.drop_first()[i] == (
                #[trigger] line[i + 1]));
        }
        lemma_split_first_line(line.drop_first(), rest, cur.push(line[0]));
        assert(cur.push(line[0]) + line.drop_first() =~= cur + line);
    }
}

/// The byte stream a sequence of terminated lines forms: each line followed
/// by one terminator.
pub open spec fn spec_join(lines: Seq<Seq<u8>>) -> Seq<u8>
    decreases lines.len(),
{
    if lines.len() == 0 {
        Seq::empty()
    } else {
        lines[0] + seq![10u8] + spec_join(lines.drop_first())
    }
}

/// A stream of exactly N terminated lines, fed from an empty buffer, splits
/// into exactly those N lines, in order, with nothing left pending: a tail
/// started at such a stream attempts every line, in file order.
pub proof fn lemma_split_joined_lines(lines: Seq<Seq<u8>>)
    requires
        forall|i: int| 0 <= i < lines.len() ==> !(#[trigger] lines[i]).contains(10u8),
    ensures
        spec_split(spec_join(lines), Seq::empty()) == (lines, Seq::<u8>::empty()),
    decreases lines.len(),
{
    if lines.len() == 0 {
        assert(spec_join(lines) =~= Seq::<u8>::empty());
    } else {
        lemma_split_first_line(lines[0], spec_join(lines.drop_first()), Seq::empty());
        assert(forall|i: int|
            0 <= i < lines.drop_first().len() ==> lines.drop_first()[i] == (
            #[trigger] lines[i + 1]));
        lemma_split_joined_lines(lines.drop_first());
        assert(Seq::<u8>::empty() + lines[0] =~= lines[0]);
        assert(seq![lines[0]] + lines.drop_first() =~= lines);
    }
}

/// One tailed source: its path, the queue it feeds, its codec pair, and the
/// partial-line buffer. The watch loop itself (filesystem notifications,
/// reads, the seek-to-end of a tail started at the file's current end) is
/// driven from outside; every byte read is handed to `drain`.
pub struct FileWorker<D: Decoder, E: Encoder> {
    pub path: String,
    pub tx: std::sync::mpsc::SyncSender<Vec<u8>>,
    pub decoder: D,
    pub encoder: E,
    pub buffer: TailBuffer,
}

impl<D: Decoder, E: Encoder> FileWorker<D, E> {
    /// A worker for one source path, feeding the given queue through the
    /// given codec pair, with nothing pending.
    pub fn new(path: &str, tx: std::sync::mpsc::SyncSender<Vec<u8>>, decoder: D, encoder: E) -> (w:
        FileWorker<D, E>)
        ensures
            w.path@ == path@,
            w.tx == tx,
            w.decoder == decoder,
            w.encoder == encoder,
            w.buffer@ == Seq::<u8>::empty(),
    {
        FileWorker { path: path.to_owned(), tx, decoder, encoder, buffer: TailBuffer::new() }
    }

    /// Absorbs one chunk of freshly read bytes and forwards every line it
    /// completes, in order. Returns the lines that failed, each with its
    /// reason, so the caller can log them; a failed line never stops the
    /// others. The unterminated rest stays pending. Each returned failure
    /// is one of the lines this chunk completed, the failures keep the
    /// lines' order, and every reason is genuine for its line: bytes that
    /// are not UTF-8, the decoder's or encoder's own verdict, or the closed
    /// queue.
    pub fn drain(&mut self, chunk: &Vec<u8>) -> (failures: Vec<(Vec<u8>, ForwardError)>)
        ensures
            final(self).buffer@ == spec_split(chunk@, old(self).buffer@).1,
            final(self).path@ == old(self).path@,
            final(self).tx == old(self).tx,
            final(self).decoder == old(self).decoder,
            final(self).encoder == old(self).encoder,
            ({
                let completed = spec_split(chunk@, old(self).buffer@).0;
                exists|positions: Seq<int>|
                    {
                        &&& positions.len() == failures.len()
                        &&& (forall|k: int|
                            0 <= k < positions.len() ==> 0 <= #[trigger] positions[k]
                                < completed.len())
                        &&& (forall|k: int|
                            0 <= k < positions.len() - 1 ==> #[trigger] positions[k]
                                < positions[k + 1])
                        &&& (forall|k: int|
                            0 <= k < failures.len() ==> (#[trigger] failures@[k]).0@
                                == completed[positions[k]] && spec_line_failure(
                                &old(self).decoder,
                                &old(self).encoder,
                                completed[positions[k]],
                                failures@[k].1,
                            ))
                    }
            }),
    {
        let lines = self.buffer.feed(chunk);
        let ghost completed = spec_split(chunk@, old(self).buffer@).0;
        let mut failures: Vec<(Vec<u8>, ForwardError)> = Vec::new();
        let ghost mut positions: Seq<int> = Seq::empty();
        let mut i: usize = 0;
        while i < lines.len()
            invariant
                0 <= i <= lines.len(),
                lines.deep_view() == completed,
                self.buffer@ == spec_split(chunk@, old(self).buffer@).1,
                self.path@ == old(self).path@,
                self.tx == old(self).tx,
                self.decoder == old(self).decoder,
                self.encoder == old(self).encoder,
                positions.len() == failures.len(),
                forall|k: int| 0 <= k < positions.len() ==> 0 <= #[trigger] positions[k] < i,
                forall|k: int|
                    0 <= k < positions.len() - 1 ==> #[trigger] positions[k] < positions[k + 1],
                forall|k: int|
                    0 <= k < failures.len() ==> (#[trigger] failures@[k]).0@
                        == completed[positions[k]] && spec_line_failure(
                        &old(self).decoder,
                        &old(self).encoder,
                        completed[positions[k]],
                        failures@[k].1,
                    ),
            decreases lines.len() - i,
        {
            proof {
                assert(lines@[i as int].deep_view() =~= lines@[i as int]@);
                assert(completed[i as int] == lines@[i as int]@);
            }
            let line_bytes = slice_to_vec(lines[i].as_slice());
            match bytes_to_string(line_bytes) {
                Some(line) => {
                    let line_str = line.as_str();
                    match handle_record(line_str, &self.tx, &self.decoder, &self.encoder) {
                        Ok(()) => {},
                        Err(e) => {
                            failures.push((slice_to_vec(lines[i].as_slice()), e));
                            proof {
                                positions = positions.push(i as int);
                                assert(spec_line_failure(
                                    &old(self).decoder,
                                    &old(self).encoder,
                                    completed[i as int],
                                    e,
                                ));
                            }
                        },
                    }
                },
                None => {
                    failures.push((slice_to_vec(lines[i].as_slice()), ForwardError::NotUtf8));
                    proof {
                        positions = positions.push(i as int);
                    }
                },
            }
            i = i + 1;
        }
        failures
    }
}

} // verus!
