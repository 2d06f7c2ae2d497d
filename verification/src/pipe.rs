//! The producer/consumer pipeline: a worker thread pulls bytes from a
//! buffered source and pushes them as chunks into the channel; the
//! caller's thread drains the channel under an absolute deadline and
//! writes the chunks into a sink.

use vstd::prelude::*;
use std::sync::mpsc::Receiver;
use std::sync::mpsc::Sender;
use crate::chan::{recv_chunk_timeout, send_chunk, RecvOutcome};
use crate::deadline::{clock_now_ms, execute_with_deadline, DeadlineStep};
use crate::errors::Error;
use crate::head::{head_len, read_head};
use crate::source::BufSource;

verus! {

/// Size of one read block: the unit in which the producer moves bytes.
pub const BUF_SIZE: usize = 16 * 1000;

/// The blocks the producer sends for a byte sequence: successive blocks
/// of `BUF_SIZE` bytes, the last one alone possibly shorter, and no block
/// for an empty sequence.
pub open spec fn chunks_of(s: Seq<u8>) -> Seq<Seq<u8>>
    decreases s.len(),
{
    if s.len() == 0 {
        Seq::empty()
    } else if s.len() <= BUF_SIZE {
        seq![s]
    } else {
        seq![s.take(BUF_SIZE as int)] + chunks_of(s.skip(BUF_SIZE as int))
    }
}

/// The blocks of a byte sequence concatenate back to exactly it.
pub proof fn lemma_chunks_of_flatten(s: Seq<u8>)
    ensures
        chunks_of(s).flatten() == s,
    decreases s.len(),
{
    if s.len() == 0 {
        assert(chunks_of(s).flatten() =~= s);
    } else if s.len() <= BUF_SIZE {
        seq![s].lemma_flatten_singleton();
    } else {
        let front = s.take(BUF_SIZE as int);
        let rest = s.skip(BUF_SIZE as int);
        lemma_chunks_of_flatten(rest);
        vstd::seq_lib::lemma_flatten_concat(seq![front], chunks_of(rest));
        seq![front].lemma_flatten_singleton();
        assert(front + rest =~= s);
    }
}

/// No block of a byte sequence is empty or longer than `BUF_SIZE`.
pub proof fn lemma_chunks_of_shape(s: Seq<u8>)
    ensures
        forall|i: int|
            0 <= i < chunks_of(s).len() ==> 0 < #[trigger] chunks_of(s)[i].len() <= BUF_SIZE,
    decreases s.len(),
{
    if s.len() > BUF_SIZE {
        let rest = s.skip(BUF_SIZE as int);
        lemma_chunks_of_shape(rest);
        assert forall|i: int|
            0 <= i < chunks_of(s).len() implies 0 < #[trigger] chunks_of(s)[i].len()
            <= BUF_SIZE by {
            if i == 0 {
                assert(chunks_of(s)[0] == s.take(BUF_SIZE as int));
            } else {
                assert(chunks_of(s)[i] == chunks_of(rest)[i - 1]);
                assert(0 < chunks_of(rest)[i - 1].len() <= BUF_SIZE);
            }
        }
    }
}

/// Lets a byte source feed a consumer on another thread through a channel.
pub trait ThreadSend: BufSource {
    /// Reads the head of the response and sends it as one single chunk.
    /// The ghost result is that chunk, exactly the bytes up to and
    /// including the head's terminating blank line.
    fn send_head(&mut self, sender: &Sender<Vec<u8>>) -> (sent: Ghost<Seq<u8>>)
        requires
            old(self).bytes_left().len() <= usize::MAX,
        ensures
            sent@ == old(self).bytes_left().take(head_len(old(self).bytes_left())),
            final(self).bytes_left() == old(self).bytes_left().skip(
                head_len(old(self).bytes_left()),
            );

    /// Reads blocks of at most `BUF_SIZE` bytes until end of input and
    /// sends each non-empty block as one chunk. The ghost result is the
    /// chunks handed to the channel, in order: exactly the successive
    /// `BUF_SIZE`-byte blocks of the source's bytes, so none is empty,
    /// none is longer than `BUF_SIZE`, and together they are exactly what
    /// the source held. Nothing else is ever sent. A chunk handed to a
    /// channel whose receiver is gone is dropped silently; the producer
    /// drains its source either way.
    fn send_all(&mut self, sender: &Sender<Vec<u8>>) -> (sent: Ghost<Seq<Seq<u8>>>)
        ensures
            final(self).bytes_left().len() == 0,
            sent@ == chunks_of(old(self).bytes_left()),
            sent@.flatten() == old(self).bytes_left(),
            forall|i: int| 0 <= i < sent@.len() ==> 0 < #[trigger] sent@[i].len() <= BUF_SIZE;
}

impl<T: BufSource> ThreadSend for T {
    fn send_head(&mut self, sender: &Sender<Vec<u8>>) -> (sent: Ghost<Seq<u8>>) {
        let buf = read_head(self);
        let ghost chunk = buf@;
        send_chunk(sender, buf);
        Ghost(chunk)
    }

    fn send_all(&mut self, sender: &Sender<Vec<u8>>) -> (sent: Ghost<Seq<Seq<u8>>>) {
        let ghost start = self.bytes_left();
        let mut sent: Ghost<Seq<Seq<u8>>> = Ghost(Seq::empty());
        proof {
            assert(sent@ + chunks_of(self.bytes_left()) =~= chunks_of(start));
        }
        loop
            invariant
                sent@ + chunks_of(self.bytes_left()) == chunks_of(start),
            ensures
                self.bytes_left().len() == 0,
                sent@ + chunks_of(self.bytes_left()) == chunks_of(start),
            decreases self.bytes_left().len(),
        {
            let ghost before = self.bytes_left();
            let chunk = self.read_block(BUF_SIZE);
            if chunk.len() == 0 {
                break;
            }
            let ghost c = chunk@;
            proof {
                if before.len() <= BUF_SIZE {
                    assert(c =~= before);
                } else {
                    assert(c =~= before.take(BUF_SIZE as int));
                }
                assert(chunks_of(before) == seq![c] + chunks_of(self.bytes_left()));
                assert(sent@.push(c) =~= sent@ + seq![c]);
                assert((sent@ + seq![c]) + chunks_of(self.bytes_left()) =~= sent@ + (seq![c]
                    + chunks_of(self.bytes_left())));
            }
            send_chunk(sender, chunk);
            sent = Ghost(sent@.push(c));
        }
        proof {
            assert(sent@ =~= chunks_of(start));
            lemma_chunks_of_flatten(start);
            lemma_chunks_of_shape(start);
        }
        sent
    }
}

/// Applies one channel outcome to the sink: an arrived chunk is appended
/// whole; an expired wait is the consumer's one failure here; a closed
/// channel changes nothing — whether that ends a transfer cleanly is the
/// caller's decision.
pub fn apply_outcome(sink: &mut Vec<u8>, outcome: RecvOutcome) -> (r: Option<Error>)
    ensures
        match outcome {
            RecvOutcome::Chunk(d) => r is None && final(sink)@ == old(sink)@ + d@,
            RecvOutcome::TimedOut => r == Some(Error::Timeout) && final(sink)@ == old(sink)@,
            RecvOutcome::Closed => r is None && final(sink)@ == old(sink)@,
        },
{
    match outcome {
        RecvOutcome::Chunk(mut data) => {
            sink.append(&mut data);
            None
        },
        RecvOutcome::TimedOut => Some(Error::Timeout),
        RecvOutcome::Closed => None,
    }
}

/// Lets a byte sink drain chunks sent from another thread through a
/// channel. `Vec<u8>` is the verified in-memory sink; an unverified
/// caller may implement the trait over a file or a socket, whose writes
/// can fail with `IO`.
pub trait ThreadReceive {
    /// The bytes the sink holds.
    spec fn sink_bytes(&self) -> Seq<u8>;

    /// Waits until `deadline_ms` for one chunk and writes it whole into
    /// the sink. The ghost result names the chunk the channel delivered:
    /// when none arrived — the wait expired, or the channel was already
    /// closed — the call fails with `Timeout` and the sink is untouched.
    /// A write fault fails with `IO`.
    fn receive(&mut self, receiver: &Receiver<Vec<u8>>, deadline_ms: u64) -> (res: (
        Result<(), Error>,
        Ghost<Option<Seq<u8>>>,
    ))
        ensures
            match res.1@ {
                Some(c) => res.0 is Err || final(self).sink_bytes() == old(self).sink_bytes() + c,
                None => res.0 is Err && final(self).sink_bytes() == old(self).sink_bytes(),
            },
            res.0 matches Err(e) ==> e == Error::Timeout || e == Error::IO;

    /// Writes chunks into the sink as they arrive, until the channel
    /// closes (success), a wait expires with no chunk ready (`Timeout`),
    /// or a write fails (`IO`). The ghost results name the chunks the
    /// channel delivered, in order — the sink grows by exactly their
    /// concatenation, so chunks written before a failure stay written —
    /// and whether a wait expired, which is the one way `Timeout` comes.
    fn receive_all(&mut self, receiver: &Receiver<Vec<u8>>, deadline_ms: u64) -> (res: (
        Result<(), Error>,
        Ghost<Seq<Seq<u8>>>,
        Ghost<bool>,
    ))
        ensures
            final(self).sink_bytes() == old(self).sink_bytes() + res.1@.flatten(),
            res.2@ ==> res.0 == Err::<(), Error>(Error::Timeout),
            res.0 matches Err(e) ==> e == Error::Timeout || e == Error::IO;

    /// Exactly `receive_all`, and additionally reports the length of each
    /// chunk to `update` right after writing it.
    fn receive_all_update<F: Fn(usize)>(
        &mut self,
        receiver: &Receiver<Vec<u8>>,
        deadline_ms: u64,
        update: F,
    ) -> (res: (Result<(), Error>, Ghost<Seq<Seq<u8>>>, Ghost<bool>))
        requires
            forall|k: usize| call_requires(update, (k,)),
        ensures
            final(self).sink_bytes() == old(self).sink_bytes() + res.1@.flatten(),
            res.2@ ==> res.0 == Err::<(), Error>(Error::Timeout),
            res.0 matches Err(e) ==> e == Error::Timeout || e == Error::IO;
}

impl ThreadReceive for Vec<u8> {
    closed spec fn sink_bytes(&self) -> Seq<u8> {
        self@
    }

    fn receive(&mut self, receiver: &Receiver<Vec<u8>>, deadline_ms: u64) -> (res: (
        Result<(), Error>,
        Ghost<Option<Seq<u8>>>,
    ))
        ensures
            match res.1@ {
                Some(c) => res.0 is Ok && final(self)@ == old(self)@ + c,
                None => res.0 == Err::<(), Error>(Error::Timeout) && final(self)@ == old(self)@,
            },
    {
        let now = clock_now_ms();
        let wait_ms: u64 = if deadline_ms < now {
            0
        } else {
            deadline_ms - now
        };
        let outcome = recv_chunk_timeout(receiver, wait_ms);
        let ghost snap = outcome;
        let closed = match &outcome {
            RecvOutcome::Closed => true,
            _ => false,
        };
        let got: Ghost<Option<Seq<u8>>> = Ghost(
            match snap {
                RecvOutcome::Chunk(d) => Some(d@),
                _ => None,
            },
        );
        match apply_outcome(self, outcome) {
            Some(e) => (Err(e), got),
            None => if closed {
                (Err(Error::Timeout), got)
            } else {
                (Ok(()), got)
            },
        }
    }

    fn receive_all(&mut self, receiver: &Receiver<Vec<u8>>, deadline_ms: u64) -> (res: (
        Result<(), Error>,
        Ghost<Seq<Seq<u8>>>,
        Ghost<bool>,
    ))
        ensures
            res.0 == (if res.2@ {
                Err::<(), Error>(Error::Timeout)
            } else {
                Ok::<(), Error>(())
            }),
    {
        let mut pump = ChunkPump {
            receiver,
            got: Vec::new(),
            failure: None,
            finished: false,
            received: Ghost(Seq::empty()),
        };
        proof {
            assert(pump.got@ =~= written_in_order(Seq::empty(), pump.received@));
        }
        execute_with_deadline(deadline_ms, &mut pump);
        proof {
            lemma_written_in_order_is_flatten(Seq::empty(), pump.received@);
            assert(pump.got@ =~= pump.received@.flatten());
        }
        let received = pump.received;
        let timed_out: Ghost<bool> = Ghost(pump.failure is Some);
        self.append(&mut pump.got);
        match pump.failure {
            None => (Ok(()), received, timed_out),
            Some(e) => (Err(e), received, timed_out),
        }
    }

    fn receive_all_update<F: Fn(usize)>(
        &mut self,
        receiver: &Receiver<Vec<u8>>,
        deadline_ms: u64,
        update: F,
    ) -> (res: (Result<(), Error>, Ghost<Seq<Seq<u8>>>, Ghost<bool>))
        ensures
            res.0 == (if res.2@ {
                Err::<(), Error>(Error::Timeout)
            } else {
                Ok::<(), Error>(())
            }),
    {
        let mut pump = ChunkPumpNotify {
            receiver,
            notify: update,
            got: Vec::new(),
            failure: None,
            finished: false,
            received: Ghost(Seq::empty()),
        };
        proof {
            assert(pump.got@ =~= written_in_order(Seq::empty(), pump.received@));
        }
        execute_with_deadline(deadline_ms, &mut pump);
        proof {
            lemma_written_in_order_is_flatten(Seq::empty(), pump.received@);
            assert(pump.got@ =~= pump.received@.flatten());
        }
        let received = pump.received;
        let timed_out: Ghost<bool> = Ghost(pump.failure is Some);
        self.append(&mut pump.got);
        match pump.failure {
            None => (Ok(()), received, timed_out),
            Some(e) => (Err(e), received, timed_out),
        }
    }
}

/// The consumer's deadline step: one attempt to take a chunk off the
/// channel and keep it.
struct ChunkPump<'a> {
    receiver: &'a Receiver<Vec<u8>>,
    got: Vec<u8>,
    failure: Option<Error>,
    finished: bool,
    received: Ghost<Seq<Seq<u8>>>,
}

impl DeadlineStep for ChunkPump<'_> {
    closed spec fn inv(&self) -> bool {
        &&& self.failure is None || self.failure == Some(Error::Timeout)
        &&& self.got@ == written_in_order(Seq::empty(), self.received@)
    }

    closed spec fn done(&self) -> bool {
        self.finished
    }

    fn step(&mut self, remaining_ms: u64) -> (complete: bool) {
        let outcome = recv_chunk_timeout(self.receiver, remaining_ms);
        let ghost snap = outcome;
        let arrived = match &outcome {
            RecvOutcome::Chunk(_) => true,
            _ => false,
        };
        let ghost c: Seq<u8> = match snap {
            RecvOutcome::Chunk(d) => d@,
            _ => Seq::empty(),
        };
        proof {
            lemma_written_in_order_push(Seq::empty(), self.received@, c);
        }
        let failure = apply_outcome(&mut self.got, outcome);
        if arrived {
            self.received = Ghost(self.received@.push(c));
            false
        } else {
            match failure {
                Some(e) => { self.failure = Some(e) },
                None => {},
            }
            self.finished = true;
            true
        }
    }
}

/// As `ChunkPump`, and additionally reports each kept chunk's length.
struct ChunkPumpNotify<'a, F: Fn(usize)> {
    receiver: &'a Receiver<Vec<u8>>,
    notify: F,
    got: Vec<u8>,
    failure: Option<Error>,
    finished: bool,
    received: Ghost<Seq<Seq<u8>>>,
}

impl<F: Fn(usize)> DeadlineStep for ChunkPumpNotify<'_, F> {
    closed spec fn inv(&self) -> bool {
        &&& self.failure is None || self.failure == Some(Error::Timeout)
        &&& self.got@ == written_in_order(Seq::empty(), self.received@)
        &&& forall|k: usize| call_requires(self.notify, (k,))
    }

    closed spec fn done(&self) -> bool {
        self.finished
    }

    fn step(&mut self, remaining_ms: u64) -> (complete: bool) {
        let outcome = recv_chunk_timeout(self.receiver, remaining_ms);
        let ghost snap = outcome;
        let (arrived, chunk_len) = match &outcome {
            RecvOutcome::Chunk(d) => (true, d.len()),
            _ => (false, 0),
        };
        let ghost c: Seq<u8> = match snap {
            RecvOutcome::Chunk(d) => d@,
            _ => Seq::empty(),
        };
        proof {
            lemma_written_in_order_push(Seq::empty(), self.received@, c);
        }
        let failure = apply_outcome(&mut self.got, outcome);
        if arrived {
            (self.notify)(chunk_len);
            self.received = Ghost(self.received@.push(c));
            false
        } else {
            match failure {
                Some(e) => { self.failure = Some(e) },
                None => {},
            }
            self.finished = true;
            true
        }
    }
}

/// The sink after a sequence of chunks is written into it, each appended
/// whole and in order.
pub open spec fn written_in_order(base: Seq<u8>, chunks: Seq<Seq<u8>>) -> Seq<u8>
    decreases chunks.len(),
{
    if chunks.len() == 0 {
        base
    } else {
        written_in_order(base + chunks.first(), chunks.drop_first())
    }
}

/// Writing chunks in order extends the sink by exactly their
/// concatenation.
pub proof fn lemma_written_in_order_is_flatten(base: Seq<u8>, chunks: Seq<Seq<u8>>)
    ensures
        written_in_order(base, chunks) == base + chunks.flatten(),
    decreases chunks.len(),
{
    if chunks.len() == 0 {
        assert(base + chunks.flatten() =~= base);
    } else {
        lemma_written_in_order_is_flatten(base + chunks.first(), chunks.drop_first());
        assert((base + chunks.first()) + chunks.drop_first().flatten() =~= base + (chunks.first()
            + chunks.drop_first().flatten()));
    }
}

/// Writing one more chunk extends the sink by exactly that chunk.
pub proof fn lemma_written_in_order_push(base: Seq<u8>, chunks: Seq<Seq<u8>>, c: Seq<u8>)
    ensures
        written_in_order(base, chunks.push(c)) == written_in_order(base, chunks) + c,
{
    lemma_written_in_order_is_flatten(base, chunks.push(c));
    lemma_written_in_order_is_flatten(base, chunks);
    chunks.lemma_flatten_push(c);
    assert(base + (chunks.flatten() + c) =~= (base + chunks.flatten()) + c);
}

/// A buffer sent through the pipeline arrives whole: when the chunks a
/// producer sent concatenate to the byte buffer `b` — as `send_all`
/// guarantees of the source's bytes — a sink that starts out holding
/// `base` and receives every chunk, in order and each written whole — as
/// `receive_all` guarantees of the chunks the channel delivered — ends up
/// holding `base` followed by exactly `b`. The chunk boundaries are
/// unobservable in the final result.
pub proof fn lemma_transfer_preserves_bytes(b: Seq<u8>, chunks: Seq<Seq<u8>>, base: Seq<u8>)
    requires
        chunks.flatten() == b,
    ensures
        written_in_order(base, chunks) == base + b,
{
    lemma_written_in_order_is_flatten(base, chunks);
}

} // verus!
