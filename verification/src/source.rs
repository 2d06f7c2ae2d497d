//! Buffered byte sources: what the head scanner and the channel producer
//! read from.

use vstd::prelude::*;
use crate::head::{lemma_line_len_at, line_len, LF};

verus! {

/// A buffered byte source, modelled as the bytes it will still deliver.
/// `ByteReader` is the implementation; the unverified edge collects what a
/// connection yields — treating a read fault exactly like end of input,
/// as the transport core's policy asks — and hands the bytes in.
pub trait BufSource {
    /// The bytes not yet consumed from this source.
    spec fn bytes_left(&self) -> Seq<u8>;

    /// Reads one line: every byte up to and including the first line feed,
    /// or all remaining bytes when no line feed remains. The line is
    /// appended to `buf`; the count of appended bytes is returned.
    fn read_until_lf(&mut self, buf: &mut Vec<u8>) -> (n: usize)
        requires
            old(self).bytes_left().len() + old(buf)@.len() <= usize::MAX,
        ensures
            n as int == line_len(old(self).bytes_left()),
            final(buf)@ == old(buf)@ + old(self).bytes_left().take(n as int),
            final(self).bytes_left() == old(self).bytes_left().skip(n as int);

    /// Reads the next block into a fresh chunk: the front `max` bytes of
    /// the source, or all of them when fewer are left. An empty chunk
    /// means end of input.
    fn read_block(&mut self, max: usize) -> (chunk: Vec<u8>)
        requires
            max > 0,
        ensures
            chunk@.len() == if old(self).bytes_left().len() <= max as nat {
                old(self).bytes_left().len()
            } else {
                max as nat
            },
            chunk@ == old(self).bytes_left().take(chunk@.len() as int),
            final(self).bytes_left() == old(self).bytes_left().skip(chunk@.len() as int);
}

/// An in-memory buffered byte source: a buffer and a cursor.
pub struct ByteReader {
    data: Vec<u8>,
    pos: usize,
}

impl ByteReader {
    #[verifier::type_invariant]
    spec fn wf(self) -> bool {
        self.pos <= self.data@.len()
    }

    /// Wraps a buffer as a source positioned at its start.
    pub fn new(data: Vec<u8>) -> (r: ByteReader)
        ensures
            r.bytes_left() == data@,
    {
        let r = ByteReader { data, pos: 0 };
        proof {
            assert(r.bytes_left() =~= r.data@);
        }
        r
    }
}

impl BufSource for ByteReader {
    closed spec fn bytes_left(&self) -> Seq<u8> {
        self.data@.skip(self.pos as int)
    }

    fn read_until_lf(&mut self, buf: &mut Vec<u8>) -> (n: usize) {
        proof {
            use_type_invariant(&*self);
        }
        let ghost rem = self.bytes_left();
        let start = self.pos;
        let mut i = start;

        // Find the end of the line: one past the first line feed, or the
        // end of the buffer.
        while i < self.data.len() && self.data[i] != LF
            invariant
                start <= i <= self.data@.len(),
                start == self.pos <= self.data@.len(),
                forall|k: int| start <= k < i ==> self.data@[k] != LF,
            decreases self.data@.len() - i,
        {
            i = i + 1;
        }
        let line_end = if i < self.data.len() { i + 1 } else { i };

        proof {
            lemma_line_len_at(self.data@, start as int, line_end as int);
        }

        // Append the line to `buf` and advance past it.
        proof {
            assert(buf@ =~= old(buf)@ + self.data@.subrange(start as int, start as int));
        }
        let mut j = start;
        while j < line_end
            invariant
                start <= j <= line_end <= self.data@.len(),
                buf@ == old(buf)@ + self.data@.subrange(start as int, j as int),
            decreases line_end - j,
        {
            let b = self.data[j];
            buf.push(b);
            proof {
                assert(buf@ =~= old(buf)@ + self.data@.subrange(start as int, j + 1));
            }
            j = j + 1;
        }
        self.pos = line_end;

        proof {
            assert(rem.take(line_end - start) =~= self.data@.subrange(start as int, line_end as int));
            assert(self.bytes_left() =~= rem.skip(line_end - start));
        }
        line_end - start
    }

    fn read_block(&mut self, max: usize) -> (chunk: Vec<u8>) {
        proof {
            use_type_invariant(&*self);
        }
        let ghost rem = self.bytes_left();
        let available = self.data.len() - self.pos;
        let take_n = if available < max { available } else { max };
        let end = self.pos + take_n;

        let mut chunk: Vec<u8> = Vec::new();
        proof {
            assert(chunk@ =~= self.data@.subrange(self.pos as int, self.pos as int));
        }
        let mut j = self.pos;
        while j < end
            invariant
                self.pos <= j <= end <= self.data@.len(),
                chunk@ == self.data@.subrange(self.pos as int, j as int),
            decreases end - j,
        {
            let b = self.data[j];
            chunk.push(b);
            proof {
                assert(chunk@ =~= self.data@.subrange(self.pos as int, j + 1));
            }
            j = j + 1;
        }
        self.pos = end;

        proof {
            assert(chunk@ =~= rem.take(take_n as int));
            assert(self.bytes_left() =~= rem.skip(take_n as int));
        }
        chunk
    }
}

} // verus!
