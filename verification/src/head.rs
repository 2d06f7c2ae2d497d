//! The head scanner: finds the boundary between an HTTP message's header
//! block and its body in a byte stream.
//!
//! A line is a run of bytes up to and including a line-feed byte (or to the
//! end of the input when no line feed remains). The header block ends with
//! the first line that is exactly the two-byte carriage-return/line-feed
//! pair; when no such blank line occurs, the whole input belongs to the head.

use vstd::prelude::*;
use crate::source::BufSource;

verus! {

/// The line-feed byte.
pub const LF: u8 = 10;

/// The carriage-return byte.
pub const CR: u8 = 13;

/// Length of the first line of `s`: everything up to and including the first
/// line feed, or all of `s` when it holds no line feed.
pub open spec fn line_len(s: Seq<u8>) -> int
    decreases s.len(),
{
    if s.len() == 0 {
        0
    } else if s[0] == LF {
        1
    } else {
        1 + line_len(s.drop_first())
    }
}

/// Whether the first line of `s` is the blank line that terminates a head:
/// exactly the two bytes carriage return, line feed.
pub open spec fn starts_with_blank_line(s: Seq<u8>) -> bool {
    line_len(s) == 2 && s[0] == CR && s[1] == LF
}

/// A line is never empty except on empty input, and never runs past it.
pub proof fn lemma_line_len_bounds(s: Seq<u8>)
    ensures
        s.len() == 0 ==> line_len(s) == 0,
        s.len() > 0 ==> 1 <= line_len(s) <= s.len(),
    decreases s.len(),
{
    if s.len() > 0 && s[0] != LF {
        lemma_line_len_bounds(s.drop_first());
    }
}

/// Length of the head of `s`: whole lines up to and including the first
/// blank line, or all of `s` when no blank line occurs.
pub open spec fn head_len(s: Seq<u8>) -> int
    decreases s.len(),
    via head_len_decreases
{
    if s.len() == 0 {
        0
    } else if starts_with_blank_line(s) {
        2
    } else {
        line_len(s) + head_len(s.skip(line_len(s)))
    }
}

#[via_fn]
proof fn head_len_decreases(s: Seq<u8>) {
    lemma_line_len_bounds(s);
}

/// The head never runs past the input.
pub proof fn lemma_head_len_bounds(s: Seq<u8>)
    ensures
        0 <= head_len(s) <= s.len(),
    decreases s.len(),
{
    lemma_line_len_bounds(s);
    if s.len() == 0 {
    } else if starts_with_blank_line(s) {
    } else {
        lemma_head_len_bounds(s.skip(line_len(s)));
    }
}

/// A well-formed header block: complete lines, each ending in a line
/// feed and none of them blank, closed by the blank carriage-return
/// line-feed line.
pub open spec fn is_head_block(h: Seq<u8>) -> bool
    decreases h.len(),
    via is_head_block_decreases
{
    if h.len() == 0 {
        false
    } else if starts_with_blank_line(h) {
        h.len() == 2
    } else {
        h[line_len(h) - 1] == LF && is_head_block(h.skip(line_len(h)))
    }
}

#[via_fn]
proof fn is_head_block_decreases(h: Seq<u8>) {
    lemma_line_len_bounds(h);
}

/// No line of `s` is the blank carriage-return line-feed line.
pub open spec fn has_no_blank_line(s: Seq<u8>) -> bool
    decreases s.len(),
    via has_no_blank_line_decreases
{
    if s.len() == 0 {
        true
    } else {
        !starts_with_blank_line(s) && has_no_blank_line(s.skip(line_len(s)))
    }
}

#[via_fn]
proof fn has_no_blank_line_decreases(s: Seq<u8>) {
    lemma_line_len_bounds(s);
}

/// Within `data`, the line that starts at `start` ends exactly at
/// `line_end` when no line feed sits strictly before `line_end - 1` and
/// `line_end` either follows a line feed or is the end of the data.
pub(crate) proof fn lemma_line_len_at(data: Seq<u8>, start: int, line_end: int)
    requires
        0 <= start <= line_end <= data.len(),
        forall|k: int| start <= k < line_end - 1 ==> data[k] != LF,
        line_end < data.len() ==> line_end > start && data[line_end - 1] == LF,
        line_end == start ==> start == data.len(),
    ensures
        line_len(data.skip(start)) == line_end - start,
    decreases line_end - start,
{
    let s = data.skip(start);
    if line_end == start {
        assert(s.len() == 0);
    } else if data[start] == LF {
        assert(s[0] == LF);
        assert(line_end <= start + 1);
    } else {
        assert(s[0] != LF);
        lemma_line_len_at(data, start + 1, line_end);
        assert(s.drop_first() =~= data.skip(start + 1));
    }
}

/// The first line of a concatenation is the first line of its first part,
/// when that part opens with a complete line.
proof fn lemma_line_len_concat(h: Seq<u8>, rest: Seq<u8>)
    requires
        1 <= line_len(h) <= h.len(),
        h[line_len(h) - 1] == LF,
    ensures
        line_len(h + rest) == line_len(h),
    decreases h.len(),
{
    let s = h + rest;
    if h[0] == LF {
        assert(s[0] == LF);
    } else {
        lemma_line_len_bounds(h.drop_first());
        assert(line_len(h) == 1 + line_len(h.drop_first()));
        assert(h.drop_first()[line_len(h.drop_first()) - 1] == h[line_len(h) - 1]);
        lemma_line_len_concat(h.drop_first(), rest);
        assert(s.drop_first() =~= h.drop_first() + rest);
        assert(s[0] == h[0]);
    }
}

/// The head of a buffer that opens with a well-formed header block is
/// exactly that block, regardless of what follows it. With `read_head`'s
/// contract: applied to such a buffer, it returns precisely the bytes up
/// to and including the blank line.
pub proof fn lemma_head_len_of_block(h: Seq<u8>, rest: Seq<u8>)
    requires
        is_head_block(h),
    ensures
        head_len(h + rest) == h.len(),
    decreases h.len(),
{
    let s = h + rest;
    lemma_line_len_bounds(h);
    lemma_line_len_concat(h, rest);
    if starts_with_blank_line(h) {
        assert(s[0] == h[0] && s[1] == h[1]);
        assert(starts_with_blank_line(s));
    } else {
        let l = line_len(h);
        assert(s[0] == h[0]);
        assert(l == 2 ==> s[1] == h[1]);
        assert(!starts_with_blank_line(s));
        assert(s.skip(l) =~= h.skip(l) + rest);
        lemma_head_len_of_block(h.skip(l), rest);
    }
}

/// The head of a buffer with no blank line is the entire buffer. With
/// `read_head`'s contract: applied to such a buffer, it returns all of it,
/// with no error indicator.
pub proof fn lemma_head_len_no_blank(s: Seq<u8>)
    requires
        has_no_blank_line(s),
    ensures
        head_len(s) == s.len(),
    decreases s.len(),
{
    lemma_line_len_bounds(s);
    if s.len() > 0 {
        lemma_head_len_no_blank(s.skip(line_len(s)));
    }
}

/// Reads the head of an HTTP response from `reader`.
///
/// Reads line by line until a blank line is found, which signals that all
/// meta-information has been read. End of input ends the scan the same way a
/// blank line does: the caller cannot tell a clean boundary from a truncated
/// stream by this result alone.
pub fn read_head<B: BufSource>(reader: &mut B) -> (buf: Vec<u8>)
    requires
        old(reader).bytes_left().len() <= usize::MAX,
    ensures
        buf@ == old(reader).bytes_left().take(head_len(old(reader).bytes_left())),
        final(reader).bytes_left() == old(reader).bytes_left().skip(head_len(old(reader).bytes_left())),
{
    let ghost s0 = reader.bytes_left();
    let mut buf: Vec<u8> = Vec::new();

    proof {
        lemma_head_len_bounds(s0);
        assert(buf@ =~= s0.take(0));
        assert(reader.bytes_left() =~= s0.skip(0));
    }

    loop
        invariant_except_break
            head_len(s0) == buf@.len() + head_len(reader.bytes_left()),
        invariant
            buf@.len() + reader.bytes_left().len() == s0.len() <= usize::MAX,
            buf@ == s0.take(buf@.len() as int),
            reader.bytes_left() == s0.skip(buf@.len() as int),
        ensures
            buf@.len() == head_len(s0),
            buf@ == s0.take(buf@.len() as int),
            reader.bytes_left() == s0.skip(buf@.len() as int),
        decreases reader.bytes_left().len(),
    {
        let ghost rem = reader.bytes_left();
        let ghost done = buf@.len() as int;
        let n = reader.read_until_lf(&mut buf);

        proof {
            lemma_line_len_bounds(rem);
            assert(s0.take(done + n as int) =~= s0.take(done) + rem.take(n as int));
            assert(s0.skip(done + n as int) =~= rem.skip(n as int));
        }

        if n == 0 {
            // End of input: the remainder was empty, so the head ends here.
            proof {
                assert(rem.len() == 0);
                assert(buf@ =~= s0.take(done));
            }
            break;
        }

        if n == 2 && buf[buf.len() - 2] == CR && buf[buf.len() - 1] == LF {
            proof {
                assert(buf@[done] == rem[0] && buf@[done + 1] == rem[1]);
                assert(starts_with_blank_line(rem));
            }
            break;
        }

        proof {
            // The line just consumed was not the blank terminator, so the
            // head continues past it.
            if n == 2 {
                assert(buf@[done] == rem[0] && buf@[done + 1] == rem[1]);
            }
            assert(!starts_with_blank_line(rem));
            assert(head_len(rem) == n + head_len(rem.skip(n as int)));
        }
    }

    proof {
        assert(buf@ =~= s0.take(head_len(s0)));
        assert(reader.bytes_left() =~= s0.skip(head_len(s0)));
    }
    buf
}

/// Where the head of `buf` ends, once its blank line has arrived: the
/// count of bytes up to and including the first blank line, or `None`
/// while `buf` holds no blank line yet. Lets a caller that collects bytes
/// incrementally tell a complete head from one still arriving.
pub fn find_head_end(buf: &Vec<u8>) -> (r: Option<usize>)
    ensures
        match r {
            Some(k) => k as int == head_len(buf@) && !has_no_blank_line(buf@),
            None => has_no_blank_line(buf@),
        },
{
    let n = buf.len();
    let mut pos: usize = 0;
    proof {
        assert(buf@.skip(0) =~= buf@);
    }
    while pos < n
        invariant
            pos <= n == buf@.len(),
            head_len(buf@) == pos + head_len(buf@.skip(pos as int)),
            has_no_blank_line(buf@) <==> has_no_blank_line(buf@.skip(pos as int)),
        decreases n - pos,
    {
        let ghost rem = buf@.skip(pos as int);

        // Find the line feed that ends the line at `pos`.
        let mut i = pos;
        while i < n && buf[i] != LF
            invariant
                pos <= i <= n == buf@.len(),
                forall|k: int| pos <= k < i ==> buf@[k] != LF,
            decreases n - i,
        {
            i = i + 1;
        }

        if i == n {
            // The remainder is one unfinished line without a line feed,
            // and such a line is never the blank terminator.
            proof {
                lemma_line_len_at(buf@, pos as int, n as int);
                assert(!starts_with_blank_line(rem));
                assert(rem.skip(line_len(rem)).len() == 0);
                assert(has_no_blank_line(rem.skip(line_len(rem))));
                assert(has_no_blank_line(rem));
            }
            return None;
        }
        let line_end = i + 1;
        proof {
            lemma_line_len_at(buf@, pos as int, line_end as int);
        }

        if line_end - pos == 2 && buf[pos] == CR {
            proof {
                assert(rem[0] == CR && rem[1] == LF);
                assert(starts_with_blank_line(rem));
                assert(head_len(rem) == 2);
            }
            return Some(line_end);
        }

        proof {
            // Not the blank line: the head and the blank-line search both
            // continue past it.
            if line_end - pos == 2 {
                assert(rem[0] != CR);
            }
            assert(!starts_with_blank_line(rem));
            assert(head_len(rem) == line_len(rem) + head_len(rem.skip(line_len(rem))));
            assert(rem.skip(line_len(rem)) =~= buf@.skip(line_end as int));
        }
        pos = line_end;
    }
    proof {
        assert(has_no_blank_line(buf@.skip(pos as int)));
    }
    None
}

} // verus!
