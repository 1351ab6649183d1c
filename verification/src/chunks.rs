//! The line-oriented count model and the chunk-boundary-safe reader.
//!
//! A buffer's count for a pattern is the sum, line by line, of the line
//! counts. Chunks are cut only at line terminators (except possibly the last
//! chunk), so summing per-chunk counts reproduces the whole buffer's count
//! whatever the chunk size: the lemmas at the end state exactly that.

use vstd::prelude::*;
use crate::count::fold_bytes;
use crate::count::occ_count;
use crate::count::lemma_occ_count_le;
use crate::matcher::line_search_ok;
use crate::matcher::regex_line_match;

verus! {

/// The line-terminator byte.
pub const NEWLINE: u8 = 10;

/// What one line contributes for one pattern: the number of occurrences of
/// the pattern's (folded) text in the (folded) line when the regex matches
/// the line, and zero otherwise.
pub open spec fn line_count(pattern: Seq<u8>, case_sensitive: bool, line: Seq<u8>) -> nat {
    if regex_line_match(pattern, case_sensitive, line) {
        occ_count(fold_bytes(case_sensitive, pattern), fold_bytes(case_sensitive, line))
    } else {
        0
    }
}

/// A pattern's count over `rest`, read line by line, with `cur` holding the
/// bytes of the line in progress; a final line without terminator counts too.
pub open spec fn count_acc(pattern: Seq<u8>, case_sensitive: bool, rest: Seq<u8>, cur: Seq<u8>) -> nat
    decreases rest.len(),
{
    if rest.len() == 0 {
        if cur.len() == 0 {
            0
        } else {
            line_count(pattern, case_sensitive, cur)
        }
    } else if rest[0] == NEWLINE {
        line_count(pattern, case_sensitive, cur.push(NEWLINE))
            + count_acc(pattern, case_sensitive, rest.skip(1), Seq::empty())
    } else {
        count_acc(pattern, case_sensitive, rest.skip(1), cur.push(rest[0]))
    }
}

/// A pattern's total count over a whole byte buffer.
pub open spec fn buffer_count(pattern: Seq<u8>, case_sensitive: bool, s: Seq<u8>) -> nat {
    count_acc(pattern, case_sensitive, s, Seq::empty())
}

/// A line's count never exceeds the line's length.
pub proof fn lemma_line_count_le(pattern: Seq<u8>, case_sensitive: bool, line: Seq<u8>)
    ensures
        line_count(pattern, case_sensitive, line) <= line.len(),
{
    if regex_line_match(pattern, case_sensitive, line) {
        lemma_occ_count_le(fold_bytes(case_sensitive, pattern), fold_bytes(case_sensitive, line));
    }
}

/// A buffer's count never exceeds the line in progress plus the rest.
pub proof fn lemma_count_acc_le(pattern: Seq<u8>, case_sensitive: bool, rest: Seq<u8>, cur: Seq<u8>)
    ensures
        count_acc(pattern, case_sensitive, rest, cur) <= cur.len() + rest.len(),
    decreases rest.len(),
{
    if rest.len() == 0 {
        lemma_line_count_le(pattern, case_sensitive, cur);
    } else if rest[0] == NEWLINE {
        lemma_line_count_le(pattern, case_sensitive, cur.push(NEWLINE));
        lemma_count_acc_le(pattern, case_sensitive, rest.skip(1), Seq::empty());
    } else {
        lemma_count_acc_le(pattern, case_sensitive, rest.skip(1), cur.push(rest[0]));
    }
}

/// Whether the search completes normally on every line of `rest`, with
/// `cur` the line in progress; mirrors `count_acc`'s line structure.
pub open spec fn search_ok_acc(
    pattern: Seq<u8>,
    case_sensitive: bool,
    rest: Seq<u8>,
    cur: Seq<u8>,
) -> bool
    decreases rest.len(),
{
    if rest.len() == 0 {
        cur.len() == 0 || line_search_ok(pattern, case_sensitive, cur)
    } else if rest[0] == NEWLINE {
        line_search_ok(pattern, case_sensitive, cur.push(NEWLINE)) && search_ok_acc(
            pattern,
            case_sensitive,
            rest.skip(1),
            Seq::empty(),
        )
    } else {
        search_ok_acc(pattern, case_sensitive, rest.skip(1), cur.push(rest[0]))
    }
}

/// Whether the search completes normally on every line of a buffer; when it
/// does not, matching that buffer reports the matcher's failure.
pub open spec fn buffer_search_ok(pattern: Seq<u8>, case_sensitive: bool, s: Seq<u8>) -> bool {
    search_ok_acc(pattern, case_sensitive, s, Seq::empty())
}

proof fn lemma_search_ok_acc_concat(
    pattern: Seq<u8>,
    case_sensitive: bool,
    a: Seq<u8>,
    b: Seq<u8>,
    cur: Seq<u8>,
)
    requires
        a.len() > 0,
        a.last() == NEWLINE,
    ensures
        search_ok_acc(pattern, case_sensitive, a + b, cur) == (search_ok_acc(
            pattern,
            case_sensitive,
            a,
            cur,
        ) && buffer_search_ok(pattern, case_sensitive, b)),
    decreases a.len(),
{
    let ab = a + b;
    assert(ab[0] == a[0]);
    if a[0] == NEWLINE {
        assert(search_ok_acc(pattern, case_sensitive, ab, cur) == (line_search_ok(
            pattern,
            case_sensitive,
            cur.push(NEWLINE),
        ) && search_ok_acc(pattern, case_sensitive, ab.skip(1), Seq::<u8>::empty())));
        if a.len() == 1 {
            assert(ab.skip(1) =~= b);
            assert(a.skip(1) =~= Seq::<u8>::empty());
            assert(search_ok_acc(pattern, case_sensitive, a.skip(1), Seq::<u8>::empty()));
        } else {
            assert(ab.skip(1) =~= a.skip(1) + b);
            assert(a.skip(1).last() == NEWLINE);
            lemma_search_ok_acc_concat(pattern, case_sensitive, a.skip(1), b, Seq::empty());
        }
    } else {
        assert(a.len() >= 2);
        assert(ab.skip(1) =~= a.skip(1) + b);
        assert(a.skip(1).last() == NEWLINE);
        lemma_search_ok_acc_concat(pattern, case_sensitive, a.skip(1), b, cur.push(a[0]));
    }
}

/// When `a` is empty or ends with a line terminator — as every chunk but
/// the last does — the search completes on the joined buffer exactly when
/// it completes on both parts.
pub proof fn lemma_buffer_search_ok_concat(
    pattern: Seq<u8>,
    case_sensitive: bool,
    a: Seq<u8>,
    b: Seq<u8>,
)
    requires
        a.len() == 0 || a.last() == NEWLINE,
    ensures
        buffer_search_ok(pattern, case_sensitive, a + b) == (buffer_search_ok(
            pattern,
            case_sensitive,
            a,
        ) && buffer_search_ok(pattern, case_sensitive, b)),
{
    if a.len() == 0 {
        assert(a + b =~= b);
    } else {
        lemma_search_ok_acc_concat(pattern, case_sensitive, a, b, Seq::empty());
    }
}

/// An empty buffer counts zero for every pattern: an empty file succeeds
/// with every requested pattern mapped to zero.
pub proof fn lemma_empty_buffer_count(pattern: Seq<u8>, case_sensitive: bool)
    ensures
        buffer_count(pattern, case_sensitive, Seq::<u8>::empty()) == 0,
{
}

/// A buffer's count never exceeds the buffer's length.
pub proof fn lemma_buffer_count_le(pattern: Seq<u8>, case_sensitive: bool, s: Seq<u8>)
    ensures
        buffer_count(pattern, case_sensitive, s) <= s.len(),
{
    lemma_count_acc_le(pattern, case_sensitive, s, Seq::empty());
}

proof fn lemma_count_acc_concat(
    pattern: Seq<u8>,
    case_sensitive: bool,
    a: Seq<u8>,
    b: Seq<u8>,
    cur: Seq<u8>,
)
    requires
        a.len() > 0,
        a.last() == NEWLINE,
    ensures
        count_acc(pattern, case_sensitive, a + b, cur) == count_acc(pattern, case_sensitive, a, cur)
            + buffer_count(pattern, case_sensitive, b),
    decreases a.len(),
{
    let ab = a + b;
    assert(ab[0] == a[0]);
    if a[0] == NEWLINE {
        if a.len() == 1 {
            assert(ab.skip(1) =~= b);
            assert(a.skip(1) =~= Seq::<u8>::empty());
        } else {
            assert(ab.skip(1) =~= a.skip(1) + b);
            assert(a.skip(1).last() == NEWLINE);
            lemma_count_acc_concat(pattern, case_sensitive, a.skip(1), b, Seq::empty());
        }
    } else {
        assert(a.len() >= 2);
        assert(ab.skip(1) =~= a.skip(1) + b);
        assert(a.skip(1).last() == NEWLINE);
        lemma_count_acc_concat(pattern, case_sensitive, a.skip(1), b, cur.push(a[0]));
    }
}

/// Additivity: when `a` is empty or ends with a line terminator, the count
/// of the joined buffer is the sum of the two buffers' counts. Chunks are
/// cut exactly so, which is why per-chunk counts add up to the file's.
pub proof fn lemma_buffer_count_concat(pattern: Seq<u8>, case_sensitive: bool, a: Seq<u8>, b: Seq<u8>)
    requires
        a.len() == 0 || a.last() == NEWLINE,
    ensures
        buffer_count(pattern, case_sensitive, a + b) == buffer_count(pattern, case_sensitive, a)
            + buffer_count(pattern, case_sensitive, b),
{
    if a.len() == 0 {
        assert(a + b =~= b);
    } else {
        lemma_count_acc_concat(pattern, case_sensitive, a, b, Seq::empty());
    }
}

/// Where the chunk that starts at `pos` ends: the read grows in steps of
/// `sz` bytes until the last byte taken is a line terminator or the data
/// runs out.
pub open spec fn chunk_end(data: Seq<u8>, pos: int, sz: int) -> int
    decreases data.len() - pos,
    when 0 <= pos < data.len() && 1 <= sz
{
    let e = if pos + sz >= data.len() {
        data.len() as int
    } else {
        pos + sz
    };
    if e == data.len() || data[e - 1] == NEWLINE {
        e
    } else {
        chunk_end(data, e, sz)
    }
}

/// A chunk is non-empty, stays within the data, and ends at the data's end
/// or right after a line terminator.
pub proof fn lemma_chunk_end(data: Seq<u8>, pos: int, sz: int)
    requires
        0 <= pos < data.len(),
        1 <= sz,
    ensures
        pos < chunk_end(data, pos, sz) <= data.len(),
        chunk_end(data, pos, sz) == data.len() || data[chunk_end(data, pos, sz) - 1] == NEWLINE,
    decreases data.len() - pos,
{
    let e = if pos + sz >= data.len() {
        data.len() as int
    } else {
        pos + sz
    };
    if e == data.len() || data[e - 1] == NEWLINE {
    } else {
        lemma_chunk_end(data, e, sz);
    }
}

/// Line-boundary safety: every chunk boundary short of the data's end is
/// preceded by a line terminator, and cutting there and rejoining
/// reproduces the byte stream exactly.
pub proof fn lemma_line_boundary_safety(data: Seq<u8>, pos: int, sz: int)
    requires
        0 <= pos < data.len(),
        1 <= sz,
    ensures
        pos < chunk_end(data, pos, sz) <= data.len(),
        chunk_end(data, pos, sz) < data.len() ==> data[chunk_end(data, pos, sz) - 1] == NEWLINE,
        data.subrange(pos, chunk_end(data, pos, sz)) + data.skip(chunk_end(data, pos, sz))
            == data.skip(pos),
{
    lemma_chunk_end(data, pos, sz);
    assert(data.subrange(pos, chunk_end(data, pos, sz)) + data.skip(chunk_end(data, pos, sz))
        =~= data.skip(pos));
}

/// Sum of per-chunk counts over the chunk decomposition of `data` from
/// `pos`, with boundaries as the reader produces them for chunk size `sz`.
pub open spec fn chunked_total(pattern: Seq<u8>, case_sensitive: bool, data: Seq<u8>, pos: int, sz: int) -> nat
    decreases data.len() - pos,
    when 0 <= pos <= data.len() && 1 <= sz
    via chunked_total_dec
{
    if pos >= data.len() {
        0
    } else {
        buffer_count(pattern, case_sensitive, data.subrange(pos, chunk_end(data, pos, sz)))
            + chunked_total(pattern, case_sensitive, data, chunk_end(data, pos, sz), sz)
    }
}

#[via_fn]
proof fn chunked_total_dec(pattern: Seq<u8>, case_sensitive: bool, data: Seq<u8>, pos: int, sz: int) {
    if pos < data.len() {
        lemma_chunk_end(data, pos, sz);
    }
}

/// The per-chunk counts of any decomposition sum to the whole buffer's
/// count.
pub proof fn lemma_chunked_total_is_buffer_count(
    pattern: Seq<u8>,
    case_sensitive: bool,
    data: Seq<u8>,
    pos: int,
    sz: int,
)
    requires
        0 <= pos <= data.len(),
        1 <= sz,
    ensures
        chunked_total(pattern, case_sensitive, data, pos, sz) == buffer_count(
            pattern,
            case_sensitive,
            data.skip(pos),
        ),
    decreases data.len() - pos,
{
    if pos >= data.len() {
        assert(data.skip(pos) =~= Seq::<u8>::empty());
    } else {
        let e = chunk_end(data, pos, sz);
        lemma_chunk_end(data, pos, sz);
        lemma_chunked_total_is_buffer_count(pattern, case_sensitive, data, e, sz);
        let a = data.subrange(pos, e);
        assert(data.skip(pos) =~= a + data.skip(e));
        if e == data.len() && data[e - 1] != NEWLINE {
            assert(data.skip(e) =~= Seq::<u8>::empty());
            assert(data.skip(pos) =~= a);
        } else {
            assert(a.last() == NEWLINE);
            lemma_buffer_count_concat(pattern, case_sensitive, a, data.skip(e));
        }
    }
}

/// Chunk-size invariance: decomposing a buffer with any two chunk sizes
/// yields the same per-pattern total.
pub proof fn lemma_chunk_size_invariance(
    pattern: Seq<u8>,
    case_sensitive: bool,
    data: Seq<u8>,
    sz1: int,
    sz2: int,
)
    requires
        1 <= sz1,
        1 <= sz2,
    ensures
        chunked_total(pattern, case_sensitive, data, 0, sz1) == chunked_total(
            pattern,
            case_sensitive,
            data,
            0,
            sz2,
        ),
{
    lemma_chunked_total_is_buffer_count(pattern, case_sensitive, data, 0, sz1);
    lemma_chunked_total_is_buffer_count(pattern, case_sensitive, data, 0, sz2);
}

/// Reads a byte buffer in bounded chunks, growing each read past the
/// requested chunk size until a line terminator ends it or the data runs
/// out, so that no chunk boundary splits a line.
pub struct ChunkReader {
    /// Offset of the first byte not yet delivered.
    pub pos: usize,
}

impl ChunkReader {
    pub fn new() -> (r: ChunkReader)
        ensures
            r.pos == 0,
    {
        ChunkReader { pos: 0 }
    }

    /// Deliver the next line-aligned chunk of `data`, or `None` once all
    /// bytes have been delivered.
    pub fn next(&mut self, data: &Vec<u8>, chunk_size: usize) -> (r: Option<Vec<u8>>)
        requires
            old(self).pos <= data@.len(),
            1 <= chunk_size,
        ensures
            old(self).pos == data@.len() ==> r is None && final(self).pos == old(self).pos,
            old(self).pos < data@.len() ==> (r matches Some(c)
                && final(self).pos == chunk_end(data@, old(self).pos as int, chunk_size as int)
                && c@ == data@.subrange(old(self).pos as int, final(self).pos as int)),
    {
        let n = data.len();
        if self.pos == n {
            return None;
        }
        proof {
            lemma_chunk_end(data@, self.pos as int, chunk_size as int);
        }
        let start = self.pos;
        let mut end: usize = if n - start <= chunk_size {
            n
        } else {
            start + chunk_size
        };
        while end < n && data[end - 1] != NEWLINE
            invariant
                n == data@.len(),
                start < end <= n,
                1 <= chunk_size,
                chunk_end(data@, start as int, chunk_size as int) == (if end == n || data@[end
                    - 1] == NEWLINE {
                    end as int
                } else {
                    chunk_end(data@, end as int, chunk_size as int)
                }),
            decreases n - end,
        {
            let grown: usize = if n - end <= chunk_size {
                n
            } else {
                end + chunk_size
            };
            proof {
                lemma_chunk_end(data@, end as int, chunk_size as int);
            }
            end = grown;
        }
        let mut chunk: Vec<u8> = Vec::new();
        let mut i: usize = start;
        while i < end
            invariant
                start <= i <= end <= n,
                n == data@.len(),
                chunk@ == data@.subrange(start as int, i as int),
            decreases end - i,
        {
            chunk.push(data[i]);
            proof {
                assert(data@.subrange(start as int, i + 1 as int) =~= data@.subrange(
                    start as int,
                    i as int,
                ).push(data@[i as int]));
            }
            i = i + 1;
        }
        self.pos = end;
        Some(chunk)
    }
}

} // verus!
