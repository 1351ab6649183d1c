//! Per-file orchestration: pull line-aligned chunks, dispatch the chunk
//! worker, and fold partial counts into the file's accumulator.
//!
//! The cancellation signal is checked before each chunk pull and before
//! each dispatch; once observed, no further work is started for this file
//! and only a failure is reported, never a partial count.

use vstd::prelude::*;
use crate::chunks::ChunkReader;
use crate::chunks::NEWLINE;
use crate::chunks::buffer_count;
use crate::chunks::buffer_search_ok;
use crate::chunks::lemma_buffer_count_concat;
use crate::chunks::lemma_buffer_count_le;
use crate::chunks::lemma_buffer_search_ok_concat;
use crate::chunks::lemma_chunk_end;
use crate::matcher::CompiledPattern;
use crate::worker::fold_counts;
use crate::worker::match_chunk;
use crate::worker::zero_counts;

verus! {

/// Why one file produced no counts.
#[derive(Debug)]
pub enum FailReason {
    /// The text-classification collaborator rejected the file, before any
    /// byte of it was read.
    NotText,
    /// Reading the file failed; the payload is the underlying error's text.
    IoFailure(String),
    /// The matching collaborator reported an internal error for some line;
    /// the payload is that error's text.
    MatchFailure(String),
    /// The shared cancellation signal was observed before the file was done.
    Cancelled,
}

/// Process one file's bytes: read line-aligned chunks in sequence, match
/// every pattern against each chunk, and fold the partial counts. On
/// success the totals are exactly the per-pattern counts of the whole
/// buffer, whatever the chunk size. A failure reports either the observed
/// cancellation or the matcher's error — the latter only when the search
/// really does not complete on some line of the data — and no counts; an
/// empty buffer makes no outside call and always succeeds.
pub fn process_content(
    compiled: &Vec<CompiledPattern>,
    data: &Vec<u8>,
    chunk_size: usize,
    cancel: &tokio_util::sync::CancellationToken,
) -> (r: Result<Vec<usize>, FailReason>)
    requires
        1 <= chunk_size,
    ensures
        r matches Ok(v) ==> v@.len() == compiled@.len() && (forall|k: int|
            0 <= k < compiled@.len() ==> v@[k] == buffer_count(
                compiled@[k].text(),
                compiled@[k].cs(),
                data@,
            )),
        r matches Err(e) ==> (e is Cancelled || e is MatchFailure),
        r matches Ok(v) ==> (forall|k: int|
            0 <= k < compiled@.len() ==> buffer_search_ok(
                compiled@[k].text(),
                compiled@[k].cs(),
                data@,
            )),
        data@.len() == 0 ==> r is Ok,
        (r matches Err(e) && e is MatchFailure) ==> (exists|k: int|
            0 <= k < compiled@.len() && !buffer_search_ok(
                compiled@[k].text(),
                compiled@[k].cs(),
                data@,
            )),
{
    let mut totals: Vec<usize> = zero_counts(compiled.len());
    let mut reader = ChunkReader::new();
    proof {
        assert(data@.take(0) =~= Seq::<u8>::empty());
    }
    while reader.pos < data.len()
        invariant
            reader.pos <= data@.len(),
            reader.pos < data@.len() ==> (reader.pos == 0 || data@[reader.pos - 1] == NEWLINE),
            1 <= chunk_size,
            totals@.len() == compiled@.len(),
            forall|k: int|
                0 <= k < compiled@.len() ==> totals@[k] == buffer_count(
                    compiled@[k].text(),
                    compiled@[k].cs(),
                    data@.take(reader.pos as int),
                ),
            forall|k: int|
                0 <= k < compiled@.len() ==> buffer_search_ok(
                    compiled@[k].text(),
                    compiled@[k].cs(),
                    data@.take(reader.pos as int),
                ),
        decreases data@.len() - reader.pos,
    {
        if cancel.is_cancelled() {
            return Err(FailReason::Cancelled);
        }
        let ghost prev_pos = reader.pos as int;
        match reader.next(data, chunk_size) {
            None => {
                // The loop condition left bytes undelivered, so the reader
                // cannot be done yet; this branch is proved unreachable.
                proof {
                    assert(false);
                }
                return Err(FailReason::Cancelled);
            },
            Some(chunk) => {
                proof {
                    lemma_chunk_end(data@, prev_pos, chunk_size as int);
                }
                if cancel.is_cancelled() {
                    return Err(FailReason::Cancelled);
                }
                match match_chunk(compiled, &chunk) {
                    Err(m) => {
                        proof {
                            assert(data.len() == data@.len());
                            let rest = data@.skip(reader.pos as int);
                            assert(data@.take(prev_pos) + data@.skip(prev_pos) =~= data@);
                            assert(chunk@ + rest =~= data@.skip(prev_pos));
                            assert(exists|k: int|
                                0 <= k < compiled@.len() && !buffer_search_ok(
                                    compiled@[k].text(),
                                    compiled@[k].cs(),
                                    chunk@,
                                ));
                            let k0 = choose|k: int|
                                0 <= k < compiled@.len() && !buffer_search_ok(
                                    compiled@[k].text(),
                                    compiled@[k].cs(),
                                    chunk@,
                                );
                            if reader.pos < data.len() {
                                assert(chunk@.last() == data@[reader.pos - 1]);
                                lemma_buffer_search_ok_concat(
                                    compiled@[k0].text(),
                                    compiled@[k0].cs(),
                                    chunk@,
                                    rest,
                                );
                            } else {
                                assert(rest =~= Seq::<u8>::empty());
                                assert(chunk@ + rest =~= chunk@);
                            }
                            assert(!buffer_search_ok(
                                compiled@[k0].text(),
                                compiled@[k0].cs(),
                                data@.skip(prev_pos),
                            ));
                            lemma_buffer_search_ok_concat(
                                compiled@[k0].text(),
                                compiled@[k0].cs(),
                                data@.take(prev_pos),
                                data@.skip(prev_pos),
                            );
                            assert(!buffer_search_ok(
                                compiled@[k0].text(),
                                compiled@[k0].cs(),
                                data@,
                            ));
                        }
                        return Err(FailReason::MatchFailure(m));
                    },
                    Ok(partial) => {
                        proof {
                            assert(data@.take(reader.pos as int) =~= data@.take(prev_pos)
                                + chunk@);
                            assert(data.len() == data@.len());
                            assert forall|k: int| 0 <= k < compiled@.len() implies totals@[k]
                                + partial@[k] == buffer_count(
                                compiled@[k].text(),
                                compiled@[k].cs(),
                                data@.take(reader.pos as int),
                            ) && totals@[k] + partial@[k] <= usize::MAX by {
                                lemma_buffer_count_concat(
                                    compiled@[k].text(),
                                    compiled@[k].cs(),
                                    data@.take(prev_pos),
                                    chunk@,
                                );
                                lemma_buffer_count_le(
                                    compiled@[k].text(),
                                    compiled@[k].cs(),
                                    data@.take(reader.pos as int),
                                );
                            }
                            assert forall|k: int| 0 <= k < compiled@.len() implies
                                buffer_search_ok(
                                compiled@[k].text(),
                                compiled@[k].cs(),
                                data@.take(reader.pos as int),
                            ) by {
                                lemma_buffer_search_ok_concat(
                                    compiled@[k].text(),
                                    compiled@[k].cs(),
                                    data@.take(prev_pos),
                                    chunk@,
                                );
                            }
                        }
                        fold_counts(&mut totals, &partial);
                    },
                }
            },
        }
    }
    proof {
        assert(data@.take(reader.pos as int) =~= data@);
    }
    Ok(totals)
}

} // verus!
