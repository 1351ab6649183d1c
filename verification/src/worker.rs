//! The chunk worker and the aggregator.
//!
//! A worker applies every compiled pattern to one chunk, scanning it line by
//! line and summing per-line occurrence counts; it is a pure function of its
//! inputs. The aggregator folds such partial counts into a file's
//! accumulator by plain addition, so any fold order yields the same totals.

use vstd::prelude::*;
use vstd::pervasive::VecAdditionalExecFns;
use crate::chunks::NEWLINE;
use crate::chunks::buffer_count;
use crate::chunks::buffer_search_ok;
use crate::chunks::count_acc;
use crate::chunks::lemma_buffer_count_le;
use crate::chunks::line_count;
use crate::chunks::search_ok_acc;
use crate::count::fold_vec;
use crate::count::occurrences_in;
use crate::matcher::CompiledPattern;
use crate::matcher::line_search_ok;

verus! {

/// A fresh accumulator: one zero per requested pattern.
pub fn zero_counts(n: usize) -> (r: Vec<usize>)
    ensures
        r@.len() == n,
        forall|k: int| 0 <= k < n ==> r@[k] == 0,
{
    let mut totals: Vec<usize> = Vec::new();
    let mut z: usize = 0;
    while z < n
        invariant
            z <= n,
            totals@.len() == z,
            forall|k: int| 0 <= k < z ==> totals@[k] == 0,
        decreases n - z,
    {
        totals.push(0);
        z = z + 1;
    }
    totals
}

/// Count one pattern's occurrences in one line: ask the matcher whether the
/// line matches at all, and count the folded pattern's occurrences in the
/// folded line if so.
fn count_line(p: &CompiledPattern, line: &Vec<u8>) -> (r: Result<usize, String>)
    ensures
        r is Ok <==> line_search_ok(p.text(), p.cs(), line@),
        r matches Ok(c) ==> c == line_count(p.text(), p.cs(), line@),
{
    match p.search_line(line) {
        Err(e) => Err(e),
        Ok(false) => Ok(0),
        Ok(true) => {
            let cs = p.flag();
            let folded_pattern = fold_vec(cs, p.text_bytes());
            let folded_line = fold_vec(cs, line);
            Ok(occurrences_in(&folded_pattern, &folded_line))
        },
    }
}

/// Add one line's count for every pattern into the running totals.
fn add_line_counts(compiled: &Vec<CompiledPattern>, totals: &mut Vec<usize>, line: &Vec<u8>) -> (r:
    Result<(), String>)
    requires
        old(totals)@.len() == compiled@.len(),
        forall|k: int|
            0 <= k < compiled@.len() ==> old(totals)@[k] + line_count(
                compiled@[k].text(),
                compiled@[k].cs(),
                line@,
            ) <= usize::MAX,
    ensures
        r is Ok <==> (forall|k: int|
            0 <= k < compiled@.len() ==> line_search_ok(
                compiled@[k].text(),
                compiled@[k].cs(),
                line@,
            )),
        r matches Ok(u) ==> final(totals)@.len() == compiled@.len() && (forall|k: int|
            0 <= k < compiled@.len() ==> final(totals)@[k] == old(totals)@[k] + line_count(
                compiled@[k].text(),
                compiled@[k].cs(),
                line@,
            )),
{
    let mut j: usize = 0;
    while j < compiled.len()
        invariant
            j <= compiled@.len(),
            totals@.len() == compiled@.len(),
            forall|k: int|
                0 <= k < j ==> line_search_ok(compiled@[k].text(), compiled@[k].cs(), line@),
            forall|k: int|
                0 <= k < j ==> totals@[k] == old(totals)@[k] + line_count(
                    compiled@[k].text(),
                    compiled@[k].cs(),
                    line@,
                ),
            forall|k: int| j <= k < compiled@.len() ==> totals@[k] == old(totals)@[k],
            forall|k: int|
                0 <= k < compiled@.len() ==> old(totals)@[k] + line_count(
                    compiled@[k].text(),
                    compiled@[k].cs(),
                    line@,
                ) <= usize::MAX,
        decreases compiled@.len() - j,
    {
        match count_line(&compiled[j], line) {
            Err(e) => {
                return Err(e);
            },
            Ok(c) => {
                let t = totals[j] + c;
                totals.set(j, t);
            },
        }
        j = j + 1;
    }
    Ok(())
}

/// Apply every compiled pattern to one chunk and produce the chunk's partial
/// counts, one per pattern, in the patterns' order. Fails exactly when the
/// matcher's search does not complete on some line of the chunk for some
/// pattern.
pub fn match_chunk(compiled: &Vec<CompiledPattern>, chunk: &Vec<u8>) -> (r: Result<
    Vec<usize>,
    String,
>)
    ensures
        r is Ok <==> (forall|k: int|
            0 <= k < compiled@.len() ==> buffer_search_ok(
                compiled@[k].text(),
                compiled@[k].cs(),
                chunk@,
            )),
        r matches Ok(v) ==> v@.len() == compiled@.len() && (forall|k: int|
            0 <= k < compiled@.len() ==> v@[k] == buffer_count(
                compiled@[k].text(),
                compiled@[k].cs(),
                chunk@,
            )),
{
    let n_pat = compiled.len();
    let mut totals: Vec<usize> = zero_counts(n_pat);
    let mut cur: Vec<u8> = Vec::new();
    let mut i: usize = 0;
    proof {
        assert(chunk@.skip(0) =~= chunk@);
    }
    while i < chunk.len()
        invariant
            i <= chunk@.len(),
            n_pat == compiled@.len(),
            totals@.len() == compiled@.len(),
            forall|k: int|
                0 <= k < compiled@.len() ==> totals@[k] + count_acc(
                    compiled@[k].text(),
                    compiled@[k].cs(),
                    chunk@.skip(i as int),
                    cur@,
                ) == buffer_count(compiled@[k].text(), compiled@[k].cs(), chunk@),
            forall|k: int|
                0 <= k < compiled@.len() ==> buffer_search_ok(
                    compiled@[k].text(),
                    compiled@[k].cs(),
                    chunk@,
                ) == search_ok_acc(
                    compiled@[k].text(),
                    compiled@[k].cs(),
                    chunk@.skip(i as int),
                    cur@,
                ),
        decreases chunk@.len() - i,
    {
        let b = chunk[i];
        proof {
            assert(chunk@.skip(i as int)[0] == chunk@[i as int]);
            assert(chunk@.skip(i as int).skip(1) =~= chunk@.skip(i + 1));
        }
        if b == NEWLINE {
            let ghost cur_before = cur@;
            cur.push(NEWLINE);
            let ghost line_seq = cur@;
            let ghost entry_totals = totals@;
            proof {
                assert(line_seq == cur_before.push(NEWLINE));
                assert(chunk.len() == chunk@.len());
                assert forall|k: int| 0 <= k < compiled@.len() implies entry_totals[k]
                    + line_count(compiled@[k].text(), compiled@[k].cs(), line_seq)
                    <= usize::MAX by {
                    lemma_buffer_count_le(compiled@[k].text(), compiled@[k].cs(), chunk@);
                }
            }
            match add_line_counts(compiled, &mut totals, &cur) {
                Err(e) => {
                    proof {
                        assert(exists|k: int|
                            0 <= k < compiled@.len() && !line_search_ok(
                                compiled@[k].text(),
                                compiled@[k].cs(),
                                line_seq,
                            ));
                        let k0 = choose|k: int|
                            0 <= k < compiled@.len() && !line_search_ok(
                                compiled@[k].text(),
                                compiled@[k].cs(),
                                line_seq,
                            );
                        assert(!search_ok_acc(
                            compiled@[k0].text(),
                            compiled@[k0].cs(),
                            chunk@.skip(i as int),
                            cur_before,
                        ));
                        assert(!buffer_search_ok(
                            compiled@[k0].text(),
                            compiled@[k0].cs(),
                            chunk@,
                        ));
                    }
                    return Err(e);
                },
                Ok(u) => {},
            }
            cur.clear();
        } else {
            cur.push(b);
        }
        i = i + 1;
    }
    proof {
        assert(chunk@.skip(i as int) =~= Seq::<u8>::empty());
    }
    if cur.len() > 0 {
        let ghost line_seq = cur@;
        let ghost entry_totals = totals@;
        proof {
            assert(chunk.len() == chunk@.len());
            assert forall|k: int| 0 <= k < compiled@.len() implies entry_totals[k] + line_count(
                compiled@[k].text(),
                compiled@[k].cs(),
                line_seq,
            ) <= usize::MAX by {
                lemma_buffer_count_le(compiled@[k].text(), compiled@[k].cs(), chunk@);
            }
        }
        match add_line_counts(compiled, &mut totals, &cur) {
            Err(e) => {
                proof {
                    assert(exists|k: int|
                        0 <= k < compiled@.len() && !line_search_ok(
                            compiled@[k].text(),
                            compiled@[k].cs(),
                            line_seq,
                        ));
                    let k0 = choose|k: int|
                        0 <= k < compiled@.len() && !line_search_ok(
                            compiled@[k].text(),
                            compiled@[k].cs(),
                            line_seq,
                        );
                    assert(!buffer_search_ok(compiled@[k0].text(), compiled@[k0].cs(), chunk@));
                }
                return Err(e);
            },
            Ok(u) => {},
        }
    }
    Ok(totals)
}

/// Fold one chunk's partial counts into a file's accumulated counts.
/// Combination is plain addition entry by entry, commutative and
/// associative, so any dispatch order over a file's chunks yields the same
/// final totals.
pub fn fold_counts(accumulated: &mut Vec<usize>, partial: &Vec<usize>)
    requires
        old(accumulated)@.len() == partial@.len(),
        forall|k: int|
            0 <= k < partial@.len() ==> old(accumulated)@[k] + partial@[k] <= usize::MAX,
    ensures
        final(accumulated)@.len() == old(accumulated)@.len(),
        forall|k: int|
            0 <= k < partial@.len() ==> final(accumulated)@[k] == old(accumulated)@[k]
                + partial@[k],
{
    let mut j: usize = 0;
    while j < partial.len()
        invariant
            j <= partial@.len(),
            accumulated@.len() == partial@.len(),
            forall|k: int| 0 <= k < j ==> accumulated@[k] == old(accumulated)@[k] + partial@[k],
            forall|k: int|
                j <= k < partial@.len() ==> accumulated@[k] == old(accumulated)@[k],
            forall|k: int|
                0 <= k < partial@.len() ==> old(accumulated)@[k] + partial@[k] <= usize::MAX,
        decreases partial@.len() - j,
    {
        let t = accumulated[j] + partial[j];
        accumulated.set(j, t);
        j = j + 1;
    }
}

} // verus!
