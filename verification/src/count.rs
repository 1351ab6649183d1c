//! Case folding and per-line occurrence counting on byte sequences.
//!
//! An occurrence count is the number of non-overlapping times a pattern's
//! bytes appear in a haystack, scanning left to right. With case-insensitive
//! matching both sides are folded to ASCII lower case first.

use vstd::prelude::*;

verus! {

/// One byte after case folding: kept as is when matching case-sensitively,
/// otherwise ASCII upper-case letters map to their lower-case counterpart.
pub open spec fn fold_byte(case_sensitive: bool, b: u8) -> u8 {
    if case_sensitive {
        b
    } else if 65 <= b && b <= 90 {
        (b + 32) as u8
    } else {
        b
    }
}

/// A byte sequence after case folding.
pub open spec fn fold_bytes(case_sensitive: bool, s: Seq<u8>) -> Seq<u8> {
    s.map_values(|b: u8| fold_byte(case_sensitive, b))
}

/// Number of non-overlapping occurrences of `needle` in `hay`, scanning left
/// to right; an empty needle occurs zero times.
pub open spec fn occ_count(needle: Seq<u8>, hay: Seq<u8>) -> nat
    decreases hay.len(),
{
    if needle.len() == 0 || hay.len() < needle.len() {
        0
    } else if hay.take(needle.len() as int) == needle {
        1 + occ_count(needle, hay.skip(needle.len() as int))
    } else {
        occ_count(needle, hay.skip(1))
    }
}

/// An occurrence count never exceeds the haystack's length.
pub proof fn lemma_occ_count_le(needle: Seq<u8>, hay: Seq<u8>)
    ensures
        occ_count(needle, hay) <= hay.len(),
    decreases hay.len(),
{
    if needle.len() == 0 || hay.len() < needle.len() {
    } else if hay.take(needle.len() as int) == needle {
        lemma_occ_count_le(needle, hay.skip(needle.len() as int));
    } else {
        lemma_occ_count_le(needle, hay.skip(1));
    }
}

fn fold_byte_exec(case_sensitive: bool, b: u8) -> (r: u8)
    ensures
        r == fold_byte(case_sensitive, b),
{
    if case_sensitive {
        b
    } else if b >= 65 && b <= 90 {
        b + 32
    } else {
        b
    }
}

/// Fold every byte of a buffer.
pub fn fold_vec(case_sensitive: bool, v: &Vec<u8>) -> (r: Vec<u8>)
    ensures
        r@ == fold_bytes(case_sensitive, v@),
{
    let mut r: Vec<u8> = Vec::new();
    let mut i: usize = 0;
    while i < v.len()
        invariant
            i <= v@.len(),
            r@ == fold_bytes(case_sensitive, v@.take(i as int)),
        decreases v@.len() - i,
    {
        let b = fold_byte_exec(case_sensitive, v[i]);
        r.push(b);
        proof {
            assert(v@.take(i + 1 as int) =~= v@.take(i as int).push(v@[i as int]));
            assert(fold_bytes(case_sensitive, v@.take(i + 1 as int)) =~= r@);
        }
        i = i + 1;
    }
    proof {
        assert(v@.take(v@.len() as int) =~= v@);
    }
    r
}

fn is_match_at(hay: &Vec<u8>, needle: &Vec<u8>, i: usize) -> (r: bool)
    requires
        i + needle@.len() <= hay@.len(),
    ensures
        r == (hay@.subrange(i as int, i + needle@.len()) == needle@),
{
    let mut j: usize = 0;
    while j < needle.len()
        invariant
            i + needle@.len() <= hay@.len(),
            j <= needle@.len(),
            forall|m: int| 0 <= m < j ==> hay@[i + m] == needle@[m],
        decreases needle@.len() - j,
    {
        proof {
            assert(hay.len() == hay@.len());
            assert(i + j < hay@.len());
        }
        if hay[i + j] != needle[j] {
            proof {
                assert(hay@.subrange(i as int, i + needle@.len())[j as int] != needle@[j as int]);
            }
            return false;
        }
        j = j + 1;
    }
    proof {
        assert(hay@.subrange(i as int, i + needle@.len()) =~= needle@);
    }
    true
}

/// Count the non-overlapping occurrences of `needle` in `hay`.
pub fn occurrences_in(needle: &Vec<u8>, hay: &Vec<u8>) -> (r: usize)
    ensures
        r == occ_count(needle@, hay@),
{
    if needle.len() == 0 || hay.len() < needle.len() {
        return 0;
    }
    let mut i: usize = 0;
    let mut r: usize = 0;
    proof {
        assert(hay@.skip(0) =~= hay@);
    }
    while i <= hay.len() - needle.len()
        invariant
            1 <= needle@.len() <= hay@.len(),
            i <= hay@.len(),
            r <= i,
            r + occ_count(needle@, hay@.skip(i as int)) == occ_count(needle@, hay@),
        decreases hay@.len() - i,
    {
        proof {
            assert(hay@.skip(i as int).take(needle@.len() as int)
                =~= hay@.subrange(i as int, i + needle@.len()));
        }
        if is_match_at(hay, needle, i) {
            proof {
                assert(hay@.skip(i as int).skip(needle@.len() as int)
                    =~= hay@.skip(i + needle@.len()));
            }
            r = r + 1;
            i = i + needle.len();
        } else {
            proof {
                assert(hay@.skip(i as int).skip(1) =~= hay@.skip(i + 1));
            }
            i = i + 1;
        }
    }
    proof {
        assert(hay@.skip(i as int).len() < needle@.len());
    }
    r
}

} // verus!
