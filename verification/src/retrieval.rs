//! Retrieval: ranking scored rows and bounding the result set.
//!
//! A row's score arrives as the raw bit pattern of the store's 32-bit
//! float similarity.  [`score_key`] maps that pattern to an unsigned key
//! whose `u32` order agrees with the numeric order of the underlying
//! (non-NaN) floating-point values: patterns with the sign bit set are
//! complemented, the rest are shifted above them.  Ranking then never
//! touches floating point.

use vstd::prelude::*;

use vstd::multiset::Multiset;
use vstd::seq_lib::lemma_multiset_commutative;

use crate::errors::GalleryError;

verus! {

broadcast use vstd::seq_lib::group_to_multiset_ensures;

/// One retrieval result: the joined media row and its similarity score,
/// carried as the score's raw bit pattern.
#[derive(Debug)]
pub struct SearchRow {
    pub media_id: u128,
    pub filename: String,
    pub file_path: String,
    pub score_bits: u32,
}

/// The ranking key of a score bit pattern: an order-preserving unsigned
/// rearrangement of the IEEE 754 pattern.
pub open spec fn spec_score_key(bits: u32) -> u32 {
    if bits >= 0x8000_0000 {
        (0xffff_ffffu32 - bits) as u32
    } else {
        (bits + 0x8000_0000) as u32
    }
}

/// Executable counterpart of [`spec_score_key`].
pub fn score_key(bits: u32) -> (k: u32)
    ensures
        k == spec_score_key(bits),
{
    if bits >= 0x8000_0000 {
        0xffff_ffffu32 - bits
    } else {
        bits + 0x8000_0000
    }
}

/// The ranking key of a row.
pub open spec fn row_key(r: SearchRow) -> u32 {
    spec_score_key(r.score_bits)
}

/// The rows stand in non-increasing score order.
pub open spec fn sorted_desc(s: Seq<SearchRow>) -> bool {
    forall|i: int, j: int|
        0 <= i < j < s.len() ==> #[trigger] row_key(s[i]) >= #[trigger] row_key(s[j])
}

/// Sort rows by descending score.  The result is a permutation of the
/// input: same rows, ranked order.
pub fn rank_results(rows: Vec<SearchRow>) -> (r: Vec<SearchRow>)
    ensures
        r@.len() == rows@.len(),
        sorted_desc(r@),
        r@.to_multiset() == rows@.to_multiset(),
{
    let mut src = rows;
    let mut out: Vec<SearchRow> = Vec::new();
    proof {
        assert(out@.to_multiset().add(src@.to_multiset()) =~= src@.to_multiset());
    }
    while src.len() > 0
        invariant
            out@.len() + src@.len() == rows@.len(),
            out@.to_multiset().add(src@.to_multiset()) == rows@.to_multiset(),
            sorted_desc(out@),
            forall|i: int, j: int|
                0 <= i < out@.len() && 0 <= j < src@.len() ==> #[trigger] row_key(out@[i])
                    >= #[trigger] row_key(src@[j]),
        decreases src@.len(),
    {
        let mut m: usize = 0;
        let mut i: usize = 1;
        while i < src.len()
            invariant
                0 < src@.len(),
                m < i <= src@.len(),
                forall|j: int| 0 <= j < i ==> row_key(src@[m as int]) >= #[trigger] row_key(src@[j]),
            decreases src@.len() - i,
        {
            if score_key(src[i].score_bits) > score_key(src[m].score_bits) {
                m = i;
            }
            i = i + 1;
        }
        let ghost old_out = out@;
        let ghost old_src = src@;
        let x = src.remove(m);
        out.push(x);
        proof {
            assert(old_src.to_multiset().count(x) > 0) by {
                assert(old_src[m as int] == x);
                assert(old_src.contains(x));
            }
            assert(out@.to_multiset().add(src@.to_multiset()) =~= old_out.to_multiset().add(
                old_src.to_multiset(),
            ));
            assert forall|i2: int, j2: int|
                0 <= i2 < out@.len() && 0 <= j2 < src@.len() implies #[trigger] row_key(out@[i2])
                >= #[trigger] row_key(src@[j2]) by {
                assert(src@[j2] == if j2 < m {
                    old_src[j2]
                } else {
                    old_src[j2 + 1]
                });
                if i2 < old_out.len() {
                    assert(out@[i2] == old_out[i2]);
                } else {
                    assert(out@[i2] == x);
                }
            }
            assert forall|i2: int, j2: int| 0 <= i2 < j2 < out@.len() implies #[trigger] row_key(
                out@[i2],
            ) >= #[trigger] row_key(out@[j2]) by {
                if j2 == out@.len() - 1 {
                    assert(out@[j2] == x);
                    assert(row_key(old_out[i2]) >= row_key(old_src[m as int]));
                }
            }
        }
    }
    proof {
        assert(src@.to_multiset() =~= Multiset::<SearchRow>::empty());
        assert(out@.to_multiset().add(Multiset::<SearchRow>::empty()) =~= out@.to_multiset());
    }
    out
}

/// Rank scored rows and bound the result set.
///
/// A limit of zero is invalid input, rejected with a `ValidationError`
/// before any ranking.  Otherwise the result holds the `limit`
/// highest-scoring rows (all of them where fewer are stored), in
/// non-increasing score order: every returned row is one of the inputs, and
/// every row left out scores no higher than any row returned.
pub fn search_rank(rows: Vec<SearchRow>, limit: usize) -> (r: Result<Vec<SearchRow>, GalleryError>)
    ensures
        r is Ok <==> limit > 0,
        r matches Err(e) ==> e is ValidationError,
        r matches Ok(v) ==> {
            &&& sorted_desc(v@)
            &&& v@.len() == (if (limit as int) < rows@.len() {
                limit as int
            } else {
                rows@.len() as int
            })
            &&& v@.to_multiset().subset_of(rows@.to_multiset())
            &&& forall|x: SearchRow|
                rows@.to_multiset().count(x) > v@.to_multiset().count(x) ==> (forall|i: int|
                    0 <= i < v@.len() ==> #[trigger] row_key(v@[i]) >= row_key(x))
        },
{
    if limit == 0 {
        return Err(GalleryError::ValidationError("limit must be positive".to_owned()));
    }
    let mut sorted = rank_results(rows);
    let ghost whole = sorted@;
    let ghost rows_view = rows@;
    sorted.truncate(limit);
    proof {
        let kept = sorted@;
        let n = kept.len() as int;
        let tail = whole.subrange(n, whole.len() as int);
        assert(whole =~= kept + tail);
        lemma_multiset_commutative(kept, tail);
        assert forall|x: SearchRow| #[trigger] kept.to_multiset().count(x)
            <= rows_view.to_multiset().count(x) by {
            assert(whole.to_multiset().count(x) == kept.to_multiset().count(x)
                + tail.to_multiset().count(x));
        }
        assert(kept.to_multiset().subset_of(rows_view.to_multiset()));
        assert forall|x: SearchRow|
            rows_view.to_multiset().count(x) > kept.to_multiset().count(x) implies (forall|i: int|
            0 <= i < kept.len() ==> #[trigger] row_key(kept[i]) >= row_key(x)) by {
            assert(whole.to_multiset().count(x) == kept.to_multiset().count(x)
                + tail.to_multiset().count(x));
            assert(tail.to_multiset().count(x) > 0);
            assert(tail.contains(x));
            let t = choose|t: int| 0 <= t < tail.len() && tail[t] == x;
            assert(whole[n + t] == x);
            assert forall|i: int| 0 <= i < kept.len() implies #[trigger] row_key(kept[i])
                >= row_key(x) by {
                assert(whole[i] == kept[i]);
                assert(row_key(whole[i]) >= row_key(whole[n + t]));
            }
        }
    }
    Ok(sorted)
}

} // verus!
