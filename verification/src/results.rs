//! The result projection: the display-ready summary of a completed query.

use vstd::prelude::*;

verus! {

/// Offsets for panning a rendered result table.
#[derive(PartialEq, Eq, Structural, Clone, Copy, Debug)]
pub struct Scroll {
    pub x: u16,
    pub y: u16,
}

/// Display-ready summary of one successful query: the total row count, the
/// elapsed time in whole milliseconds, and the table's scroll position.
#[derive(PartialEq, Eq, Structural, Clone, Copy, Debug)]
pub struct QueryResults {
    pub rows: usize,
    pub elapsed_ms: u64,
    pub scroll: Scroll,
}

impl QueryResults {
    /// A fresh projection; scrolling starts at the origin.
    pub fn new(rows: usize, elapsed_ms: u64) -> (r: QueryResults)
        ensures
            r == (QueryResults { rows, elapsed_ms, scroll: Scroll { x: 0, y: 0 } }),
    {
        QueryResults { rows, elapsed_ms, scroll: Scroll { x: 0, y: 0 } }
    }
}

/// Sum of a sequence of per-batch row counts.
pub open spec fn seq_sum(s: Seq<usize>) -> int
    decreases s.len(),
{
    if s.len() == 0 {
        0
    } else {
        seq_sum(s.drop_last()) + s.last()
    }
}

/// A prefix never sums to more than the whole, and no sum is negative.
proof fn lemma_seq_sum_prefix(s: Seq<usize>, i: int)
    requires
        0 <= i <= s.len(),
    ensures
        seq_sum(s.take(i)) <= seq_sum(s),
    decreases s.len() - i,
{
    if i < s.len() {
        assert(s.take(i + 1).drop_last() =~= s.take(i));
        assert(seq_sum(s.take(i + 1)) == seq_sum(s.take(i)) + s[i]);
        lemma_seq_sum_prefix(s, i + 1);
    } else {
        assert(s.take(i) =~= s);
    }
}

/// Total rows of a query outcome: the sum of the returned batches' row
/// counts.
pub fn sum_batch_rows(counts: &Vec<usize>) -> (total: usize)
    requires
        seq_sum(counts@) <= usize::MAX,
    ensures
        total == seq_sum(counts@),
{
    let mut total: usize = 0;
    let mut i: usize = 0;
    while i < counts.len()
        invariant
            0 <= i <= counts@.len(),
            total == seq_sum(counts@.take(i as int)),
            seq_sum(counts@) <= usize::MAX,
        decreases counts@.len() - i,
    {
        proof {
            assert(counts@.take(i as int + 1).drop_last() =~= counts@.take(i as int));
            assert(seq_sum(counts@.take(i as int + 1)) == seq_sum(counts@.take(i as int))
                + counts@[i as int]);
            lemma_seq_sum_prefix(counts@, i as int + 1);
        }
        total = total + counts[i];
        i = i + 1;
    }
    proof {
        assert(counts@.take(counts@.len() as int) =~= counts@);
    }
    total
}

} // verus!
