//! Reassembly of task results into the output buffer.
//!
//! A dispatcher submits one task per output cell and collects completions in
//! any order. The [`Collector`] records each flattened index at most once,
//! counts the cells still missing, and releases the finished matrix only
//! when every cell has been delivered: a dropped completion surfaces as
//! `WorkerUnavailable` instead of a partially filled matrix.

use crate::errors::MatrixError;
use crate::matrix::Matrix;
use crate::matrix::MsgOutput;
use vstd::prelude::*;

verus! {

/// How many cells of the output are still missing.
pub open spec fn count_missing(s: Seq<bool>) -> int
    decreases s.len(),
{
    if s.len() == 0 {
        0
    } else {
        count_missing(s.drop_last()) + if s.last() {
            0int
        } else {
            1int
        }
    }
}

/// Nothing is missing from a fully delivered buffer.
proof fn lemma_count_missing_zero(s: Seq<bool>)
    requires
        count_missing(s) == 0,
    ensures
        forall|t: int| 0 <= t < s.len() ==> s[t],
    decreases s.len(),
{
    if s.len() > 0 {
        lemma_count_missing_nonneg(s.drop_last());
        lemma_count_missing_zero(s.drop_last());
        assert(forall|t: int| 0 <= t < s.len() - 1 ==> s[t] == s.drop_last()[t]);
    }
}

/// The number of missing cells is never negative.
proof fn lemma_count_missing_nonneg(s: Seq<bool>)
    ensures
        count_missing(s) >= 0,
    decreases s.len(),
{
    if s.len() > 0 {
        lemma_count_missing_nonneg(s.drop_last());
    }
}

/// An undelivered cell keeps the count of missing cells positive.
proof fn lemma_count_missing_pos(s: Seq<bool>, i: int)
    requires
        0 <= i < s.len(),
        !s[i],
    ensures
        count_missing(s) >= 1,
    decreases s.len(),
{
    lemma_count_missing_nonneg(s.drop_last());
    if i < s.len() - 1 {
        lemma_count_missing_pos(s.drop_last(), i);
    }
}

/// Delivering one missing cell lowers the count of missing cells by one.
proof fn lemma_count_missing_update(s: Seq<bool>, i: int)
    requires
        0 <= i < s.len(),
        !s[i],
    ensures
        count_missing(s.update(i, true)) == count_missing(s) - 1,
    decreases s.len(),
{
    let u = s.update(i, true);
    if i == s.len() - 1 {
        assert(u.drop_last() =~= s.drop_last());
    } else {
        assert(u.drop_last() =~= s.drop_last().update(i, true));
        lemma_count_missing_update(s.drop_last(), i);
    }
}

/// Collects task results into a preallocated result buffer, recording each
/// output cell exactly once.
pub struct Collector {
    data: Vec<i64>,
    filled: Vec<bool>,
    remaining: usize,
}

impl Collector {
    /// Well-formed: one delivery flag per cell, and `remaining` counts the
    /// cells not yet delivered.
    pub closed spec fn wf(&self) -> bool {
        &&& self.data@.len() == self.filled@.len()
        &&& self.remaining == count_missing(self.filled@)
    }

    /// The result buffer.
    pub closed spec fn spec_data(&self) -> Seq<i64> {
        self.data@
    }

    /// Which cells have been delivered.
    pub closed spec fn spec_filled(&self) -> Seq<bool> {
        self.filled@
    }

    /// The number of cells.
    pub open spec fn size(&self) -> int {
        self.spec_filled().len() as int
    }

    /// How many cells are still missing.
    pub closed spec fn spec_remaining(&self) -> int {
        self.remaining as int
    }

    /// A collector for `len` cells, none delivered yet.
    pub fn new(len: usize) -> (c: Collector)
        ensures
            c.wf(),
            c.size() == len,
            c.spec_remaining() == len,
            forall|t: int| 0 <= t < len ==> !c.spec_filled()[t],
    {
        let mut data: Vec<i64> = Vec::new();
        let mut filled: Vec<bool> = Vec::new();
        let mut k: usize = 0;
        while k < len
            invariant
                k <= len,
                data@.len() == k,
                filled@.len() == k,
                count_missing(filled@) == k,
                forall|t: int| 0 <= t < k ==> !filled@[t],
            decreases len - k,
        {
            data.push(0);
            proof {
                assert(filled@.push(false).drop_last() =~= filled@);
            }
            filled.push(false);
            k = k + 1;
        }
        Collector { data, filled, remaining: len }
    }

    /// Records one task result. The first delivery for a cell in range is
    /// accepted and returns `true`; a repeated or out-of-range index leaves
    /// the collector unchanged and returns `false`, so every cell is written
    /// at most once.
    pub fn apply(&mut self, out: MsgOutput) -> (fresh: bool)
        requires
            old(self).wf(),
        ensures
            final(self).wf(),
            final(self).size() == old(self).size(),
            fresh == (out.idx < old(self).size() && !old(self).spec_filled()[out.idx as int]),
            fresh ==> {
                &&& final(self).spec_data() == old(self).spec_data().update(
                    out.idx as int,
                    out.value,
                )
                &&& final(self).spec_filled() == old(self).spec_filled().update(
                    out.idx as int,
                    true,
                )
                &&& final(self).spec_remaining() == old(self).spec_remaining() - 1
            },
            !fresh ==> *final(self) == *old(self),
    {
        if out.idx >= self.filled.len() {
            return false;
        }
        if self.filled[out.idx] {
            return false;
        }
        proof {
            lemma_count_missing_pos(self.filled@, out.idx as int);
            lemma_count_missing_update(self.filled@, out.idx as int);
        }
        self.data.set(out.idx, out.value);
        self.filled.set(out.idx, true);
        self.remaining = self.remaining - 1;
        true
    }

    /// Exactly-once bookkeeping: when no cell is missing, every cell has
    /// been delivered (and, by [`Collector::apply`], was recorded exactly
    /// once).
    pub proof fn lemma_complete_all_delivered(&self)
        requires
            self.wf(),
            self.spec_remaining() == 0,
        ensures
            forall|t: int| 0 <= t < self.size() ==> self.spec_filled()[t],
    {
        lemma_count_missing_zero(self.spec_filled());
    }

    /// Whether every cell has been delivered.
    pub fn is_complete(&self) -> (b: bool)
        requires
            self.wf(),
        ensures
            b == (self.spec_remaining() == 0),
    {
        self.remaining == 0
    }

    /// Releases the collected buffer as a `row` by `col` matrix. Succeeds
    /// exactly when every cell was delivered and the dimensions match the
    /// buffer; an undelivered cell surfaces as `WorkerUnavailable`, so no
    /// partially filled matrix is ever released.
    pub fn finish(self, row: usize, col: usize) -> (r: Result<Matrix, MatrixError>)
        requires
            self.wf(),
        ensures
            r is Ok <==> (self.spec_remaining() == 0 && row >= 1 && col >= 1 && self.size() == row
                * col),
            r matches Ok(m) ==> {
                &&& m.wf()
                &&& m.spec_row() == row
                &&& m.spec_col() == col
                &&& m.spec_data() == self.spec_data()
            },
            r matches Err(e) ==> if self.spec_remaining() != 0 {
                e == MatrixError::WorkerUnavailable
            } else {
                e == MatrixError::ConstructionError
            },
    {
        if self.remaining != 0 {
            return Err(MatrixError::WorkerUnavailable);
        }
        Matrix::new(self.data, row, col)
    }
}

} // verus!
