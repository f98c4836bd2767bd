//! Row-major matrices, the task protocol of the worker-pool dispatcher, and
//! matrix multiplication.
//!
//! A multiplication turns every output cell into one task: the flattened
//! index of the cell, a copy of the corresponding row of the left factor and
//! a gathered copy of the corresponding column of the right factor. Tasks are
//! routed to workers by `index % workers`; a worker computes one dot product
//! per task. [`multiply`] performs the whole computation directly; a
//! dispatcher that spreads the tasks over threads reassembles the very same
//! cells through [`crate::collect::Collector`].

use crate::arith::lemma_wrap_in_range;
use crate::arith::wrap_to_i64;
use crate::digits::dec_i64;
use crate::digits::i64_dec;
use crate::errors::MatrixError;
use crate::vector::dot_int;
use crate::vector::dot_prefix;
use crate::vector::dot_product;
use crate::vector::Vector;
use vstd::arithmetic::div_mod::lemma_div_pos_is_pos;
use vstd::arithmetic::div_mod::lemma_fundamental_div_mod;
use vstd::arithmetic::div_mod::lemma_fundamental_div_mod_converse_div;
use vstd::arithmetic::div_mod::lemma_fundamental_div_mod_converse_mod;
use vstd::arithmetic::div_mod::lemma_mod_division_less_than_divisor;
use vstd::arithmetic::mul::lemma_mul_inequality;
use vstd::prelude::*;

verus! {

/// Number of worker threads of a dispatcher.
pub const NUM_THREADS: usize = 4;

/// A dense matrix in row-major storage with fixed dimensions: element
/// `(i, j)` sits at offset `i * col + j` of the flat buffer.
pub struct Matrix {
    data: Vec<i64>,
    row: usize,
    col: usize,
}

/// One dispatched task: the flattened index of an output cell, the row of
/// the left factor and the column of the right factor whose dot product
/// fills that cell.
pub struct MsgInput {
    pub idx: usize,
    pub row: Vector,
    pub col: Vector,
}

/// The outcome of one task: the flattened index and the computed value.
pub struct MsgOutput {
    pub idx: usize,
    pub value: i64,
}

impl MsgInput {
    /// Packs a task.
    pub fn new(idx: usize, row: Vector, col: Vector) -> (t: MsgInput)
        ensures
            t.idx == idx,
            t.row@ == row@,
            t.col@ == col@,
    {
        MsgInput { idx, row, col }
    }
}

/// The routing policy: the task with flattened index `idx` goes to worker
/// `idx % workers`.
pub fn worker_of(idx: usize, workers: usize) -> (w: usize)
    requires
        workers >= 1,
    ensures
        w == idx % workers,
        w < workers,
{
    idx % workers
}

impl Matrix {
    /// Well-formed: the buffer holds exactly `row * col` elements, which
    /// therefore fit in a `usize`, and both dimensions are positive.
    pub closed spec fn wf(&self) -> bool {
        &&& self.data@.len() == self.row * self.col
        &&& self.row * self.col <= usize::MAX
        &&& self.row >= 1
        &&& self.col >= 1
    }

    /// The number of rows.
    pub closed spec fn spec_row(&self) -> int {
        self.row as int
    }

    /// The number of columns.
    pub closed spec fn spec_col(&self) -> int {
        self.col as int
    }

    /// The flat row-major buffer.
    pub closed spec fn spec_data(&self) -> Seq<i64> {
        self.data@
    }

    /// The element at row `i`, column `j`.
    pub open spec fn ent(&self, i: int, j: int) -> i64 {
        self.spec_data()[i * self.spec_col() + j]
    }

    /// Row `i` as a sequence.
    pub open spec fn row_seq(&self, i: int) -> Seq<i64> {
        Seq::new(self.spec_col() as nat, |k: int| self.ent(i, k))
    }

    /// Column `j` as a sequence.
    pub open spec fn col_seq(&self, j: int) -> Seq<i64> {
        Seq::new(self.spec_row() as nat, |k: int| self.ent(k, j))
    }

    /// Builds a matrix from a flat row-major buffer and explicit dimensions.
    /// Succeeds exactly when both dimensions are positive and the buffer
    /// holds `row * col` elements; otherwise fails with `ConstructionError`.
    pub fn new(data: Vec<i64>, row: usize, col: usize) -> (r: Result<Matrix, MatrixError>)
        ensures
            r is Ok <==> (row >= 1 && col >= 1 && data@.len() == row * col),
            r matches Ok(m) ==> {
                &&& m.wf()
                &&& m.spec_row() == row
                &&& m.spec_col() == col
                &&& m.spec_data() == data@
            },
            r matches Err(e) ==> e == MatrixError::ConstructionError,
    {
        if row == 0 || col == 0 {
            return Err(MatrixError::ConstructionError);
        }
        let len = data.len();
        match row.checked_mul(col) {
            Some(n) => {
                if len != n {
                    return Err(MatrixError::ConstructionError);
                }
                Ok(Matrix { data, row, col })
            },
            None => {
                // The buffer length fits in a `usize` while `row * col`
                // does not, so they cannot be equal.
                Err(MatrixError::ConstructionError)
            },
        }
    }

    /// The number of rows.
    pub fn rows(&self) -> (n: usize)
        ensures
            n == self.spec_row(),
    {
        self.row
    }

    /// The number of columns.
    pub fn cols(&self) -> (n: usize)
        ensures
            n == self.spec_col(),
    {
        self.col
    }

    /// The flat row-major buffer.
    pub fn entries(&self) -> (v: &Vec<i64>)
        ensures
            v@ == self.spec_data(),
    {
        &self.data
    }

    /// Renders the matrix per the exact textual contract: outer `{` and `}`,
    /// rows separated by `, `, elements within a row separated by a single
    /// space, no delimiter after the final row or the final element of a
    /// row.
    pub fn render(&self) -> (s: String)
        requires
            self.wf(),
        ensures
            s@ == render_spec(*self),
    {
        let mut s = String::from_str("{");
        proof {
            reveal_strlit("{");
            assert(s@ =~= seq!['{'] + render_rows_prefix(*self, 0));
        }
        let mut i: usize = 0;
        while i < self.row
            invariant
                self.wf(),
                i <= self.spec_row(),
                s@ == seq!['{'] + render_rows_prefix(*self, i as int),
            decreases self.spec_row() - i,
        {
            if i != 0 {
                s.append(", ");
                proof {
                    reveal_strlit(", ");
                }
            }
            proof {
                assert(s@ =~= seq!['{'] + render_rows_prefix(*self, i as int) + row_sep(i as int)
                    + render_row_prefix(*self, i as int, 0));
            }
            let mut j: usize = 0;
            while j < self.col
                invariant
                    self.wf(),
                    i < self.spec_row(),
                    j <= self.spec_col(),
                    s@ == seq!['{'] + render_rows_prefix(*self, i as int) + row_sep(i as int)
                        + render_row_prefix(*self, i as int, j as int),
                decreases self.spec_col() - j,
            {
                if j != 0 {
                    s.append(" ");
                    proof {
                        reveal_strlit(" ");
                    }
                }
                let e = i64_dec(self.get(i, j));
                s.append(e.as_str());
                proof {
                    assert(s@ =~= seq!['{'] + render_rows_prefix(*self, i as int) + row_sep(
                        i as int,
                    ) + render_row_prefix(*self, i as int, j as int + 1));
                }
                j = j + 1;
            }
            proof {
                assert(s@ =~= seq!['{'] + render_rows_prefix(*self, i as int + 1));
            }
            i = i + 1;
        }
        s.append("}");
        proof {
            reveal_strlit("}");
            assert(s@ =~= render_spec(*self));
        }
        s
    }

    /// The element at row `i`, column `j`.
    pub fn get(&self, i: usize, j: usize) -> (x: i64)
        requires
            self.wf(),
            i < self.spec_row(),
            j < self.spec_col(),
        ensures
            x == self.ent(i as int, j as int),
    {
        proof {
            lemma_flatten_index(i as int, j as int, self.spec_row(), self.spec_col());
        }
        self.data[i * self.col + j]
    }
}

/// The value of the output cell `(i, j)` of the product of `a` and `b`: the
/// wrap of the mathematical dot product of row `i` of `a` and column `j` of
/// `b`.
pub open spec fn mul_cell(a: Matrix, b: Matrix, i: int, j: int) -> i64 {
    wrap_to_i64(dot_int(a.row_seq(i), b.col_seq(j)))
}

/// [`mul_cell`] addressed by flattened index `t = i * b.cols + j`.
pub open spec fn mul_cell_at(a: Matrix, b: Matrix, t: int) -> i64 {
    mul_cell(a, b, t / b.spec_col(), t % b.spec_col())
}

/// A flattened index `i * col + j` stays below `row * col` and recovers `i`
/// and `j` by division and remainder.
pub proof fn lemma_flatten_index(i: int, j: int, row: int, col: int)
    requires
        0 <= i < row,
        0 <= j < col,
    ensures
        0 <= i * col + j < row * col,
        (i * col + j) / col == i,
        (i * col + j) % col == j,
{
    lemma_mul_inequality(i + 1, row, col);
    assert((i + 1) * col == i * col + col) by (nonlinear_arith);
    lemma_fundamental_div_mod_converse_div(i * col + j, col, i, j);
    lemma_fundamental_div_mod_converse_mod(i * col + j, col, i, j);
}

/// The separator before row `i` of a rendering: nothing before the first
/// row, `", "` before every later one.
pub open spec fn row_sep(i: int) -> Seq<char> {
    if i == 0 {
        Seq::empty()
    } else {
        seq![',', ' ']
    }
}

/// The first `j` elements of row `i`, separated by single spaces.
pub open spec fn render_row_prefix(m: Matrix, i: int, j: int) -> Seq<char>
    decreases j,
{
    if j <= 0 {
        Seq::empty()
    } else if j == 1 {
        dec_i64(m.ent(i, 0))
    } else {
        render_row_prefix(m, i, j - 1) + seq![' '] + dec_i64(m.ent(i, j - 1))
    }
}

/// The first `i` rows, separated by `", "`.
pub open spec fn render_rows_prefix(m: Matrix, i: int) -> Seq<char>
    decreases i,
{
    if i <= 0 {
        Seq::empty()
    } else {
        render_rows_prefix(m, i - 1) + row_sep(i - 1) + render_row_prefix(m, i - 1, m.spec_col())
    }
}

/// The exact rendering of a matrix: `{`, the rows separated by `", "` with
/// elements separated by single spaces, then `}`.
pub open spec fn render_spec(m: Matrix) -> Seq<char> {
    seq!['{'] + render_rows_prefix(m, m.spec_row()) + seq!['}']
}

/// Builds the task for output cell `(i, j)`: a contiguous copy of row `i`
/// of `a`, a strided gather of column `j` of `b`, and the flattened index
/// `i * b.cols + j`.
pub fn build_task(a: &Matrix, b: &Matrix, i: usize, j: usize) -> (t: MsgInput)
    requires
        a.wf(),
        b.wf(),
        i < a.spec_row(),
        j < b.spec_col(),
        a.spec_row() * b.spec_col() <= usize::MAX,
    ensures
        t.idx == i * b.spec_col() + j,
        t.row@ == a.row_seq(i as int),
        t.col@ == b.col_seq(j as int),
{
    proof {
        lemma_flatten_index(i as int, j as int, a.spec_row(), b.spec_col());
    }
    let mut row_buf: Vec<i64> = Vec::new();
    let mut k: usize = 0;
    while k < a.col
        invariant
            a.wf(),
            i < a.spec_row(),
            k <= a.spec_col(),
            row_buf@.len() == k,
            forall|t: int| 0 <= t < k ==> row_buf@[t] == a.ent(i as int, t),
        decreases a.spec_col() - k,
    {
        proof {
            lemma_flatten_index(i as int, k as int, a.spec_row(), a.spec_col());
        }
        row_buf.push(a.data[i * a.col + k]);
        k = k + 1;
    }
    let mut col_buf: Vec<i64> = Vec::new();
    let mut k: usize = 0;
    while k < b.row
        invariant
            b.wf(),
            j < b.spec_col(),
            k <= b.spec_row(),
            col_buf@.len() == k,
            forall|t: int| 0 <= t < k ==> col_buf@[t] == b.ent(t, j as int),
        decreases b.spec_row() - k,
    {
        proof {
            lemma_flatten_index(k as int, j as int, b.spec_row(), b.spec_col());
        }
        col_buf.push(b.data[k * b.col + j]);
        k = k + 1;
    }
    proof {
        assert(row_buf@ =~= a.row_seq(i as int));
        assert(col_buf@ =~= b.col_seq(j as int));
    }
    MsgInput::new(i * b.col + j, Vector::new(row_buf), Vector::new(col_buf))
}

/// Multiplies `a` by `b`. Succeeds exactly when the inner dimensions agree,
/// and then every cell `(i, j)` of the product holds the wrap of the
/// mathematical dot product of row `i` of `a` and column `j` of `b`;
/// otherwise fails with `DimensionMismatch` before any task is built.
pub fn multiply(a: &Matrix, b: &Matrix) -> (r: Result<Matrix, MatrixError>)
    requires
        a.wf(),
        b.wf(),
        a.spec_row() * b.spec_col() <= usize::MAX,
    ensures
        r is Ok <==> a.spec_col() == b.spec_row(),
        r matches Ok(c) ==> {
            &&& c.wf()
            &&& c.spec_row() == a.spec_row()
            &&& c.spec_col() == b.spec_col()
            &&& forall|i: int, j: int|
                0 <= i < a.spec_row() && 0 <= j < b.spec_col() ==> c.ent(i, j) == mul_cell(
                    *a,
                    *b,
                    i,
                    j,
                )
        },
        r matches Err(e) ==> e == MatrixError::DimensionMismatch,
{
    if a.col != b.row {
        return Err(MatrixError::DimensionMismatch);
    }
    let mut data: Vec<i64> = Vec::new();
    let mut i: usize = 0;
    while i < a.row
        invariant
            a.wf(),
            b.wf(),
            a.spec_col() == b.spec_row(),
            a.spec_row() * b.spec_col() <= usize::MAX,
            i <= a.spec_row(),
            data@.len() == i * b.spec_col(),
            forall|t: int| 0 <= t < data@.len() ==> data@[t] == mul_cell_at(*a, *b, t),
        decreases a.spec_row() - i,
    {
        let mut j: usize = 0;
        while j < b.col
            invariant
                a.wf(),
                b.wf(),
                a.spec_col() == b.spec_row(),
                a.spec_row() * b.spec_col() <= usize::MAX,
                i < a.spec_row(),
                j <= b.spec_col(),
                data@.len() == i * b.spec_col() + j,
                forall|t: int| 0 <= t < data@.len() ==> data@[t] == mul_cell_at(*a, *b, t),
            decreases b.spec_col() - j,
        {
            let task = build_task(a, b, i, j);
            match dot_product(task.row, task.col) {
                Ok(v) => {
                    proof {
                        lemma_flatten_index(i as int, j as int, a.spec_row(), b.spec_col());
                    }
                    data.push(v);
                },
                Err(_) => {
                    // Unreachable: the row has `a.cols` elements and the
                    // column has `b.rows`, which the dimension check made
                    // equal.
                    return Err(MatrixError::DimensionMismatch);
                },
            }
            j = j + 1;
        }
        proof {
            assert((i + 1) * b.spec_col() == i * b.spec_col() + b.spec_col()) by (nonlinear_arith);
        }
        i = i + 1;
    }
    let c = Matrix { data, row: a.row, col: b.col };
    proof {
        assert forall|i: int, j: int|
            0 <= i < a.spec_row() && 0 <= j < b.spec_col() implies c.ent(i, j) == mul_cell(
            *a,
            *b,
            i,
            j,
        ) by {
            lemma_flatten_index(i, j, a.spec_row(), b.spec_col());
        }
    }
    Ok(c)
}

/// A flattened index `t` below `row * col` recovers a row `t / col` and a
/// column `t % col` in range, which flatten back to `t`.
pub proof fn lemma_unflatten_index(t: int, row: int, col: int)
    requires
        0 <= t < row * col,
        row >= 1,
        col >= 1,
    ensures
        0 <= t / col < row,
        0 <= t % col < col,
        (t / col) * col + (t % col) == t,
{
    lemma_fundamental_div_mod(t, col);
    lemma_mod_division_less_than_divisor(t, col);
    lemma_div_pos_is_pos(t, col);
    assert(col * (t / col) == (t / col) * col) by (nonlinear_arith);
    if t / col >= row {
        lemma_mul_inequality(row, t / col, col);
        assert(false);
    }
}

/// Two well-formed matrices of the same dimensions whose cells agree have
/// equal buffers.
pub proof fn lemma_cells_determine_matrix(c1: Matrix, c2: Matrix)
    requires
        c1.wf(),
        c2.wf(),
        c1.spec_row() == c2.spec_row(),
        c1.spec_col() == c2.spec_col(),
        forall|i: int, j: int|
            0 <= i < c1.spec_row() && 0 <= j < c1.spec_col() ==> c1.ent(i, j) == c2.ent(i, j),
    ensures
        c1.spec_data() == c2.spec_data(),
{
    assert forall|t: int| 0 <= t < c1.spec_data().len() implies c1.spec_data()[t]
        == c2.spec_data()[t] by {
        lemma_unflatten_index(t, c1.spec_row(), c1.spec_col());
        assert(c1.ent(t / c1.spec_col(), t % c1.spec_col()) == c2.ent(
            t / c1.spec_col(),
            t % c1.spec_col(),
        ));
    }
    assert(c1.spec_data() =~= c2.spec_data());
}

/// Determinism of multiplication: the contract of [`multiply`] pins every
/// cell of a successful product, so two products of the same factors have
/// the same dimensions and bit-identical buffers.
pub proof fn lemma_multiply_deterministic(a: Matrix, b: Matrix, c1: Matrix, c2: Matrix)
    requires
        a.wf(),
        b.wf(),
        c1.wf(),
        c2.wf(),
        c1.spec_row() == a.spec_row(),
        c1.spec_col() == b.spec_col(),
        c2.spec_row() == a.spec_row(),
        c2.spec_col() == b.spec_col(),
        forall|i: int, j: int|
            0 <= i < a.spec_row() && 0 <= j < b.spec_col() ==> c1.ent(i, j) == mul_cell(a, b, i, j),
        forall|i: int, j: int|
            0 <= i < a.spec_row() && 0 <= j < b.spec_col() ==> c2.ent(i, j) == mul_cell(a, b, i, j),
    ensures
        c1.spec_data() == c2.spec_data(),
{
    lemma_cells_determine_matrix(c1, c2);
}

/// When the mathematical dot product of row `i` of `a` and column `j` of
/// `b` lies in `i64` range, the product's cell holds it exactly: wrap-around
/// only matters on overflow.
pub proof fn lemma_mul_cell_exact(a: Matrix, b: Matrix, i: int, j: int)
    requires
        i64::MIN <= dot_int(a.row_seq(i), b.col_seq(j)) <= i64::MAX,
    ensures
        mul_cell(a, b, i, j) == dot_int(a.row_seq(i), b.col_seq(j)),
{
    lemma_wrap_in_range(dot_int(a.row_seq(i), b.col_seq(j)));
}

/// Whether `m` is an identity matrix: square, ones on the diagonal, zeros
/// everywhere else.
pub open spec fn is_identity(m: Matrix) -> bool {
    &&& m.spec_row() == m.spec_col()
    &&& forall|i: int, j: int|
        0 <= i < m.spec_row() && 0 <= j < m.spec_col() ==> m.ent(i, j) == if i == j {
            1i64
        } else {
            0i64
        }
}

/// The dot product of a prefix of `r` with a unit vector picks out one
/// coordinate of `r`.
proof fn lemma_dot_unit(r: Seq<i64>, e: Seq<i64>, j: int, n: int)
    requires
        0 <= j,
        n <= r.len(),
        n <= e.len(),
        forall|k: int| 0 <= k < n ==> e[k] == if k == j {
            1i64
        } else {
            0i64
        },
    ensures
        dot_prefix(r, e, n) == if j < n {
            r[j] as int
        } else {
            0
        },
    decreases n,
{
    if n > 0 {
        lemma_dot_unit(r, e, j, n - 1);
    }
}

/// Identity law: every cell of a product with an identity matrix on the
/// right equals the corresponding cell of the left factor, so by the
/// contract of [`multiply`] the product equals the left factor.
pub proof fn lemma_multiply_identity(a: Matrix, b: Matrix)
    requires
        a.wf(),
        b.wf(),
        is_identity(b),
        b.spec_row() == a.spec_col(),
    ensures
        forall|i: int, j: int|
            0 <= i < a.spec_row() && 0 <= j < a.spec_col() ==> mul_cell(a, b, i, j) == a.ent(i, j),
{
    assert forall|i: int, j: int|
        0 <= i < a.spec_row() && 0 <= j < a.spec_col() implies mul_cell(a, b, i, j) == a.ent(
        i,
        j,
    ) by {
        let r = a.row_seq(i);
        let e = b.col_seq(j);
        lemma_dot_unit(r, e, j, a.spec_col());
        lemma_wrap_in_range(a.ent(i, j) as int);
    }
}

/// Identity law, at the matrix level: a product of `a` with an identity
/// matrix on the right — any `c` meeting the success contract of
/// [`multiply`] — equals `a` in dimensions and buffer.
pub proof fn lemma_multiply_identity_matrix(a: Matrix, b: Matrix, c: Matrix)
    requires
        a.wf(),
        b.wf(),
        c.wf(),
        is_identity(b),
        b.spec_row() == a.spec_col(),
        c.spec_row() == a.spec_row(),
        c.spec_col() == b.spec_col(),
        forall|i: int, j: int|
            0 <= i < a.spec_row() && 0 <= j < b.spec_col() ==> c.ent(i, j) == mul_cell(a, b, i, j),
    ensures
        c.spec_row() == a.spec_row(),
        c.spec_col() == a.spec_col(),
        c.spec_data() == a.spec_data(),
{
    lemma_multiply_identity(a, b);
    lemma_cells_determine_matrix(c, a);
}

} // verus!
