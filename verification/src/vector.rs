//! Fixed-length vectors of `i64` and their dot product.

use crate::arith::lemma_wrap_add;
use crate::arith::lemma_wrap_in_range;
use crate::arith::wrap_to_i64;
use crate::errors::MatrixError;
use vstd::prelude::*;

verus! {

/// The sum of the first `n` elementwise products of `a` and `b`, as a
/// mathematical integer.
pub open spec fn dot_prefix(a: Seq<i64>, b: Seq<i64>, n: int) -> int
    decreases n,
{
    if n <= 0 {
        0
    } else {
        dot_prefix(a, b, n - 1) + a[n - 1] * b[n - 1]
    }
}

/// The full dot product of `a` and `b`, as a mathematical integer.
pub open spec fn dot_int(a: Seq<i64>, b: Seq<i64>) -> int {
    dot_prefix(a, b, a.len() as int)
}

/// An immutable fixed-length ordered sequence of numeric elements.
pub struct Vector {
    data: Vec<i64>,
}

impl View for Vector {
    type V = Seq<i64>;

    closed spec fn view(&self) -> Seq<i64> {
        self.data@
    }
}

impl Vector {
    /// Wraps a buffer as a vector.
    pub fn new(data: Vec<i64>) -> (v: Vector)
        ensures
            v@ == data@,
    {
        Vector { data }
    }

    /// The number of elements.
    pub fn len(&self) -> (n: usize)
        ensures
            n == self@.len(),
    {
        self.data.len()
    }

    /// The element at position `i`.
    pub fn get(&self, i: usize) -> (x: i64)
        requires
            i < self@.len(),
        ensures
            x == self@[i as int],
    {
        self.data[i]
    }
}

/// Computes the dot product of `a` and `b` with wrap-around `i64`
/// arithmetic. Succeeds exactly when the lengths agree, and then returns the
/// wrap of the mathematical sum of elementwise products.
pub fn dot_product(a: Vector, b: Vector) -> (r: Result<i64, MatrixError>)
    ensures
        r is Ok <==> a@.len() == b@.len(),
        r matches Ok(v) ==> v == wrap_to_i64(dot_int(a@, b@)),
        r matches Err(e) ==> e == MatrixError::VectorLengthMismatch,
{
    if a.len() != b.len() {
        return Err(MatrixError::VectorLengthMismatch);
    }
    let n = a.len();
    let mut sum: i64 = 0;
    let mut k: usize = 0;
    proof {
        lemma_wrap_in_range(0);
    }
    while k < n
        invariant
            n == a@.len(),
            n == b@.len(),
            k <= n,
            sum == wrap_to_i64(dot_prefix(a@, b@, k as int)),
        decreases n - k,
    {
        let p = a.get(k).wrapping_mul(b.get(k));
        proof {
            lemma_wrap_add(dot_prefix(a@, b@, k as int), a@[k as int] * b@[k as int]);
        }
        sum = sum.wrapping_add(p);
        k = k + 1;
    }
    Ok(sum)
}

} // verus!
