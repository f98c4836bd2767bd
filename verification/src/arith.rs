//! Wrap-around arithmetic on `i64`.
//!
//! Sums of products are specified as mathematical integers and mapped into
//! `i64` by [`wrap_to_i64`], the unique representative modulo 2^64. The
//! lemmas here let a loop of `wrapping_add` / `wrapping_mul` steps be summed
//! up as one wrap of the whole mathematical sum.

use vstd::arithmetic::div_mod::lemma_add_mod_noop;
use vstd::arithmetic::div_mod::lemma_mod_add_multiples_vanish;
use vstd::arithmetic::div_mod::lemma_mod_sub_multiples_vanish;
use vstd::arithmetic::div_mod::lemma_mod_twice;
use vstd::arithmetic::div_mod::lemma_small_mod;
use vstd::prelude::*;
use vstd::wrapping::i64_specs;

verus! {

/// The number of distinct `i64` values: the modulus of wrap-around arithmetic.
pub open spec fn two_64() -> int {
    0x1_0000_0000_0000_0000
}

/// The unique `i64` congruent to `x` modulo 2^64.
pub open spec fn wrap_to_i64(x: int) -> i64 {
    i64_specs::signed_crop(x)
}

/// The wrap of `x` is congruent to `x` modulo 2^64.
pub proof fn lemma_wrap_congruent(x: int)
    ensures
        (wrap_to_i64(x) as int) % two_64() == x % two_64(),
{
    let m = two_64();
    lemma_mod_twice(x, m);
    if x % m > i64::MAX as int {
        lemma_mod_sub_multiples_vanish(x % m, m);
    }
}

/// A value of `i64` range congruent to `z` modulo 2^64 is the wrap of `z`.
pub proof fn lemma_wrap_unique(z: int, v: int)
    requires
        i64::MIN <= v <= i64::MAX,
        v % two_64() == z % two_64(),
    ensures
        wrap_to_i64(z) == v,
{
    let m = two_64();
    if v >= 0 {
        lemma_small_mod(v as nat, m as nat);
    } else {
        lemma_mod_add_multiples_vanish(v, m);
        lemma_small_mod((v + m) as nat, m as nat);
    }
}

/// Wrapping keeps a value that already lies in `i64` range.
pub proof fn lemma_wrap_in_range(z: int)
    requires
        i64::MIN <= z <= i64::MAX,
    ensures
        wrap_to_i64(z) == z,
{
    lemma_wrap_unique(z, z);
}

/// Adding the wraps of `x` and `y` with wrap-around addition gives the wrap
/// of `x + y`.
pub proof fn lemma_wrap_add(x: int, y: int)
    ensures
        i64_specs::wrapping_add(wrap_to_i64(x), wrap_to_i64(y)) == wrap_to_i64(x + y),
{
    let m = two_64();
    let u = wrap_to_i64(x);
    let v = wrap_to_i64(y);
    let w = i64_specs::wrapping_add(u, v);
    lemma_wrap_congruent(x);
    lemma_wrap_congruent(y);
    if u + v > i64::MAX {
        lemma_mod_sub_multiples_vanish(u as int + v as int, m);
    } else if u + v < i64::MIN {
        lemma_mod_add_multiples_vanish(u as int + v as int, m);
    }
    lemma_add_mod_noop(u as int, v as int, m);
    lemma_add_mod_noop(x, y, m);
    lemma_wrap_unique(x + y, w as int);
}

} // verus!
