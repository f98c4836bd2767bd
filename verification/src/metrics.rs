//! A counter map for instrumentation: named counters, incremented one at a
//! time and rendered as a newline-separated snapshot. Correctness of the
//! matrix computation never depends on it.

use crate::arith::lemma_wrap_add;
use crate::arith::lemma_wrap_in_range;
use crate::arith::wrap_to_i64;
use crate::digits::dec_i64;
use crate::digits::i64_dec;
use crate::errors::MetricsError;
use vstd::prelude::*;

verus! {

/// Finds the position of `key` among `names`.
fn find_name(names: &Vec<String>, key: &str) -> (r: Option<usize>)
    ensures
        match r {
            Some(i) => i < names@.len() && names@[i as int]@ == key@,
            None => forall|t: int| 0 <= t < names@.len() ==> names@[t]@ != key@,
        },
{
    let owned = key.to_owned();
    let n = names.len();
    let mut k: usize = 0;
    while k < n
        invariant
            n == names@.len(),
            k <= n,
            owned@ == key@,
            forall|t: int| 0 <= t < k ==> names@[t]@ != key@,
        decreases n - k,
    {
        let nm: &String = &names[k];
        if *nm == owned {
            return Some(k);
        }
        k = k + 1;
    }
    None
}

/// A map of named counters.
#[derive(Clone)]
pub struct AmapMetrics {
    names: Vec<String>,
    counts: Vec<i64>,
}

/// Every counter of `m` carries one of the given names.
pub open spec fn names_cover(m: &AmapMetrics, names: Seq<&'static str>) -> bool {
    forall|t: int|
        0 <= t < m.spec_len() ==> exists|u: int|
            0 <= u < names.len() && names[u]@ == #[trigger] m.name_at(t)
}

impl AmapMetrics {
    /// Well-formed: one counter per name, names pairwise distinct.
    pub closed spec fn wf(&self) -> bool {
        &&& self.names@.len() == self.counts@.len()
        &&& forall|p: int, q: int|
            0 <= p < q < self.names@.len() ==> self.names@[p]@ != self.names@[q]@
    }

    /// The number of counters.
    pub closed spec fn spec_len(&self) -> int {
        self.names@.len() as int
    }

    /// The name of counter `i`.
    pub closed spec fn name_at(&self, i: int) -> Seq<char> {
        self.names@[i]@
    }

    /// The value of counter `i`.
    pub closed spec fn count_at(&self, i: int) -> i64 {
        self.counts@[i]
    }

    /// Whether a counter named `k` exists.
    pub open spec fn has_key(&self, k: Seq<char>) -> bool {
        exists|i: int| 0 <= i < self.spec_len() && self.name_at(i) == k
    }

    /// The snapshot of the first `k` counters: one `name: count` line per
    /// counter, each ended by a newline.
    pub open spec fn snapshot_prefix(&self, k: int) -> Seq<char>
        decreases k,
    {
        if k <= 0 {
            Seq::empty()
        } else {
            self.snapshot_prefix(k - 1) + self.name_at(k - 1) + seq![':', ' '] + dec_i64(
                self.count_at(k - 1),
            ) + seq!['\n']
        }
    }

    /// The snapshot of all counters, in construction order.
    pub open spec fn snapshot_spec(&self) -> Seq<char> {
        self.snapshot_prefix(self.spec_len())
    }

    /// Builds a counter map with one counter per distinct name, each
    /// starting at zero. A repeated name keeps its first occurrence.
    pub fn new(metrics_names: &[&'static str]) -> (m: AmapMetrics)
        ensures
            m.wf(),
            forall|u: int|
                0 <= u < metrics_names@.len() ==> m.has_key(#[trigger] metrics_names@[u]@),
            names_cover(&m, metrics_names@),
            forall|i: int| 0 <= i < m.spec_len() ==> m.count_at(i) == 0,
    {
        let mut m = AmapMetrics { names: Vec::new(), counts: Vec::new() };
        let n = metrics_names.len();
        let mut k: usize = 0;
        while k < n
            invariant
                n == metrics_names@.len(),
                k <= n,
                m.wf(),
                forall|i: int| 0 <= i < m.spec_len() ==> m.count_at(i) == 0,
                forall|u: int| 0 <= u < k ==> m.has_key(#[trigger] metrics_names@[u]@),
                names_cover(&m, metrics_names@),
            decreases n - k,
        {
            let name = metrics_names[k];
            match find_name(&m.names, name) {
                Some(i) => {
                    proof {
                        assert(m.has_key(metrics_names@[k as int]@)) by {
                            assert(0 <= (i as int) < m.spec_len() && m.name_at(i as int)
                                == metrics_names@[k as int]@);
                        }
                    }
                },
                None => {
                    let ghost prev = m;
                    m.names.push(name.to_owned());
                    m.counts.push(0);
                    proof {
                        assert(m.spec_len() == prev.spec_len() + 1);
                        assert(m.name_at(prev.spec_len()) == metrics_names@[k as int]@);
                        assert(m.count_at(prev.spec_len()) == 0);
                        assert(forall|t: int|
                            0 <= t < prev.spec_len() ==> #[trigger] m.name_at(t) == prev.name_at(
                                t,
                            ));
                        assert(forall|t: int|
                            0 <= t < prev.spec_len() ==> #[trigger] m.count_at(t) == prev.count_at(
                                t,
                            ));
                        assert forall|u: int| 0 <= u <= k implies m.has_key(
                            #[trigger] metrics_names@[u]@,
                        ) by {
                            if u < k {
                                let t = choose|t: int|
                                    0 <= t < prev.spec_len() && prev.name_at(t)
                                        == metrics_names@[u]@;
                                assert(m.name_at(t) == metrics_names@[u]@);
                            } else {
                                assert(m.name_at(prev.spec_len()) == metrics_names@[u]@);
                            }
                        }
                        assert(names_cover(&m, metrics_names@)) by {
                            assert forall|t: int| 0 <= t < m.spec_len() implies exists|u: int|
                                0 <= u < metrics_names@.len() && metrics_names@[u]@
                                    == #[trigger] m.name_at(t) by {
                                if t < prev.spec_len() {
                                    assert(prev.name_at(t) == m.name_at(t));
                                    let u = choose|u: int|
                                        0 <= u < metrics_names@.len() && metrics_names@[u]@
                                            == prev.name_at(t);
                                    assert(metrics_names@[u]@ == m.name_at(t));
                                } else {
                                    assert(metrics_names@[k as int]@ == m.name_at(t));
                                }
                            }
                        }
                    }
                },
            }
            k = k + 1;
        }
        m
    }

    /// Increments the named counter by one with wrap-around. Succeeds
    /// exactly when the counter exists; otherwise fails with `KeyNotFound`
    /// and changes nothing.
    pub fn inc(&mut self, key: &str) -> (r: Result<(), MetricsError>)
        requires
            old(self).wf(),
        ensures
            final(self).wf(),
            r is Ok <==> old(self).has_key(key@),
            final(self).spec_len() == old(self).spec_len(),
            forall|i: int|
                0 <= i < old(self).spec_len() ==> final(self).name_at(i) == old(self).name_at(i),
            forall|i: int|
                0 <= i < old(self).spec_len() ==> final(self).count_at(i) == if old(self).name_at(i)
                    == key@ {
                    wrap_to_i64(old(self).count_at(i) + 1)
                } else {
                    old(self).count_at(i)
                },
            r matches Err(e) ==> e == MetricsError::KeyNotFound && *final(self) == *old(self),
    {
        match find_name(&self.names, key) {
            Some(i) => {
                let c = self.counts[i];
                proof {
                    assert(old(self).name_at(i as int) == key@);
                    lemma_wrap_in_range(c as int);
                    lemma_wrap_in_range(1);
                    lemma_wrap_add(c as int, 1);
                }
                self.counts.set(i, c.wrapping_add(1));
                Ok(())
            },
            None => {
                proof {
                    assert forall|i: int| 0 <= i < self.spec_len() implies self.name_at(i)
                        != key@ by {
                        assert(self.names@[i]@ != key@);
                    }
                }
                Err(MetricsError::KeyNotFound)
            },
        }
    }

    /// Renders the counters as `name: count` lines, one per counter, each
    /// ended by a newline, in construction order.
    pub fn snapshot(&self) -> (s: String)
        requires
            self.wf(),
        ensures
            s@ == self.snapshot_spec(),
    {
        let mut s = String::new();
        let n = self.names.len();
        let mut k: usize = 0;
        proof {
            assert(s@ =~= self.snapshot_prefix(0));
        }
        while k < n
            invariant
                self.wf(),
                n == self.spec_len(),
                k <= n,
                s@ == self.snapshot_prefix(k as int),
            decreases n - k,
        {
            let nm: &String = &self.names[k];
            s.append(nm.as_str());
            s.append(": ");
            let c = i64_dec(self.counts[k]);
            s.append(c.as_str());
            s.append("\n");
            proof {
                reveal_strlit(": ");
                reveal_strlit("\n");
                assert(s@ =~= self.snapshot_prefix(k as int + 1));
            }
            k = k + 1;
        }
        s
    }
}

} // verus!
