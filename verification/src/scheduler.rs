//! Deterministic, order-preserving partition of a dataset into contiguous
//! batches: batch `k` covers sample indices `[k * batch_size,
//! min((k + 1) * batch_size, n))`. No shuffling — reproducibility is a design
//! requirement. Pure function over the dataset's length; no side effects.

use vstd::arithmetic::div_mod::{
    lemma_div_is_ordered, lemma_fundamental_div_mod, lemma_fundamental_div_mod_converse,
    lemma_mod_bound,
};
use vstd::arithmetic::mul::lemma_mul_inequality;
use vstd::prelude::*;

verus! {

/// A contiguous, half-open range of dataset indices processed as one
/// gradient-update unit.
#[derive(Clone, Copy, Debug, PartialEq, Eq, Structural)]
pub struct Batch {
    pub start: usize,
    pub end: usize,
}

/// Number of batches needed to cover `n` samples at `bs` per batch.
pub open spec fn spec_batch_count(n: nat, bs: nat) -> int
    recommends
        bs >= 1,
{
    if n == 0 {
        0
    } else {
        (n - 1) as int / bs as int + 1
    }
}

/// First index of batch `k`.
pub open spec fn batch_start(k: int, bs: nat) -> int {
    k * bs
}

/// One past the last index of batch `k`.
pub open spec fn batch_end(n: nat, k: int, bs: nat) -> int {
    if (k + 1) * bs <= n {
        (k + 1) * bs
    } else {
        n as int
    }
}

/// Partitions a dataset into fixed-size contiguous batches; the last batch
/// may be short.
pub struct BatchScheduler;

impl BatchScheduler {
    /// Partition `n` samples into batches of at most `batch_size`, in order.
    pub fn partition(n: usize, batch_size: usize) -> (r: Vec<Batch>)
        requires
            batch_size >= 1,
        ensures
            r@.len() == spec_batch_count(n as nat, batch_size as nat),
            forall|k: int|
                0 <= k < r@.len() ==> (#[trigger] r@[k]).start == batch_start(
                    k,
                    batch_size as nat,
                ) && r@[k].end == batch_end(n as nat, k, batch_size as nat),
    {
        let mut r: Vec<Batch> = Vec::new();
        let mut start: usize = 0;
        proof {
            assert(0 * (batch_size as int) == 0) by (nonlinear_arith);
        }
        while start < n
            invariant
                batch_size >= 1,
                start == if r@.len() * batch_size <= n {
                    (r@.len() * batch_size) as int
                } else {
                    n as int
                },
                r@.len() >= 1 ==> (r@.len() - 1) * batch_size < n,
                forall|k: int|
                    0 <= k < r@.len() ==> (#[trigger] r@[k]).start == batch_start(
                        k,
                        batch_size as nat,
                    ) && r@[k].end == batch_end(n as nat, k, batch_size as nat),
            decreases n - start,
        {
            let ghost j = r@.len() as int;
            proof {
                assert(j * batch_size < n);
                assert((j + 1) * batch_size == j * batch_size + batch_size) by (nonlinear_arith);
            }
            let end = if batch_size < n - start {
                start + batch_size
            } else {
                n
            };
            r.push(Batch { start, end });
            start = end;
        }
        proof {
            let count = r@.len() as int;
            let bs = batch_size as int;
            if n == 0 {
                assert(count == 0);
            } else {
                assert(count * bs >= n);
                assert(count >= 1);
                assert((count - 1) * bs < n);
                let q = count - 1;
                let rem = (n - 1) - q * bs;
                assert((count - 1) * bs + bs == count * bs) by (nonlinear_arith);
                lemma_fundamental_div_mod_converse((n - 1) as int, bs, q, rem);
                assert(count == spec_batch_count(n as nat, batch_size as nat));
            }
        }
        r
    }
}

/// The partition covers `0..n` with no gaps and no overlaps: every sample
/// index `i` falls inside exactly one batch, batch `i / batch_size`.
pub proof fn lemma_partition_covers(n: nat, bs: nat, i: int)
    requires
        bs >= 1,
        0 <= i < n,
    ensures
        0 <= i / (bs as int) < spec_batch_count(n, bs),
        batch_start(i / (bs as int), bs) <= i < batch_end(n, i / (bs as int), bs),
        forall|k: int|
            #[trigger] batch_start(k, bs) <= i < batch_end(n, k, bs) ==> k == i / (bs as int),
{
    let b = bs as int;
    let k = i / b;
    lemma_fundamental_div_mod(i, b);
    lemma_mod_bound(i, b);
    assert(i == b * k + i % b);
    assert(b * k == k * b) by (nonlinear_arith);
    assert(k * b <= i < (k + 1) * b) by {
        assert((k + 1) * b == k * b + b) by (nonlinear_arith);
    }
    // The batch index is within the batch count.
    lemma_div_is_ordered(i, (n - 1) as int, b);
    assert(k <= (n - 1) as int / b);
    assert(0 <= k) by {
        vstd::arithmetic::div_mod::lemma_div_pos_is_pos(i, b);
    }
    // The batch's end lies past `i`.
    assert(batch_end(n, k, bs) > i);
    // Uniqueness: any batch whose range holds `i` is batch `i / bs`.
    assert forall|k2: int| #[trigger] batch_start(k2, bs) <= i < batch_end(n, k2, bs) implies k2
        == k by {
        assert(k2 * b <= i);
        assert(i < (k2 + 1) * b || i < n);
        if i >= (k2 + 1) * b {
            assert(batch_end(n, k2, bs) <= (k2 + 1) * b) by {
                assert((k2 + 1) * b <= i < n ==> batch_end(n, k2, bs) == (k2 + 1) * b);
            }
        }
        assert(k2 * b <= i < (k2 + 1) * b);
        assert((k2 + 1) * b == k2 * b + b) by (nonlinear_arith);
        lemma_fundamental_div_mod_converse(i, b, k2, i - k2 * b);
    }
}

/// Shape of the partition: batches are contiguous (each starts where the
/// previous one ended), the first starts at 0, the last ends at `n`, none is
/// empty or larger than `bs`, and every batch but the last has exactly `bs`
/// samples.
pub proof fn lemma_partition_shape(n: nat, bs: nat)
    requires
        bs >= 1,
    ensures
        spec_batch_count(n, bs) == 0 <==> n == 0,
        forall|k: int|
            0 <= k < spec_batch_count(n, bs) ==> batch_start(k, bs) < #[trigger] batch_end(
                n,
                k,
                bs,
            ) <= n,
        forall|k: int|
            0 <= k < spec_batch_count(n, bs) ==> #[trigger] batch_end(n, k, bs) - batch_start(
                k,
                bs,
            ) <= bs,
        forall|k: int|
            0 <= k < spec_batch_count(n, bs) - 1 ==> #[trigger] batch_end(n, k, bs) == batch_start(
                k,
                bs,
            ) + bs,
        forall|k: int|
            1 <= k < spec_batch_count(n, bs) ==> #[trigger] batch_start(k, bs) == batch_end(
                n,
                k - 1,
                bs,
            ),
        batch_start(0, bs) == 0,
        spec_batch_count(n, bs) >= 1 ==> batch_end(n, spec_batch_count(n, bs) - 1, bs) == n,
{
    let b = bs as int;
    if n >= 1 {
        let count = spec_batch_count(n, bs);
        let q = (n - 1) as int / b;
        lemma_fundamental_div_mod((n - 1) as int, b);
        lemma_mod_bound((n - 1) as int, b);
        assert(count == q + 1);
        assert(b * q == q * b) by (nonlinear_arith);
        assert(q * b <= n - 1);
        assert((q + 1) * b == q * b + b) by (nonlinear_arith);
        assert(count * b >= n);
        assert forall|k: int| 0 <= k < count implies batch_start(k, bs) < batch_end(n, k, bs)
            <= n && batch_end(n, k, bs) - batch_start(k, bs) <= b by {
            lemma_mul_inequality(k, q, b);
            assert(k * b <= q * b);
            assert((k + 1) * b == k * b + b) by (nonlinear_arith);
        }
        assert forall|k: int| 0 <= k < count - 1 implies batch_end(n, k, bs) == batch_start(k, bs)
            + b by {
            lemma_mul_inequality(k + 1, q, b);
            assert((k + 1) * b <= q * b);
            assert((k + 1) * b == k * b + b) by (nonlinear_arith);
        }
        assert forall|k: int| 1 <= k < count implies batch_start(k, bs) == batch_end(
            n,
            k - 1,
            bs,
        ) by {
            lemma_mul_inequality(k, q, b);
            assert(k * b <= q * b);
        }
        assert(batch_end(n, count - 1, bs) == n) by {
            assert(count * b >= n);
            assert((count - 1) * b + b == count * b) by (nonlinear_arith);
        }
    }
}

} // verus!
