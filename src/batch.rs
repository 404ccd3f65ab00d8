use vstd::prelude::*;

verus! {

/// The half-open range of file positions in batch `i`: `size` files from
/// `i * size`, the last batch cut at `len`.
pub open spec fn batch_range(len: int, size: int, i: int) -> (int, int) {
    (i * size, if (i + 1) * size <= len {
        (i + 1) * size
    } else {
        len
    })
}

/// The number of batches of `size` that `len` files make.
pub open spec fn batch_count(len: int, size: int) -> int {
    (len + size - 1) / size
}

/// Splits positions `0..len` into consecutive batches of `batch_size`; the
/// last may be shorter.
pub fn batch_bounds(len: usize, batch_size: usize) -> (r: Vec<(usize, usize)>)
    requires
        batch_size > 0,
    ensures
        r@.len() == batch_count(len as int, batch_size as int),
        forall|i: int|
            0 <= i < r@.len() ==> (#[trigger] r@[i]).0 as int == batch_range(
                len as int,
                batch_size as int,
                i,
            ).0 && r@[i].1 as int == batch_range(len as int, batch_size as int, i).1,
{
    let mut r: Vec<(usize, usize)> = Vec::new();
    let mut start: usize = 0;
    assert(r@.len() * batch_size == 0) by (nonlinear_arith)
        requires
            r@.len() == 0,
    ;
    while start < len
        invariant
            batch_size > 0,
            start <= len,
            start as int == (if r@.len() * batch_size <= len {
                r@.len() * batch_size
            } else {
                len as int
            }),
            r@.len() > 0 ==> (r@.len() - 1) * batch_size < len,
            r@.len() <= len,
            forall|i: int|
                0 <= i < r@.len() ==> (#[trigger] r@[i]).0 as int == batch_range(
                    len as int,
                    batch_size as int,
                    i,
                ).0 && r@[i].1 as int == batch_range(len as int, batch_size as int, i).1,
        decreases len - start,
    {
        let end: usize = if len - start > batch_size {
            start + batch_size
        } else {
            len
        };
        let ghost k = r@.len() as int;
        proof {
            assert((k + 1) * batch_size == k * batch_size + batch_size) by (nonlinear_arith);
            assert(k <= k * batch_size) by (nonlinear_arith)
                requires
                    k >= 0,
                    batch_size > 0,
            ;
        }
        r.push((start, end));
        start = end;
    }
    proof {
        let k = r@.len() as int;
        let b = batch_size as int;
        let n = len as int;
        assert(k * b >= n);
        assert((n + b - 1) / b == k) by (nonlinear_arith)
            requires
                k * b >= n,
                k == 0 || (k - 1) * b < n,
                n >= 0,
                b > 0,
        {
        }
    }
    r
}

/// Each position lies in exactly one batch: the batches leave no file out and
/// take none twice.
pub proof fn lemma_each_position_in_one_batch(len: int, size: int, k: int)
    requires
        size > 0,
        0 <= k < len,
    ensures
        0 <= k / size < batch_count(len, size),
        batch_range(len, size, k / size).0 <= k < batch_range(len, size, k / size).1,
        forall|i: int|
            0 <= i < batch_count(len, size) && batch_range(len, size, i).0 <= k
                < #[trigger] batch_range(len, size, i).1 ==> i == k / size,
{
    let q = k / size;
    assert(q * size <= k < (q + 1) * size) by (nonlinear_arith)
        requires
            q == k / size,
            size > 0,
            k >= 0,
    ;
    assert(q < (len + size - 1) / size) by (nonlinear_arith)
        requires
            q * size <= k,
            k < len,
            size > 0,
    ;
    assert(q >= 0) by (nonlinear_arith)
        requires
            q == k / size,
            size > 0,
            k >= 0,
    ;
    assert forall|i: int|
        0 <= i < batch_count(len, size) && batch_range(len, size, i).0 <= k < #[trigger] batch_range(
            len,
            size,
            i,
        ).1 implies i == q by {
        assert(i * size <= k < (i + 1) * size);
        assert(i == q) by (nonlinear_arith)
            requires
                i * size <= k,
                k < (i + 1) * size,
                q * size <= k,
                k < (q + 1) * size,
                size > 0,
        ;
    }
}

} // verus!
