//! Enumeration of square and cubic coordinate ranges, outermost axis first.

use vstd::prelude::*;

verus! {

/// The side length of the range `lo..hi`, zero when the range is empty.
pub open spec fn range_len(lo: int, hi: int) -> int {
    if hi >= lo {
        hi - lo
    } else {
        0
    }
}

proof fn lemma_row_index_in_prefix(i: int, j: int, d: int, n: int)
    requires
        0 <= i < d,
        0 <= j < n,
    ensures
        0 <= i * n + j < d * n,
{
    assert(0 <= i * n + j < d * n) by (nonlinear_arith)
        requires
            0 <= i < d,
            0 <= j < n,
    ;
}

/// All pairs `(x, y)` with both coordinates in `lo..hi`, ordered with `x`
/// outermost: the pair at index `i * n + j` is `(lo + i, lo + j)`.
pub fn square_iter(lo: i32, hi: i32) -> (r: Vec<(i32, i32)>)
    requires
        range_len(lo as int, hi as int) * range_len(lo as int, hi as int) <= usize::MAX,
    ensures
        r@.len() == range_len(lo as int, hi as int) * range_len(lo as int, hi as int),
        forall|i: int, j: int|
            0 <= i < range_len(lo as int, hi as int) && 0 <= j < range_len(lo as int, hi as int)
                ==> #[trigger] r@[i * range_len(lo as int, hi as int) + j] == ((lo + i) as i32, (lo
                + j) as i32),
{
    let ghost n = range_len(lo as int, hi as int);
    let mut r: Vec<(i32, i32)> = Vec::new();
    if hi <= lo {
        return r;
    }
    let mut x = lo;
    while x < hi
        invariant
            lo <= x <= hi,
            hi > lo,
            n == hi - lo,
            n * n <= usize::MAX,
            r@.len() == (x - lo) * n,
            forall|i: int, j: int|
                0 <= i < (x - lo) && 0 <= j < n ==> #[trigger] r@[i * n + j] == ((lo + i) as i32, (
                lo + j) as i32),
        decreases hi - x,
    {
        let ghost done = (x - lo) as int;
        proof {
            assert(done * n + n <= n * n) by (nonlinear_arith)
                requires
                    0 <= done <= n - 1,
                    n >= 1,
            ;
        }
        let mut y = lo;
        while y < hi
            invariant
                lo <= y <= hi,
                lo <= x < hi,
                hi > lo,
                n == hi - lo,
                done == x - lo,
                done * n + n <= n * n <= usize::MAX,
                r@.len() == done * n + (y - lo),
                forall|i: int, j: int|
                    0 <= i < done && 0 <= j < n ==> #[trigger] r@[i * n + j] == ((lo + i) as i32, (
                    lo + j) as i32),
                forall|j: int|
                    0 <= j < (y - lo) ==> #[trigger] r@[done * n + j] == (x, (lo + j) as i32),
            decreases hi - y,
        {
            r.push((x, y));
            proof {
                assert forall|i: int, j: int| 0 <= i < done && 0 <= j < n implies #[trigger] r@[i
                    * n + j] == ((lo + i) as i32, (lo + j) as i32) by {
                    lemma_row_index_in_prefix(i, j, done, n);
                }
            }
            y = y + 1;
        }
        proof {
            assert((done + 1) * n == done * n + n) by (nonlinear_arith);
            assert forall|i: int, j: int| 0 <= i < (x - lo) + 1 && 0 <= j < n implies #[trigger] r@[
                i * n + j] == ((lo + i) as i32, (lo + j) as i32) by {
                if i == done {
                    assert(i * n + j == done * n + j);
                    assert(r@[done * n + j] == (x, (lo + j) as i32));
                }
            }
        }
        x = x + 1;
    }
    r
}

/// All triples `(x, y, z)` with every coordinate in `lo..hi`, ordered with
/// `x` outermost: the triple at index `(i * n + j) * n + k` is
/// `(lo + i, lo + j, lo + k)`.
pub fn cube_iter(lo: i32, hi: i32) -> (r: Vec<(i32, i32, i32)>)
    requires
        range_len(lo as int, hi as int) * range_len(lo as int, hi as int) * range_len(
            lo as int,
            hi as int,
        ) <= usize::MAX,
    ensures
        r@.len() == range_len(lo as int, hi as int) * range_len(lo as int, hi as int) * range_len(
            lo as int,
            hi as int,
        ),
        forall|i: int, j: int, k: int|
            0 <= i < range_len(lo as int, hi as int) && 0 <= j < range_len(lo as int, hi as int)
                && 0 <= k < range_len(lo as int, hi as int) ==> #[trigger] r@[(i * range_len(
                lo as int,
                hi as int,
            ) + j) * range_len(lo as int, hi as int) + k] == ((lo + i) as i32, (lo + j) as i32, (lo
                + k) as i32),
{
    let ghost n = range_len(lo as int, hi as int);
    let mut r: Vec<(i32, i32, i32)> = Vec::new();
    if hi <= lo {
        return r;
    }
    proof {
        assert(n * n <= n * n * n) by (nonlinear_arith)
            requires
                n >= 1,
        ;
    }
    let plane = square_iter(lo, hi);
    let mut x = lo;
    while x < hi
        invariant
            lo <= x <= hi,
            hi > lo,
            n == hi - lo,
            n * n * n <= usize::MAX,
            plane@.len() == n * n,
            forall|j: int, k: int|
                0 <= j < n && 0 <= k < n ==> #[trigger] plane@[j * n + k] == ((lo + j) as i32, (lo
                + k) as i32),
            r@.len() == (x - lo) * (n * n),
            forall|i: int, j: int, k: int|
                0 <= i < (x - lo) && 0 <= j < n && 0 <= k < n ==> #[trigger] r@[(i * n + j) * n + k]
                    == ((lo + i) as i32, (lo + j) as i32, (lo + k) as i32),
        decreases hi - x,
    {
        let ghost done = (x - lo) as int;
        proof {
            assert(done * (n * n) + n * n <= n * n * n) by (nonlinear_arith)
                requires
                    0 <= done <= n - 1,
                    n >= 1,
            ;
        }
        let mut p: usize = 0;
        while p < plane.len()
            invariant
                0 <= p <= plane@.len(),
                lo <= x < hi,
                hi > lo,
                n == hi - lo,
                done == x - lo,
                done * (n * n) + n * n <= n * n * n <= usize::MAX,
                plane@.len() == n * n,
                forall|j: int, k: int|
                    0 <= j < n && 0 <= k < n ==> #[trigger] plane@[j * n + k] == ((lo + j) as i32, (
                    lo + k) as i32),
                r@.len() == done * (n * n) + p,
                forall|i: int, j: int, k: int|
                    0 <= i < done && 0 <= j < n && 0 <= k < n ==> #[trigger] r@[(i * n + j) * n + k]
                        == ((lo + i) as i32, (lo + j) as i32, (lo + k) as i32),
                forall|q: int|
                    0 <= q < p ==> #[trigger] r@[done * (n * n) + q] == (
                        x,
                        plane@[q].0,
                        plane@[q].1,
                    ),
            decreases plane@.len() - p,
        {
            let cell = plane[p];
            r.push((x, cell.0, cell.1));
            proof {
                assert forall|i: int, j: int, k: int|
                    0 <= i < done && 0 <= j < n && 0 <= k < n implies #[trigger] r@[(i * n + j) * n
                    + k] == ((lo + i) as i32, (lo + j) as i32, (lo + k) as i32) by {
                    lemma_row_index_in_prefix(i, j, done, n);
                    lemma_row_index_in_prefix(i * n + j, k, done * n, n);
                    assert((done * n) * n <= done * (n * n)) by (nonlinear_arith);
                }
            }
            p = p + 1;
        }
        proof {
            assert((done + 1) * (n * n) == done * (n * n) + n * n) by (nonlinear_arith);
            assert forall|i: int, j: int, k: int|
                0 <= i < (x - lo) + 1 && 0 <= j < n && 0 <= k < n implies #[trigger] r@[(i * n + j)
                * n + k] == ((lo + i) as i32, (lo + j) as i32, (lo + k) as i32) by {
                if i == done {
                    let q = j * n + k;
                    lemma_row_index_in_prefix(j, k, n, n);
                    assert(r@[done * (n * n) + q] == (x, plane@[q].0, plane@[q].1));
                    assert(plane@[q] == ((lo + j) as i32, (lo + k) as i32));
                    assert((done * n + j) * n + k == done * (n * n) + q) by (nonlinear_arith)
                        requires
                            q == j * n + k,
                    ;
                    assert((i * n + j) * n + k == (done * n + j) * n + k);
                }
            }
        }
        x = x + 1;
    }
    proof {
        assert((hi - lo) * (n * n) == n * n * n) by (nonlinear_arith)
            requires
                n == hi - lo,
        ;
    }
    r
}

} // verus!
