//! Sharing the simulated paths out among worker threads: every worker gets a
//! contiguous range of path numbers of the same size (the last ones shorter or
//! empty), one per available CPU.
use vstd::prelude::*;

verus! {

/// The number of paths each worker is given: `paths / workers`, rounded up.
pub open spec fn paths_per_worker(paths: int, workers: int) -> int {
    (paths + workers - 1) / workers
}

/// The first path number of worker `i`.
pub open spec fn chunk_start(paths: int, workers: int, i: int) -> int {
    i * paths_per_worker(paths, workers)
}

/// One past the last path number of worker `i`: its share, cut off at `paths`.
pub open spec fn chunk_end(paths: int, workers: int, i: int) -> int {
    let full: int = chunk_start(paths, workers, i) + paths_per_worker(paths, workers);
    if full <= paths {
        full
    } else {
        paths
    }
}

/// How many paths worker `i` runs (its range may be empty, with its end before
/// its start).
pub open spec fn chunk_len(paths: int, workers: int, i: int) -> int {
    if chunk_end(paths, workers, i) > chunk_start(paths, workers, i) {
        chunk_end(paths, workers, i) - chunk_start(paths, workers, i)
    } else {
        0
    }
}

/// How many paths the first `n` workers run together.
pub open spec fn paths_run_by(paths: int, workers: int, n: int) -> int
    decreases n,
{
    if n <= 0 {
        0
    } else {
        paths_run_by(paths, workers, n - 1) + chunk_len(paths, workers, n - 1)
    }
}

/// The ranges that `split_paths` hands out, as a sequence.
pub open spec fn is_split(r: Seq<(usize, usize)>, paths: int, workers: int) -> bool {
    &&& r.len() == workers
    &&& forall|i: int|
        0 <= i < workers ==> #[trigger] r[i].0 == chunk_start(paths, workers, i) && r[i].1
            == chunk_end(paths, workers, i)
}

/// The number of path numbers the ranges of `r` hold together.
pub open spec fn ranges_total(r: Seq<(usize, usize)>) -> int
    decreases r.len(),
{
    if r.len() == 0 {
        0
    } else {
        ranges_total(r.drop_last()) + if r.last().1 > r.last().0 {
            r.last().1 - r.last().0
        } else {
            0
        }
    }
}

/// Path number `k` lies in some range `[start, end)` of `r`.
pub open spec fn path_is_run(r: Seq<(usize, usize)>, k: int) -> bool {
    exists|i: int| 0 <= i < r.len() && #[trigger] r[i].0 <= k < r[i].1
}

/// The ranges `[start, end)` of `r` run every path number below `paths` exactly
/// once: every such number lies in some range, the ranges come in order without
/// overlapping, none reaches past `paths`, and together they hold `paths` numbers.
pub open spec fn runs_each_path_once(r: Seq<(usize, usize)>, paths: int) -> bool {
    &&& forall|k: int| 0 <= k < paths ==> #[trigger] path_is_run(r, k)
    &&& forall|i: int, j: int| 0 <= i < j < r.len() ==> #[trigger] r[i].1 <= #[trigger] r[j].0
    &&& forall|i: int| 0 <= i < r.len() ==> #[trigger] r[i].1 <= paths
    &&& ranges_total(r) == paths
}

/// The rounded-up share lies between `paths` and `paths + workers - 1` once
/// multiplied back by `workers`.
proof fn lemma_share_bounds(paths: int, workers: int)
    requires
        paths >= 0,
        workers >= 1,
    ensures
        paths_per_worker(paths, workers) >= 0,
        workers * paths_per_worker(paths, workers) >= paths,
        workers * paths_per_worker(paths, workers) <= paths + workers - 1,
{
    let x: int = paths + workers - 1;
    vstd::arithmetic::div_mod::lemma_fundamental_div_mod(x, workers);
    vstd::arithmetic::div_mod::lemma_mod_bound(x, workers);
    let q: int = x / workers;
    if q < 0 {
        vstd::arithmetic::mul::lemma_mul_strict_inequality(q, 0, workers);
        assert(workers * q == q * workers) by {
            vstd::arithmetic::mul::lemma_mul_is_commutative(workers, q);
        }
    }
}

/// Every path number below `paths` lies in the range of exactly one worker, the
/// worker numbered `k / paths_per_worker`: no path is run twice and none is
/// left out.
pub proof fn lemma_each_path_in_exactly_one_chunk(paths: int, workers: int, k: int)
    requires
        workers >= 1,
        0 <= k < paths,
    ensures
        paths_per_worker(paths, workers) >= 1,
        0 <= k / paths_per_worker(paths, workers) < workers,
        forall|i: int|
            0 <= i < workers ==> (#[trigger] chunk_start(paths, workers, i) <= k < chunk_end(
                paths,
                workers,
                i,
            ) <==> i == k / paths_per_worker(paths, workers)),
{
    let p: int = paths_per_worker(paths, workers);
    lemma_share_bounds(paths, workers);
    if p <= 0 {
        vstd::arithmetic::mul::lemma_mul_inequality(p, 0, workers);
        vstd::arithmetic::mul::lemma_mul_is_commutative(workers, p);
    }
    assert(p >= 1);
    vstd::arithmetic::div_mod::lemma_fundamental_div_mod(k, p);
    vstd::arithmetic::div_mod::lemma_mod_bound(k, p);
    let q: int = k / p;
    assert(p * q == q * p) by {
        vstd::arithmetic::mul::lemma_mul_is_commutative(p, q);
    }
    if q < 0 {
        vstd::arithmetic::mul::lemma_mul_strict_inequality(q, 0, p);
    }
    if q >= workers {
        vstd::arithmetic::mul::lemma_mul_inequality(workers, q, p);
        vstd::arithmetic::mul::lemma_mul_is_commutative(workers, p);
    }
    assert forall|i: int|
        0 <= i < workers implies (#[trigger] chunk_start(paths, workers, i) <= k < chunk_end(
            paths,
            workers,
            i,
        ) <==> i == q) by {
        if chunk_start(paths, workers, i) <= k < chunk_end(paths, workers, i) {
            vstd::arithmetic::div_mod::lemma_fundamental_div_mod_converse(k, p, i, k - i * p);
        }
    }
}

/// The first `n` workers together run `min(n * paths_per_worker, paths)` paths.
proof fn lemma_paths_run_by_prefix(paths: int, workers: int, n: int)
    requires
        paths >= 0,
        workers >= 1,
        0 <= n,
    ensures
        paths_run_by(paths, workers, n) == if n * paths_per_worker(paths, workers) <= paths {
            n * paths_per_worker(paths, workers)
        } else {
            paths
        },
    decreases n,
{
    let p: int = paths_per_worker(paths, workers);
    lemma_share_bounds(paths, workers);
    if n == 0 {
        assert(0 * p == 0);
    } else {
        lemma_paths_run_by_prefix(paths, workers, n - 1);
        assert(n * p == (n - 1) * p + p) by {
            vstd::arithmetic::mul::lemma_mul_is_distributive_add_other_way(p, n - 1, 1);
        }
        assert((n - 1) * p >= 0) by {
            vstd::arithmetic::mul::lemma_mul_nonnegative(n - 1, p);
        }
    }
}

/// All workers together run exactly `paths` paths.
pub proof fn lemma_workers_run_all_paths(paths: int, workers: int)
    requires
        paths >= 0,
        workers >= 1,
    ensures
        paths_run_by(paths, workers, workers) == paths,
{
    lemma_share_bounds(paths, workers);
    lemma_paths_run_by_prefix(paths, workers, workers);
}

/// The ranges of a split add up like the workers' shares.
proof fn lemma_ranges_total_prefix(r: Seq<(usize, usize)>, paths: int, workers: int, n: int)
    requires
        is_split(r, paths, workers),
        paths >= 0,
        workers >= 1,
        0 <= n <= workers,
    ensures
        ranges_total(r.take(n)) == paths_run_by(paths, workers, n),
    decreases n,
{
    if n > 0 {
        lemma_ranges_total_prefix(r, paths, workers, n - 1);
        assert(r.take(n).drop_last() =~= r.take(n - 1));
        assert(r.take(n).last() == r[n - 1]);
    } else {
        assert(r.take(0).len() == 0);
    }
}

/// A split runs every path number below `paths` exactly once.
pub proof fn lemma_split_runs_each_path_once(r: Seq<(usize, usize)>, paths: int, workers: int)
    requires
        is_split(r, paths, workers),
        paths >= 0,
        workers >= 1,
    ensures
        runs_each_path_once(r, paths),
{
    let p: int = paths_per_worker(paths, workers);
    lemma_share_bounds(paths, workers);
    assert forall|k: int| 0 <= k < paths implies #[trigger] path_is_run(r, k) by {
        lemma_each_path_in_exactly_one_chunk(paths, workers, k);
        let i: int = k / p;
        assert(chunk_start(paths, workers, i) <= k < chunk_end(paths, workers, i));
        assert(r[i].0 <= k < r[i].1);
    }
    assert forall|i: int, j: int| 0 <= i < j < r.len() implies #[trigger] r[i].1 <= #[trigger] r[j].0 by {
        vstd::arithmetic::mul::lemma_mul_inequality(i + 1, j, p);
        vstd::arithmetic::mul::lemma_mul_is_distributive_add_other_way(p, i, 1);
        assert(1 * p == p);
        assert(r[i].0 == chunk_start(paths, workers, i));
        assert(r[i].1 == chunk_end(paths, workers, i));
        assert(r[j].0 == chunk_start(paths, workers, j));
        assert(chunk_end(paths, workers, i) <= i * p + p);
    }
    assert forall|i: int| 0 <= i < r.len() implies #[trigger] r[i].1 <= paths by {
        assert(r[i].0 == chunk_start(paths, workers, i));
    }
    lemma_ranges_total_prefix(r, paths, workers, workers);
    assert(r.take(workers) =~= r);
    lemma_workers_run_all_paths(paths, workers);
}

/// The number of paths each worker is given: `paths / workers`, rounded up.
pub fn paths_per_thread(paths: usize, workers: usize) -> (r: usize)
    requires
        workers >= 1,
    ensures
        r == paths_per_worker(paths as int, workers as int),
{
    let q = paths / workers;
    let rem = paths % workers;
    proof {
        vstd::arithmetic::div_mod::lemma_fundamental_div_mod(paths as int, workers as int);
        vstd::arithmetic::div_mod::lemma_mod_bound(paths as int, workers as int);
        let x: int = paths + workers - 1;
        assert(q * workers == workers * q) by {
            vstd::arithmetic::mul::lemma_mul_is_commutative(q as int, workers as int);
        }
        assert((q + 1) * workers == q * workers + workers) by {
            vstd::arithmetic::mul::lemma_mul_is_distributive_add_other_way(workers as int, q as int, 1);
        }
        assert(q <= q * workers) by {
            vstd::arithmetic::mul::lemma_mul_inequality(1, workers as int, q as int);
        }
        if rem == 0 {
            vstd::arithmetic::div_mod::lemma_fundamental_div_mod_converse(
                x,
                workers as int,
                q as int,
                workers - 1,
            );
        } else {
            vstd::arithmetic::div_mod::lemma_fundamental_div_mod_converse(
                x,
                workers as int,
                q + 1,
                rem - 1,
            );
        }
    }
    if rem == 0 {
        q
    } else {
        q + 1
    }
}

/// The range of path numbers `[start, end)` of each of `workers` workers: worker
/// `i` starts at `i * paths_per_thread` and runs that many paths, cut off at
/// `paths`.
pub fn split_paths(paths: usize, workers: usize) -> (r: Vec<(usize, usize)>)
    requires
        workers >= 1,
        paths + workers <= usize::MAX,
    ensures
        is_split(r@, paths as int, workers as int),
        r@.len() == workers,
        runs_each_path_once(r@, paths as int),
        forall|i: int|
            0 <= i < workers ==> #[trigger] r@[i].0 == i * ((paths + workers - 1) / workers as int),
{
    let per = paths_per_thread(paths, workers);
    proof {
        lemma_share_bounds(paths as int, workers as int);
    }
    let mut out: Vec<(usize, usize)> = Vec::new();
    let mut i: usize = 0;
    while i < workers
        invariant
            i <= workers,
            per == paths_per_worker(paths as int, workers as int),
            workers * per <= paths + workers - 1,
            paths + workers <= usize::MAX,
            out@.len() == i,
            forall|j: int|
                0 <= j < i ==> #[trigger] out@[j].0 == chunk_start(paths as int, workers as int, j)
                    && out@[j].1 == chunk_end(paths as int, workers as int, j),
        decreases workers - i,
    {
        proof {
            vstd::arithmetic::mul::lemma_mul_inequality(i + 1, workers as int, per as int);
            vstd::arithmetic::mul::lemma_mul_is_distributive_add_other_way(per as int, i as int, 1);
            vstd::arithmetic::mul::lemma_mul_is_commutative(workers as int, per as int);
            vstd::arithmetic::mul::lemma_mul_nonnegative(i as int, per as int);
        }
        let start = i * per;
        let end = if start + per <= paths {
            start + per
        } else {
            paths
        };
        out.push((start, end));
        i = i + 1;
    }
    proof {
        lemma_split_runs_each_path_once(out@, paths as int, workers as int);
    }
    out
}

/// Calls `num_cpus::get()`. Claimed, as its documentation says: at least 1. The
/// count itself depends on the machine and is left unsaid.
#[verifier::external_body]
fn available_cpus() -> (n: usize)
    ensures
        n >= 1,
{
    num_cpus::get()
}

/// Splits `paths` simulated paths among `workers` workers, or hands back the
/// number of workers where `paths` plus that number does not fit in a `usize`.
pub fn split_for_workers(paths: usize, workers: usize) -> (r: Result<Vec<(usize, usize)>, usize>)
    requires
        workers >= 1,
    ensures
        r is Err <==> paths + workers > usize::MAX,
        r matches Err(w) ==> w == workers,
        r matches Ok(c) ==> is_split(c@, paths as int, workers as int),
        r matches Ok(c) ==> c@.len() == workers && runs_each_path_once(c@, paths as int),
{
    if paths > usize::MAX - workers {
        Err(workers)
    } else {
        Ok(split_paths(paths, workers))
    }
}

/// Splits `paths` simulated paths among one worker per available CPU, as
/// `split_for_workers` does with the number of CPUs that `num_cpus` reports.
pub fn thread_chunks(paths: usize) -> (r: Result<Vec<(usize, usize)>, usize>)
    ensures
        r matches Ok(c) ==> c@.len() >= 1 && paths + c@.len() <= usize::MAX && is_split(
            c@,
            paths as int,
            c@.len() as int,
        ) && runs_each_path_once(c@, paths as int),
        r matches Err(workers) ==> workers >= 1 && paths + workers > usize::MAX,
{
    split_for_workers(paths, available_cpus())
}

} // verus!
