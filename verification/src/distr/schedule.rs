//! Static assignment of rows to workers, and the progress of a render.

use vstd::prelude::*;
use vstd::arithmetic::div_mod::{lemma_fundamental_div_mod, lemma_fundamental_div_mod_converse};

verus! {

/// The number of rows below `rows` that worker `index` of `workers` renders.
pub open spec fn stripe_len(index: int, workers: int, rows: int) -> int {
    if index >= rows {
        0
    } else {
        (rows - index + workers - 1) / workers
    }
}

/// The rows that worker `index` of `workers` renders, in order: `index`,
/// `index + workers`, and so on below `rows`.
pub open spec fn stripe(index: int, workers: int, rows: int) -> Seq<usize> {
    Seq::new(stripe_len(index, workers, rows) as nat, |k: int| (index + k * workers) as usize)
}

/// The rows that worker `index` of `workers` renders.
pub fn worker_rows(index: usize, workers: usize, rows: usize) -> (r: Vec<usize>)
    requires
        workers >= 1,
    ensures
        r@ == stripe(index as int, workers as int, rows as int),
{
    let mut out: Vec<usize> = Vec::new();
    if index >= rows {
        return out;
    }
    let mut row: usize = index;
    let ghost w = workers as int;
    let ghost n = stripe_len(index as int, w, rows as int);
    proof {
        lemma_stripe_len(index as int, w, rows as int);
    }
    loop
        invariant
            workers >= 1,
            w == workers,
            index < rows,
            n == stripe_len(index as int, w, rows as int),
            (n - 1) * w < rows - index <= n * w,
            out@.len() < n,
            row == index + out@.len() * w,
            row < rows,
            forall|k: int| 0 <= k < out@.len() ==> out@[k] == index + k * w,
        decreases rows - row,
    {
        let ghost m = out@.len() as int;
        out.push(row);
        proof {
            assert((m + 1) * w == m * w + w) by (nonlinear_arith);
        }
        if rows - row <= workers {
            proof {
                // the next row would not lie below `rows`
                assert(out@.len() == n) by (nonlinear_arith)
                    requires
                        out@.len() == m + 1,
                        m + 1 <= n,
                        w >= 1,
                        (n - 1) * w < rows - index,
                        rows - index <= (m + 1) * w,
                {
                    if m + 1 < n {
                        assert((m + 1) * w <= (n - 1) * w);
                    }
                }
                assert(out@ =~= stripe(index as int, w, rows as int));
            }
            return out;
        }
        row = row + workers;
        proof {
            assert(out@.len() < n) by (nonlinear_arith)
                requires
                    out@.len() == m + 1,
                    m + 1 <= n,
                    w >= 1,
                    rows - index <= n * w,
                    rows - index > (m + 1) * w,
            {
                if m + 1 >= n {
                    assert(n * w <= (m + 1) * w);
                }
            }
        }
    }
}

/// The number of rows of a stripe, bracketed: the stripe ends with the last
/// row below `rows`.
pub proof fn lemma_stripe_len(index: int, workers: int, rows: int)
    requires
        workers >= 1,
        0 <= index < rows,
    ensures
        stripe_len(index, workers, rows) >= 1,
        (stripe_len(index, workers, rows) - 1) * workers < rows - index <= stripe_len(
            index,
            workers,
            rows,
        ) * workers,
{
    let a = rows - index + workers - 1;
    let n = a / workers;
    lemma_fundamental_div_mod(a, workers);
    assert(0 <= a % workers < workers) by (nonlinear_arith)
        requires
            workers >= 1,
    ;
    assert(workers * n == n * workers) by (nonlinear_arith);
    assert((n - 1) * workers == n * workers - workers) by (nonlinear_arith);
    if n < 1 {
        assert(n * workers <= 0) by (nonlinear_arith)
            requires
                n <= 0,
                workers >= 1,
        ;
    }
}

/// The rows of the workers partition the rows of the image: every row of
/// the image is rendered by the worker `row % workers`, at one place of its
/// stripe, and by no other worker.
pub proof fn lemma_rows_partitioned(workers: int, rows: int, row: int)
    requires
        workers >= 1,
        0 <= row < rows <= usize::MAX,
    ensures
        stripe(row % workers, workers, rows).contains(row as usize),
        forall|w: int, k: int|
            0 <= w < workers && 0 <= k < stripe(w, workers, rows).len() && #[trigger] stripe(
                w,
                workers,
                rows,
            )[k] == row ==> w == row % workers && k == row / workers,
{
    let w0 = row % workers;
    let k0 = row / workers;
    lemma_fundamental_div_mod(row, workers);
    assert(0 <= w0 < workers) by (nonlinear_arith)
        requires
            w0 == row % workers,
            workers >= 1,
    ;
    assert(workers * k0 == k0 * workers) by (nonlinear_arith);
    assert(k0 >= 0) by (nonlinear_arith)
        requires
            row == k0 * workers + w0,
            0 <= row,
            0 <= w0 < workers,
    {
        if k0 < 0 {
            assert(k0 * workers <= -workers);
        }
    }
    lemma_stripe_len(w0, workers, rows);
    let n = stripe_len(w0, workers, rows);
    assert(k0 < n) by (nonlinear_arith)
        requires
            row == k0 * workers + w0,
            row < rows,
            rows - w0 <= n * workers,
            workers >= 1,
    {
        if k0 >= n {
            assert(k0 * workers >= n * workers);
        }
    }
    assert(stripe(w0, workers, rows)[k0] == row as usize);
    assert forall|w: int, k: int|
        0 <= w < workers && 0 <= k < stripe(w, workers, rows).len() && #[trigger] stripe(
            w,
            workers,
            rows,
        )[k] == row implies w == w0 && k == k0 by {
        lemma_stripe_len(w, workers, rows);
        let m = stripe_len(w, workers, rows);
        assert(0 <= w + k * workers < rows) by (nonlinear_arith)
            requires
                0 <= k <= m - 1,
                0 <= w,
                workers >= 1,
                (m - 1) * workers < rows - w,
        {
            assert(k * workers <= (m - 1) * workers);
            assert(k * workers >= 0);
        }
        assert(row == k * workers + w);
        lemma_fundamental_div_mod_converse(row, workers, k, w);
    }
}

/// The progress of a render after `done` of `total` rows: the part done in
/// parts of ten thousand, and the time that is left if the rows to come take
/// as long as the rows that are done, in the unit of `elapsed`. Before the
/// first row is done nothing can be said of the time that is left.
pub open spec fn progress_spec(done: int, total: int, elapsed: int) -> (int, Option<int>) {
    (
        if total == 0 {
            10000
        } else {
            done * 10000 / total
        },
        if done == 0 {
            None
        } else {
            Some(elapsed * (total - done) / done)
        },
    )
}

/// The progress of a render: what the monitor reports after each row.
pub fn progress(done: usize, total: usize, elapsed: u64) -> (r: (u32, Option<u128>))
    requires
        done <= total,
    ensures
        r.0 == progress_spec(done as int, total as int, elapsed as int).0,
        match r.1 {
            Some(left) => progress_spec(done as int, total as int, elapsed as int).1 == Some(
                left as int,
            ),
            None => progress_spec(done as int, total as int, elapsed as int).1.is_none(),
        },
{
    let part: u32 = if total == 0 {
        10000
    } else {
        let x: u128 = (done as u128) * 10000 / (total as u128);
        proof {
            assert(done * 10000 / (total as int) <= 10000) by (nonlinear_arith)
                requires
                    0 <= done <= total,
                    total > 0,
            ;
        }
        x as u32
    };
    let left: Option<u128> = if done == 0 {
        None
    } else {
        proof {
            assert(elapsed * (total - done) <= 0xffff_ffff_ffff_ffff * 0xffff_ffff_ffff_ffff)
                by (nonlinear_arith)
                requires
                    0 <= elapsed <= 0xffff_ffff_ffff_ffff,
                    0 <= total - done <= 0xffff_ffff_ffff_ffff,
            ;
        }
        Some((elapsed as u128) * ((total - done) as u128) / (done as u128))
    };
    (part, left)
}

/// The reading `r` is the progress after `done` of `total` rows and the time `elapsed`.
pub open spec fn reads_progress(r: (u32, Option<u128>), done: int, total: int, elapsed: int) -> bool {
    &&& r.0 == progress_spec(done, total, elapsed).0
    &&& match r.1 {
        Some(left) => progress_spec(done, total, elapsed).1 == Some(left as int),
        None => progress_spec(done, total, elapsed).1.is_none(),
    }
}

/// The value of the high-resolution performance counter of `time`, in
/// nanoseconds since an unspecified epoch, as `time::precise_time_ns`
/// returns it. Nothing is claimed of the value.
#[verifier::external_body]
fn now_ns() -> (t: u64) {
    time::precise_time_ns()
}

/// The monitor of a render: it knows when the render began and how many rows it has.
pub struct Monitor {
    /// The counter of nanoseconds when the render began.
    pub start: u64,
    /// The number of rows of the render.
    pub total: usize,
}

impl Monitor {
    /// Starts to monitor a render of `total` rows.
    pub fn begin(total: usize) -> (m: Monitor)
        ensures
            m.total == total,
    {
        Monitor { start: now_ns(), total: total }
    }

    /// The progress after `done` rows: the part done in parts of ten
    /// thousand, and the time that is left, in nanoseconds, if the rows to
    /// come take as long as the rows done took until now. A counter that
    /// reads less than at the start counts as no time gone.
    pub fn report(&self, done: usize) -> (r: (u32, Option<u128>))
        requires
            done <= self.total,
        ensures
            exists|elapsed: u64| reads_progress(r, done as int, self.total as int, elapsed as int),
    {
        let now = now_ns();
        let elapsed: u64 = if now >= self.start {
            now - self.start
        } else {
            0
        };
        let r = progress(done, self.total, elapsed);
        assert(reads_progress(r, done as int, self.total as int, elapsed as int));
        r
    }
}

} // verus!
