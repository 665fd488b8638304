//! The book-keeping of a pool of render workers: which worker gets which
//! pixel, and how many results each still owes.

use vstd::prelude::*;
use vstd::arithmetic::div_mod::{lemma_fundamental_div_mod, lemma_fundamental_div_mod_converse, lemma_small_mod};
use crate::vector::Vec3;

verus! {

/// A job for a worker: one pixel of a frame to render, or the word to stop.
#[derive(Clone, Copy, Debug, PartialEq, Eq, Structural)]
pub struct ControlPacket {
    /// The pixel's row.
    pub row: u32,
    /// The pixel's column.
    pub col: u32,
    /// Whether the worker is to stop.
    pub done: bool,
    /// How many samples to take of the pixel.
    pub samples: u32,
    /// The width of the frame.
    pub image_width: u32,
    /// The height of the frame.
    pub image_height: u32,
    /// How often a ray may bounce.
    pub max_depth: i32,
}

impl ControlPacket {
    /// The job to render the pixel at `row` and `col`.
    pub fn new(row: u32, col: u32, samples: u32, image_width: u32, image_height: u32, max_depth: i32) -> (p: Self)
        ensures
            p == (ControlPacket { row, col, done: false, samples, image_width, image_height, max_depth }),
    {
        Self { row, col, done: false, samples, image_width, image_height, max_depth }
    }

    /// The word to stop.
    pub fn done() -> (p: Self)
        ensures
            p == (ControlPacket {
                row: 0,
                col: 0,
                done: true,
                samples: 0,
                image_width: 0,
                image_height: 0,
                max_depth: 0,
            }),
    {
        Self { row: 0, col: 0, done: true, samples: 0, image_width: 0, image_height: 0, max_depth: 0 }
    }
}

/// A worker's result: the summed samples of one pixel.
#[derive(Clone, Copy, Debug)]
pub struct DataPacket {
    /// The pixel's row.
    pub row: u32,
    /// The pixel's column.
    pub col: u32,
    /// The sum of the samples taken.
    pub color: Vec3,
}

impl DataPacket {
    /// The result `color` for the pixel at `row` and `col`.
    pub fn new(row: u32, col: u32, color: Vec3) -> (p: Self)
        ensures
            p == (DataPacket { row, col, color }),
    {
        Self { row, col, color }
    }

    /// What a worker sends back for the job `job`, of which it has summed
    /// the samples to `color`: a result for the same pixel, and nothing for
    /// the word to stop.
    pub fn answer(job: &ControlPacket, color: Vec3) -> (r: Option<DataPacket>)
        ensures
            r == if job.done {
                None
            } else {
                Some(DataPacket { row: job.row, col: job.col, color })
            },
    {
        if job.done {
            None
        } else {
            Some(DataPacket::new(job.row, job.col, color))
        }
    }
}

/// What the pool keeps of one worker.
#[derive(Clone, Copy, Debug)]
pub struct Thread {
    /// How many results the worker still owes.
    pub packets_sent: usize,
}

/// A job together with the worker that is to get it.
#[derive(Clone, Copy, Debug)]
pub struct Dispatch {
    /// The worker, by its place in the pool.
    pub worker: usize,
    /// The job.
    pub packet: ControlPacket,
}

/// The worker that gets the job number `k`, where job number 0 goes to the
/// worker `first` of `n` and the jobs go round.
pub open spec fn worker_of(n: int, first: int, k: int) -> int {
    (first + k) % n
}

/// How many of the first `total` jobs go to `worker`.
pub open spec fn share(n: int, first: int, total: nat, worker: int) -> nat
    decreases total,
{
    if total == 0 {
        0
    } else {
        share(n, first, (total - 1) as nat, worker) + if worker_of(n, first, total - 1) == worker {
            1nat
        } else {
            0nat
        }
    }
}

/// How many of the first `total` jobs go to the first `workers` workers.
pub open spec fn shares(n: int, first: int, total: nat, workers: nat) -> nat
    decreases workers,
{
    if workers == 0 {
        0
    } else {
        shares(n, first, total, (workers - 1) as nat) + share(n, first, total, workers - 1)
    }
}

/// The sum of the counts.
pub open spec fn sum(counts: Seq<nat>) -> nat
    decreases counts.len(),
{
    if counts.len() == 0 {
        0
    } else {
        sum(counts.drop_last()) + counts.last()
    }
}

/// The job number `k` of a frame that is `width` pixels wide: the pixels go
/// row by row.
pub open spec fn frame_job(k: int, samples: u32, width: u32, height: u32, max_depth: i32) -> ControlPacket {
    ControlPacket {
        row: cell_of(k, width as int).0 as u32,
        col: cell_of(k, width as int).1 as u32,
        done: false,
        samples,
        image_width: width,
        image_height: height,
        max_depth,
    }
}

/// After `x` steps round `n` places comes the next place, or the first
/// again after the last.
pub proof fn lemma_next_turn(x: int, n: int)
    requires
        0 <= x,
        0 < n,
    ensures
        0 <= x % n < n,
        (x + 1) % n == if x % n + 1 >= n {
            0
        } else {
            x % n + 1
        },
{
    lemma_fundamental_div_mod(x, n);
    let q = x / n;
    let r = x % n;
    assert(0 <= r < n) by (nonlinear_arith)
        requires
            r == x % n,
            0 < n,
    ;
    if r + 1 >= n {
        assert(x + 1 == (q + 1) * n + 0) by (nonlinear_arith)
            requires
                x == n * q + r,
                r + 1 == n,
        ;
        lemma_fundamental_div_mod_converse(x + 1, n, q + 1, 0);
    } else {
        assert(x + 1 == q * n + (r + 1)) by (nonlinear_arith)
            requires
                x == n * q + r,
        ;
        lemma_fundamental_div_mod_converse(x + 1, n, q, r + 1);
    }
}

/// One more job raises the shares of the first `workers` workers by one
/// where the job's worker is among them, and leaves them elsewhere.
proof fn lemma_shares_step(n: int, first: int, total: nat, workers: nat)
    requires
        total > 0,
    ensures
        shares(n, first, total, workers) == shares(n, first, (total - 1) as nat, workers) + if 0 <= worker_of(
            n,
            first,
            total - 1,
        ) < workers {
            1nat
        } else {
            0nat
        },
    decreases workers,
{
    if workers > 0 {
        lemma_shares_step(n, first, total, (workers - 1) as nat);
    }
}

/// Every job goes to exactly one worker: the shares of all the workers add
/// up to the number of jobs.
pub proof fn lemma_shares_add_up(n: nat, first: nat, total: nat)
    requires
        n > 0,
    ensures
        shares(n as int, first as int, total, n) == total,
    decreases total,
{
    if total == 0 {
        lemma_no_jobs_no_shares(n as int, first as int, n);
    } else {
        lemma_shares_add_up(n, first, (total - 1) as nat);
        lemma_shares_step(n as int, first as int, total, n);
        lemma_next_turn(first + total - 1, n as int);
    }
}

proof fn lemma_no_jobs_no_shares(n: int, first: int, workers: nat)
    ensures
        shares(n, first, 0, workers) == 0,
    decreases workers,
{
    if workers > 0 {
        lemma_no_jobs_no_shares(n, first, (workers - 1) as nat);
    }
}

/// The row and the column of the pixel that the job number `k` renders.
pub open spec fn cell_of(k: int, width: int) -> (int, int) {
    (k / width, k % width)
}

/// The number of the job that renders the pixel at `row` and `col`.
pub open spec fn job_at(row: int, col: int, width: int) -> int {
    row * width + col
}

/// Row by row, the jobs of a frame name every pixel exactly once: each job
/// renders a pixel of the frame, each pixel of the frame has a job, and
/// the job of the pixel that a job renders is that job again, as the pixel
/// of a pixel's job is that pixel.
pub proof fn lemma_frame_covers_grid(width: nat, height: nat)
    requires
        width > 0,
    ensures
        forall|k: int|
            0 <= k < width * height ==> {
                let cell = #[trigger] cell_of(k, width as int);
                0 <= cell.0 < height && 0 <= cell.1 < width && job_at(cell.0, cell.1, width as int) == k
            },
        forall|row: int, col: int|
            0 <= row < height && 0 <= col < width ==> {
                let k = #[trigger] job_at(row, col, width as int);
                0 <= k < width * height && cell_of(k, width as int) == (row, col)
            },
{
    let w = width as int;
    assert forall|k: int| 0 <= k < width * height implies {
        let cell = #[trigger] cell_of(k, w);
        0 <= cell.0 < height && 0 <= cell.1 < width && job_at(cell.0, cell.1, w) == k
    } by {
        lemma_cell_of_job(k, w, height as int);
    }
    assert forall|row: int, col: int| 0 <= row < height && 0 <= col < width implies {
        let k = #[trigger] job_at(row, col, w);
        0 <= k < width * height && cell_of(k, w) == (row, col)
    } by {
        lemma_fundamental_div_mod_converse(row * w + col, w, row, col);
        assert(row * w + col < w * height) by (nonlinear_arith)
            requires
                0 <= row < height,
                0 <= col < w,
        ;
        assert(0 <= row * w + col) by (nonlinear_arith)
            requires
                0 <= row,
                0 <= col,
                0 < w,
        ;
    }
}

/// A frame given out to a pool comes back whole. Every job goes to one
/// worker, so that the workers together owe as many results as the frame
/// has pixels; and the jobs name every pixel of the frame exactly once.
pub proof fn lemma_frame_comes_back_whole(workers: nat, first: nat, width: nat, height: nat)
    requires
        workers > 0,
        width > 0,
    ensures
        shares(workers as int, first as int, width * height, workers) == width * height,
        forall|k: int|
            0 <= k < width * height ==> {
                let cell = #[trigger] cell_of(k, width as int);
                0 <= cell.0 < height && 0 <= cell.1 < width && job_at(cell.0, cell.1, width as int) == k
            },
        forall|row: int, col: int|
            0 <= row < height && 0 <= col < width ==> {
                let k = #[trigger] job_at(row, col, width as int);
                0 <= k < width * height && cell_of(k, width as int) == (row, col)
            },
{
    lemma_shares_add_up(workers, first, width * height);
    lemma_frame_covers_grid(width, height);
}

proof fn lemma_cell_of_job(k: int, w: int, h: int)
    requires
        0 < w,
        0 <= k < w * h,
    ensures
        0 <= k / w < h,
        0 <= k % w < w,
        k == (k / w) * w + k % w,
{
    lemma_fundamental_div_mod(k, w);
    let q = k / w;
    let r = k % w;
    assert(0 <= r < w) by (nonlinear_arith)
        requires
            r == k % w,
            0 < w,
    ;
    assert(0 <= q < h) by (nonlinear_arith)
        requires
            k == w * q + r,
            0 <= r < w,
            0 <= k < w * h,
            0 < w,
    ;
    assert(w * q == q * w) by (nonlinear_arith);
}

proof fn lemma_sum_update(counts: Seq<nat>, i: int, v: nat)
    requires
        0 <= i < counts.len(),
    ensures
        sum(counts.update(i, v)) + counts[i] == sum(counts) + v,
    decreases counts.len(),
{
    let after = counts.update(i, v);
    if i == counts.len() - 1 {
        assert(after.drop_last() == counts.drop_last());
    } else {
        assert(after.drop_last() == counts.drop_last().update(i, v));
        lemma_sum_update(counts.drop_last(), i, v);
    }
}

proof fn lemma_sum_zero(counts: Seq<nat>)
    requires
        forall|i: int| 0 <= i < counts.len() ==> counts[i] == 0,
    ensures
        sum(counts) == 0,
    decreases counts.len(),
{
    if counts.len() > 0 {
        lemma_sum_zero(counts.drop_last());
    }
}

/// A pool of render workers, as its dispatcher sees it: for each worker
/// the number of results it still owes, and the worker whose turn it is.
pub struct ThreadPool {
    threads: Vec<Thread>,
    next: usize,
}

impl ThreadPool {
    /// A pool has at least one worker, and its turn is on one of them.
    /// Every pool that `new` makes is well formed, and stays so.
    pub closed spec fn well_formed(&self) -> bool {
        self.threads@.len() > 0 && self.next < self.threads@.len()
    }

    /// For each worker the number of results it still owes.
    pub closed spec fn counts(&self) -> Seq<nat> {
        Seq::new(self.threads@.len(), |i: int| self.threads@[i].packets_sent as nat)
    }

    /// The worker that gets the next job.
    pub closed spec fn turn(&self) -> nat {
        self.next as nat
    }

    /// How many results the pool is still owed in all.
    pub open spec fn outstanding(&self) -> nat {
        sum(self.counts())
    }

    /// A pool of `num_threads` workers that owe nothing, the first of them
    /// to get the first job.
    pub fn new(num_threads: usize) -> (pool: Self)
        requires
            num_threads > 0,
        ensures
            pool.well_formed(),
            pool.counts() == Seq::new(num_threads as nat, |i: int| 0nat),
            pool.turn() == 0,
            pool.outstanding() == 0,
    {
        let mut threads: Vec<Thread> = Vec::with_capacity(num_threads);
        let mut i: usize = 0;
        while i < num_threads
            invariant
                i <= num_threads,
                threads@.len() == i,
                forall|k: int| 0 <= k < i ==> threads@[k].packets_sent == 0,
            decreases num_threads - i,
        {
            threads.push(Thread { packets_sent: 0 });
            i += 1;
        }
        let pool = Self { threads, next: 0 };
        assert(pool.counts() =~= Seq::new(num_threads as nat, |i: int| 0nat));
        proof {
            lemma_sum_zero(pool.counts());
        }
        pool
    }

    /// The number of workers: at least one.
    pub fn workers(&self) -> (n: usize)
        requires
            self.well_formed(),
        ensures
            n == self.counts().len(),
            n > 0,
            self.turn() < n,
    {
        self.threads.len()
    }

    /// The worker that gets the next job.
    pub fn next(&self) -> (w: usize)
        ensures
            w == self.turn(),
    {
        self.next
    }

    /// How many results the given worker still owes; nothing for a worker
    /// that the pool does not have.
    pub fn packets_sent(&self, worker: usize) -> (c: usize)
        ensures
            worker < self.counts().len() ==> c == self.counts()[worker as int],
            worker >= self.counts().len() ==> c == 0,
    {
        if worker < self.threads.len() {
            self.threads[worker].packets_sent
        } else {
            0
        }
    }

    /// Gives the job `control` to the worker whose turn it is, who then
    /// owes one result more; the turn passes to the next worker, and from
    /// the last to the first.
    pub fn run(&mut self, control: ControlPacket) -> (d: Dispatch)
        requires
            old(self).well_formed(),
            old(self).counts()[old(self).turn() as int] < usize::MAX,
        ensures
            final(self).well_formed(),
            d.packet == control,
            d.worker == old(self).turn(),
            d.worker < old(self).counts().len(),
            final(self).counts() == old(self).counts().update(
                d.worker as int,
                old(self).counts()[d.worker as int] + 1,
            ),
            final(self).turn() == worker_of(old(self).counts().len() as int, old(self).turn() as int, 1),
            final(self).outstanding() == old(self).outstanding() + 1,
    {
        proof {
            lemma_next_turn(self.next as int, self.threads@.len() as int);
            lemma_small_mod(self.next as nat, self.threads@.len());
            lemma_sum_update(self.counts(), self.next as int, self.counts()[self.next as int] + 1);
        }
        let worker: usize = self.next;
        let n: usize = self.threads.len();
        let sent: usize = self.threads[worker].packets_sent;
        self.threads[worker] = Thread { packets_sent: sent + 1 };
        assert(self.threads@ == old(self).threads@.update(worker as int, Thread { packets_sent: (sent + 1) as usize }));
        assert(self.next == old(self).next);
        self.next = worker + 1;
        if self.next >= n {
            self.next = 0;
        }
        assert(self.counts() =~= old(self).counts().update(worker as int, old(self).counts()[worker as int] + 1));
        Dispatch { worker, packet: control }
    }

    /// Gives the job to render the pixel at `row` and `col` to the worker
    /// whose turn it is.
    pub fn run_c(&mut self, row: u32, col: u32, samples: u32, image_width: u32, image_height: u32, max_depth: i32) -> (d: Dispatch)
        requires
            old(self).well_formed(),
            old(self).counts()[old(self).turn() as int] < usize::MAX,
        ensures
            final(self).well_formed(),
            d.packet == (ControlPacket { row, col, done: false, samples, image_width, image_height, max_depth }),
            d.worker == old(self).turn(),
            d.worker < old(self).counts().len(),
            final(self).counts() == old(self).counts().update(
                d.worker as int,
                old(self).counts()[d.worker as int] + 1,
            ),
            final(self).turn() == worker_of(old(self).counts().len() as int, old(self).turn() as int, 1),
            final(self).outstanding() == old(self).outstanding() + 1,
    {
        let cp = ControlPacket::new(row, col, samples, image_width, image_height, max_depth);
        self.run(cp)
    }

    /// The words to stop, one for each worker in order: what is sent when
    /// the pool is given up, after every job.
    pub fn shutdown(&self) -> (stops: Vec<Dispatch>)
        requires
            self.well_formed(),
        ensures
            stops@.len() == self.counts().len(),
            forall|w: int|
                0 <= w < stops@.len() ==> (#[trigger] stops@[w]).worker == w && stops@[w].packet == (ControlPacket {
                    row: 0,
                    col: 0,
                    done: true,
                    samples: 0,
                    image_width: 0,
                    image_height: 0,
                    max_depth: 0,
                }),
    {
        let mut stops: Vec<Dispatch> = Vec::new();
        let mut w: usize = 0;
        while w < self.threads.len()
            invariant
                w <= self.threads@.len(),
                stops@.len() == w,
                forall|k: int|
                    0 <= k < w ==> (#[trigger] stops@[k]).worker == k && stops@[k].packet == (ControlPacket {
                        row: 0,
                        col: 0,
                        done: true,
                        samples: 0,
                        image_width: 0,
                        image_height: 0,
                        max_depth: 0,
                    }),
            decreases self.threads@.len() - w,
        {
            stops.push(Dispatch { worker: w, packet: ControlPacket::done() });
            w += 1;
        }
        stops
    }

    /// Takes one result off what the workers owe: from the first worker
    /// that still owes any. Says which worker that is, or that none owes
    /// anything.
    pub fn drain(&mut self) -> (r: Option<usize>)
        requires
            old(self).well_formed(),
        ensures
            final(self).well_formed(),
            final(self).turn() == old(self).turn(),
            match r {
                Some(worker) => {
                    &&& worker < old(self).counts().len()
                    &&& old(self).counts()[worker as int] > 0
                    &&& forall|j: int| 0 <= j < worker ==> old(self).counts()[j] == 0
                    &&& final(self).counts() == old(self).counts().update(
                        worker as int,
                        (old(self).counts()[worker as int] - 1) as nat,
                    )
                    &&& final(self).outstanding() + 1 == old(self).outstanding()
                },
                None => {
                    &&& forall|j: int| 0 <= j < old(self).counts().len() ==> old(self).counts()[j] == 0
                    &&& final(self).counts() == old(self).counts()
                    &&& old(self).outstanding() == 0
                },
            },
    {
        let mut i: usize = 0;
        while i < self.threads.len()
            invariant
                i <= self.threads@.len(),
                self.threads@ == old(self).threads@,
                self.next == old(self).next,
                self.well_formed(),
                forall|j: int| 0 <= j < i ==> self.threads@[j].packets_sent == 0,
            decreases self.threads@.len() - i,
        {
            let sent: usize = self.threads[i].packets_sent;
            if sent > 0 {
                proof {
                    lemma_sum_update(self.counts(), i as int, (sent - 1) as nat);
                }
                self.threads[i] = Thread { packets_sent: sent - 1 };
                assert(self.threads@ == old(self).threads@.update(i as int, Thread { packets_sent: (sent - 1) as usize }));
                assert(self.counts() =~= old(self).counts().update(i as int, (sent - 1) as nat));
                return Some(i);
            }
            i += 1;
        }
        proof {
            assert forall|j: int| 0 <= j < self.counts().len() implies self.counts()[j] == 0 by {}
            lemma_sum_zero(self.counts());
        }
        None
    }
}

/// Hands out the jobs of one frame, row by row and within each row column
/// by column, to the workers in turn. The result names for each job the
/// worker that is to get it, in the order in which the jobs are to be sent.
pub fn schedule_frame(pool: &mut ThreadPool, samples: u32, image_width: u32, image_height: u32, max_depth: i32) -> (jobs: Vec<Dispatch>)
    requires
        old(pool).well_formed(),
        image_width * image_height <= u32::MAX,
        forall|w: int| 0 <= w < old(pool).counts().len() ==> old(pool).counts()[w] + image_width * image_height <= usize::MAX,
    ensures
        final(pool).well_formed(),
        jobs@.len() == image_width * image_height,
        forall|k: int|
            0 <= k < jobs@.len() ==> (#[trigger] jobs@[k]).packet == frame_job(k, samples, image_width, image_height, max_depth)
                && jobs@[k].worker == worker_of(old(pool).counts().len() as int, old(pool).turn() as int, k),
        final(pool).counts().len() == old(pool).counts().len(),
        forall|w: int|
            0 <= w < old(pool).counts().len() ==> #[trigger] final(pool).counts()[w] == old(pool).counts()[w] + share(
                old(pool).counts().len() as int,
                old(pool).turn() as int,
                (image_width * image_height) as nat,
                w,
            ),
        final(pool).turn() == worker_of(
            old(pool).counts().len() as int,
            old(pool).turn() as int,
            image_width * image_height,
        ),
        final(pool).outstanding() == old(pool).outstanding() + image_width * image_height,
{
    let ghost n = pool.counts().len() as int;
    let ghost first = pool.turn() as int;
    let ghost total = image_width * image_height;
    let mut jobs: Vec<Dispatch> = Vec::new();
    proof {
        lemma_small_mod(first as nat, n as nat);
    }
    let mut j: u32 = 0;
    while j < image_height
        invariant
            j <= image_height,
            n == old(pool).counts().len(),
            first == old(pool).turn(),
            total == image_width * image_height,
            total <= u32::MAX,
            pool.well_formed(),
            pool.counts().len() == n,
            jobs@.len() == j * image_width,
            j * image_width <= total,
            forall|k: int|
                0 <= k < jobs@.len() ==> (#[trigger] jobs@[k]).packet == frame_job(k, samples, image_width, image_height, max_depth)
                    && jobs@[k].worker == worker_of(n, first, k),
            forall|w: int|
                0 <= w < n ==> #[trigger] pool.counts()[w] == old(pool).counts()[w] + share(
                    n,
                    first,
                    jobs@.len(),
                    w,
                ),
            forall|w: int| 0 <= w < n ==> old(pool).counts()[w] + total <= usize::MAX,
            pool.turn() == worker_of(n, first, jobs@.len() as int),
            pool.outstanding() == old(pool).outstanding() + jobs@.len(),
        decreases image_height - j,
    {
        let mut i: u32 = 0;
        while i < image_width
            invariant
                j < image_height,
                i <= image_width,
                n == old(pool).counts().len(),
                first == old(pool).turn(),
                total == image_width * image_height,
                total <= u32::MAX,
                pool.well_formed(),
                pool.counts().len() == n,
                jobs@.len() == j * image_width + i,
                forall|k: int|
                    0 <= k < jobs@.len() ==> (#[trigger] jobs@[k]).packet == frame_job(
                        k,
                        samples,
                        image_width,
                        image_height,
                        max_depth,
                    ) && jobs@[k].worker == worker_of(n, first, k),
                forall|w: int|
                    0 <= w < n ==> #[trigger] pool.counts()[w] == old(pool).counts()[w] + share(
                        n,
                        first,
                        jobs@.len(),
                        w,
                    ),
                forall|w: int| 0 <= w < n ==> old(pool).counts()[w] + total <= usize::MAX,
                pool.turn() == worker_of(n, first, jobs@.len() as int),
                pool.outstanding() == old(pool).outstanding() + jobs@.len(),
            decreases image_width - i,
        {
            let ghost k = jobs@.len() as int;
            let ghost before = pool.counts();
            proof {
                assert(k < total) by (nonlinear_arith)
                    requires
                        k == j * image_width + i,
                        i < image_width,
                        j < image_height,
                        total == image_width * image_height,
                ;
                lemma_share_bound(n, first, k as nat, pool.turn() as int);
                lemma_next_turn(first + k, n);
                lemma_next_turn(pool.turn() as int, n);
                lemma_small_mod(pool.turn(), n as nat);
                lemma_fundamental_div_mod_converse(k, image_width as int, j as int, i as int);
            }
            let d = pool.run_c(j, i, samples, image_width, image_height, max_depth);
            jobs.push(d);
            proof {
                assert forall|w: int| 0 <= w < n implies #[trigger] pool.counts()[w] == old(pool).counts()[w] + share(
                    n,
                    first,
                    (k + 1) as nat,
                    w,
                ) by {
                    assert(before[w] == old(pool).counts()[w] + share(n, first, k as nat, w));
                }
            }
            i += 1;
        }
        proof {
            assert((j + 1) * image_width == j * image_width + image_width) by (nonlinear_arith);
            assert((j + 1) * image_width <= total) by (nonlinear_arith)
                requires
                    j < image_height,
                    total == image_width * image_height,
            ;
        }
        j += 1;
    }
    proof {
        assert(jobs@.len() == total) by (nonlinear_arith)
            requires
                jobs@.len() == j * image_width,
                j == image_height,
                total == image_width * image_height,
        ;
    }
    jobs
}

/// A worker's share of the first `total` jobs is at most `total`.
pub proof fn lemma_share_bound(n: int, first: int, total: nat, worker: int)
    ensures
        share(n, first, total, worker) <= total,
    decreases total,
{
    if total > 0 {
        lemma_share_bound(n, first, (total - 1) as nat, worker);
    }
}

/// The count of the results gathered, and of those still to come before
/// the next report of progress is due.
#[derive(Clone, Copy, Debug)]
pub struct Progress {
    pixels_remaining: i32,
    pixels_written: i32,
    pixel_update: i32,
}

impl Progress {
    /// How many results have been gathered.
    pub closed spec fn written(&self) -> int {
        self.pixels_written as int
    }

    /// How many results are still to come before a report is due; a report
    /// is due with the next result where this is not above zero.
    pub closed spec fn remaining(&self) -> int {
        self.pixels_remaining as int
    }

    /// After how many results a report is due again.
    pub closed spec fn every(&self) -> int {
        self.pixel_update as int
    }

    /// A count that reports with the first result and then after every
    /// `pixel_update` results.
    pub fn new(pixel_update: i32) -> (p: Self)
        ensures
            p.written() == 0,
            p.remaining() == 0,
            p.every() == pixel_update,
    {
        Self { pixels_remaining: 0, pixels_written: 0, pixel_update }
    }

    /// How many results have been gathered.
    pub fn pixels_written(&self) -> (n: i32)
        ensures
            n == self.written(),
    {
        self.pixels_written
    }

    /// Counts one result, and says whether progress is to be reported
    /// before it: the number of results gathered so far, if so.
    pub fn tick(&mut self) -> (report: Option<i32>)
        requires
            old(self).written() < i32::MAX,
            old(self).every() > i32::MIN,
        ensures
            report == if old(self).remaining() <= 0 {
                Some(old(self).written() as i32)
            } else {
                None
            },
            final(self).written() == old(self).written() + 1,
            final(self).every() == old(self).every(),
            final(self).remaining() == if old(self).remaining() <= 0 {
                old(self).every() - 1
            } else {
                old(self).remaining() - 1
            },
    {
        let mut report: Option<i32> = None;
        if self.pixels_remaining <= 0 {
            report = Some(self.pixels_written);
            self.pixels_remaining = self.pixel_update;
        }
        self.pixels_remaining = self.pixels_remaining - 1;
        self.pixels_written = self.pixels_written + 1;
        report
    }
}

} // verus!
