//! The balanced writer: which worker is handed which record, and in what
//! order.
//!
//! Records are dealt out in turn. With `n` workers, record `i` goes to worker
//! `i % n`, and the writes are made in the order of the records, so that the
//! input streams of all workers fill side by side.

use vstd::prelude::*;
use vstd::arithmetic::div_mod::{lemma_fundamental_div_mod, lemma_fundamental_div_mod_converse};
use crate::error::Error;
use crate::text::{frame, framed, lemma_lines_of_appended_record, lines_of, plain, terminated};

verus! {

/// One write to the input stream of one worker.
#[derive(Debug)]
pub struct Write {
    /// Index of the worker, counted from zero.
    pub worker: usize,
    /// What is written: a record and its line terminator.
    pub text: String,
}

/// A `Write` with its text as a sequence of characters.
pub struct WriteView {
    pub worker: int,
    pub text: Seq<char>,
}

impl View for Write {
    type V = WriteView;

    open spec fn view(&self) -> WriteView {
        WriteView { worker: self.worker as int, text: self.text@ }
    }
}

impl DeepView for Write {
    type V = WriteView;

    open spec fn deep_view(&self) -> WriteView {
        self@
    }
}

/// The writes that deal `records` out to `workers` workers, in the order in
/// which they are made.
pub open spec fn schedule(records: Seq<Seq<char>>, workers: int) -> Seq<WriteView> {
    Seq::new(
        records.len(),
        |i: int| WriteView { worker: i % workers, text: framed(records[i]) },
    )
}

/// How many of `writes` go to `worker`.
pub open spec fn count_for(writes: Seq<WriteView>, worker: int) -> nat
    decreases writes.len(),
{
    if writes.len() == 0 {
        0
    } else {
        count_for(writes.drop_last(), worker) + if writes.last().worker == worker {
            1nat
        } else {
            0nat
        }
    }
}

/// How many of `writes` go to the workers below `bound`, taken together.
pub open spec fn count_below(writes: Seq<WriteView>, bound: nat) -> nat
    decreases bound,
{
    if bound == 0 {
        0
    } else {
        count_below(writes, (bound - 1) as nat) + count_for(writes, bound - 1)
    }
}

/// What `worker` has read from its input stream once `writes` are made.
pub open spec fn input_of(writes: Seq<WriteView>, worker: int) -> Seq<char>
    decreases writes.len(),
{
    if writes.len() == 0 {
        Seq::empty()
    } else {
        input_of(writes.drop_last(), worker) + if writes.last().worker == worker {
            writes.last().text
        } else {
            Seq::empty()
        }
    }
}

/// The records that are dealt to `worker` of `workers`, in their order.
pub open spec fn dealt(records: Seq<Seq<char>>, workers: int, worker: int) -> Seq<Seq<char>>
    decreases records.len(),
{
    if records.len() == 0 {
        Seq::empty()
    } else {
        dealt(records.drop_last(), workers, worker) + if (records.len() - 1) % workers == worker {
            seq![records.last()]
        } else {
            Seq::empty()
        }
    }
}

/// The share of `worker` when `total` records are dealt out to `workers`
/// workers: the quotient, and one more for the first `total % workers` of them.
pub open spec fn share(total: nat, workers: nat, worker: nat) -> nat {
    total / workers + if worker < total % workers {
        1nat
    } else {
        0nat
    }
}

/// Deals `records` out to a number of workers that is known not to be zero.
pub(crate) fn deal(records: &Vec<String>, workers: usize) -> (writes: Vec<Write>)
    requires
        workers > 0,
    ensures
        writes.len() == records.len(),
        forall|i: int|
            0 <= i < records.len() ==> {
                &&& (#[trigger] writes[i]).worker == i % (workers as int)
                &&& writes[i].text@ == framed(records[i]@)
            },
        writes.deep_view() == schedule(records.deep_view(), workers as int),
{
    let mut writes: Vec<Write> = Vec::new();
    let mut index: usize = 0;
    while index < records.len()
        invariant
            workers > 0,
            index <= records.len(),
            writes.len() == index,
            forall|i: int|
                0 <= i < index ==> {
                    &&& (#[trigger] writes[i]).worker == i % (workers as int)
                    &&& writes[i].text@ == framed(records[i]@)
                },
        decreases records.len() - index,
    {
        let text = frame(records[index].as_str());
        writes.push(Write { worker: index % workers, text });
        index = index + 1;
    }
    assert(writes.deep_view() =~= schedule(records.deep_view(), workers as int));
    writes
}

/// Deals `records` out to `workers` workers.
///
/// The result lists one write for each record, in the order of the records:
/// record `i` goes to worker `i % workers`. Zero workers are a configuration
/// error, whatever the records.
pub fn balance(records: &Vec<String>, workers: usize) -> (r: Result<Vec<Write>, Error>)
    ensures
        workers == 0 ==> r == Err::<Vec<Write>, Error>(Error::NoWorkers),
        workers > 0 ==> r is Ok,
        r matches Ok(writes) ==> {
            &&& writes.len() == records.len()
            &&& forall|i: int|
                0 <= i < records.len() ==> {
                    &&& (#[trigger] writes[i]).worker == i % (workers as int)
                    &&& writes[i].text@ == framed(records[i]@)
                }
            &&& writes.deep_view() == schedule(records.deep_view(), workers as int)
        },
{
    if workers == 0 {
        Err(Error::NoWorkers)
    } else {
        Ok(deal(records, workers))
    }
}

/// One more record moves the remainder up by one, or the quotient when the
/// remainder is at its highest.
proof fn lemma_div_mod_succ(total: int, workers: int)
    requires
        0 <= total,
        0 < workers,
    ensures
        total % workers == workers - 1 ==> (total + 1) / workers == total / workers + 1 && (total
            + 1) % workers == 0,
        total % workers != workers - 1 ==> (total + 1) / workers == total / workers && (total
            + 1) % workers == total % workers + 1,
{
    let q = total / workers;
    let r = total % workers;
    lemma_fundamental_div_mod(total, workers);
    assert(workers * q == q * workers) by (nonlinear_arith);
    assert(0 <= r < workers) by (nonlinear_arith)
        requires
            r == total % workers,
            0 < workers,
    ;
    if r == workers - 1 {
        assert((q + 1) * workers == q * workers + workers) by (nonlinear_arith);
        lemma_fundamental_div_mod_converse(total + 1, workers, q + 1, 0);
    } else {
        lemma_fundamental_div_mod_converse(total + 1, workers, q, r + 1);
    }
}

/// Adding a write adds one to the count of the worker it goes to, and nothing
/// to the count of any other.
proof fn lemma_count_for_push(writes: Seq<WriteView>, write: WriteView, worker: int)
    ensures
        count_for(writes.push(write), worker) == count_for(writes, worker) + if write.worker
            == worker {
            1nat
        } else {
            0nat
        },
{
    assert(writes.push(write).drop_last() =~= writes);
}

/// Adding a write to one of the workers below `bound` adds one to their
/// common count.
proof fn lemma_count_below_push(writes: Seq<WriteView>, write: WriteView, bound: nat)
    ensures
        count_below(writes.push(write), bound) == count_below(writes, bound) + if 0
            <= write.worker < bound {
            1nat
        } else {
            0nat
        },
    decreases bound,
{
    if bound > 0 {
        lemma_count_below_push(writes, write, (bound - 1) as nat);
        lemma_count_for_push(writes, write, bound - 1);
    }
}

/// Every write goes to one worker: where all of `writes` go to workers below
/// `workers`, the counts of these workers add up to the number of writes.
pub proof fn lemma_counts_add_up(writes: Seq<WriteView>, workers: nat)
    requires
        forall|i: int| 0 <= i < writes.len() ==> 0 <= (#[trigger] writes[i]).worker < workers,
    ensures
        count_below(writes, workers) == writes.len(),
    decreases writes.len(),
{
    if writes.len() == 0 {
        assert(writes =~= Seq::<WriteView>::empty());
        lemma_count_below_empty(workers);
    } else {
        let front = writes.drop_last();
        lemma_counts_add_up(front, workers);
        lemma_count_below_push(front, writes.last(), workers);
        assert(front.push(writes.last()) =~= writes);
    }
}

/// No write, no count.
proof fn lemma_count_below_empty(bound: nat)
    ensures
        count_below(Seq::<WriteView>::empty(), bound) == 0,
    decreases bound,
{
    if bound > 0 {
        lemma_count_below_empty((bound - 1) as nat);
    }
}

/// Balanced distribution: with at least one worker, record `i` goes to worker
/// `i % workers`, framed and in its place in the order of the writes.
pub proof fn lemma_record_goes_to(records: Seq<Seq<char>>, workers: nat, i: int)
    requires
        workers >= 1,
        0 <= i < records.len(),
    ensures
        schedule(records, workers as int).len() == records.len(),
        schedule(records, workers as int)[i].worker == i % (workers as int),
        0 <= schedule(records, workers as int)[i].worker < workers,
        schedule(records, workers as int)[i].text == framed(records[i]),
{
    assert(0 <= i % (workers as int) < workers) by (nonlinear_arith)
        requires
            0 <= i,
            workers >= 1,
    ;
}

/// Balanced distribution: of `records.len()` records, a worker receives the
/// quotient by the number of workers, and one more if its index is below the
/// remainder.
pub proof fn lemma_balanced_share(records: Seq<Seq<char>>, workers: nat, worker: nat)
    requires
        workers >= 1,
        worker < workers,
    ensures
        count_for(schedule(records, workers as int), worker as int) == share(
            records.len(),
            workers,
            worker,
        ),
    decreases records.len(),
{
    let n = workers as int;
    if records.len() == 0 {
        assert(0int / n == 0 && 0int % n == 0) by (nonlinear_arith)
            requires
                n >= 1,
        ;
    } else {
        let front = records.drop_last();
        let last = (records.len() - 1) as int;
        lemma_balanced_share(front, workers, worker);
        assert(schedule(records, n).drop_last() =~= schedule(front, n));
        assert(schedule(records, n).last().worker == last % n);
        lemma_div_mod_succ(last, n);
    }
}

/// Balanced distribution: the share of a worker is the number of records
/// divided by the number of workers, rounded down or up.
pub proof fn lemma_share_floor_or_ceil(total: nat, workers: nat, worker: nat)
    requires
        workers >= 1,
        worker < workers,
    ensures
        share(total, workers, worker) == total / workers || share(total, workers, worker) == (
        total + workers - 1) / (workers as int),
        total / workers <= (total + workers - 1) / (workers as int) <= total / workers + 1,
        total % workers == 0 ==> share(total, workers, worker) == total / workers,
{
    let n = workers as int;
    let t = total as int;
    let q = t / n;
    let r = t % n;
    lemma_fundamental_div_mod(t, n);
    assert(n * q == q * n) by (nonlinear_arith);
    assert(0 <= r < n) by (nonlinear_arith)
        requires
            r == t % n,
            0 < n,
    ;
    if r == 0 {
        lemma_fundamental_div_mod_converse(t + n - 1, n, q, n - 1);
    } else {
        assert((q + 1) * n == q * n + n) by (nonlinear_arith);
        lemma_fundamental_div_mod_converse(t + n - 1, n, q + 1, r - 1);
    }
}

/// Balanced distribution: the shares of all workers add up to the number of
/// records.
pub proof fn lemma_balanced_total(records: Seq<Seq<char>>, workers: nat)
    requires
        workers >= 1,
    ensures
        count_below(schedule(records, workers as int), workers) == records.len(),
{
    let writes = schedule(records, workers as int);
    assert forall|i: int| 0 <= i < writes.len() implies 0 <= (#[trigger] writes[i]).worker
        < workers by {
        lemma_record_goes_to(records, workers, i);
    }
    lemma_counts_add_up(writes, workers);
}

/// The records dealt to a worker are as many as its share, and the k-th of
/// them is the record at `worker + k * workers`: a worker is handed every
/// `workers`-th record, starting at its own index, in the order of the records.
pub proof fn lemma_dealt(records: Seq<Seq<char>>, workers: nat, worker: nat, k: int)
    requires
        workers >= 1,
        worker < workers,
    ensures
        dealt(records, workers as int, worker as int).len() == share(
            records.len(),
            workers,
            worker,
        ),
        0 <= k < share(records.len(), workers, worker) ==> {
            &&& 0 <= worker + k * workers < records.len()
            &&& dealt(records, workers as int, worker as int)[k] == records[worker + k * workers]
        },
    decreases records.len(),
{
    let n = workers as int;
    let w = worker as int;
    if records.len() == 0 {
        assert(0int / n == 0 && 0int % n == 0) by (nonlinear_arith)
            requires
                n >= 1,
        ;
    } else {
        let front = records.drop_last();
        let last = (records.len() - 1) as int;
        lemma_dealt(front, workers, worker, k);
        lemma_div_mod_succ(last, n);
        lemma_fundamental_div_mod(last, n);
        let before = share(front.len(), workers, worker) as int;
        if last % n == w && k == before {
            assert(before == last / n);
            assert(n * (last / n) == k * n) by (nonlinear_arith)
                requires
                    k == last / n,
            ;
            assert(w + k * n == last);
        }
    }
}

/// What a worker reads is its records, one on each line: the lines of its
/// input stream are the records dealt to it, in their order, provided that no
/// record holds a line feed or ends in a carriage return.
pub proof fn lemma_worker_reads_its_records(
    records: Seq<Seq<char>>,
    workers: nat,
    worker: nat,
)
    requires
        workers >= 1,
        worker < workers,
        forall|i: int| 0 <= i < records.len() ==> plain(#[trigger] records[i]),
    ensures
        terminated(input_of(schedule(records, workers as int), worker as int)),
        lines_of(input_of(schedule(records, workers as int), worker as int)) == dealt(
            records,
            workers as int,
            worker as int,
        ),
    decreases records.len(),
{
    let n = workers as int;
    let w = worker as int;
    if records.len() > 0 {
        let front = records.drop_last();
        lemma_worker_reads_its_records(front, workers, worker);
        assert(schedule(records, n).drop_last() =~= schedule(front, n));
        let read = input_of(schedule(front, n), w);
        if (records.len() - 1) % n == w {
            lemma_lines_of_appended_record(read, records.last());
            assert(lines_of(read) + seq![records.last()] =~= lines_of(read).push(records.last()));
        } else {
            assert(read + Seq::<char>::empty() =~= read);
            assert(dealt(front, n, w) + Seq::<Seq<char>>::empty() =~= dealt(front, n, w));
        }
    }
}

} // verus!
