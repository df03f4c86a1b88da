//! The parallel configuration: several mapper workers, one reducer worker,
//! results kept in files.

use vstd::prelude::*;
use crate::error::Error;
use crate::files::{read, FileRead, FileWrite, FileWriteView};
use crate::phase::Phase;
use crate::runner::{plan_script, plan_sort, run_script, script_plan, sort_plan, Plan};

verus! {

/// A pipeline that maps in several workers at once and keeps the result of
/// each phase in a file of its own. The current phase says which file holds
/// the latest result.
#[derive(Debug)]
pub struct Parallel {
    mapper_out: String,
    sorter_out: String,
    reducer_out: String,
    mapper: String,
    reducer: String,
    cores: usize,
    phase: Phase,
}

/// A `Parallel` with its texts as sequences of characters.
pub struct ParallelView {
    pub mapper_out: Seq<char>,
    pub sorter_out: Seq<char>,
    pub reducer_out: Seq<char>,
    pub mapper: Seq<char>,
    pub reducer: Seq<char>,
    pub cores: nat,
    pub phase: Phase,
}

impl View for Parallel {
    type V = ParallelView;

    closed spec fn view(&self) -> ParallelView {
        ParallelView {
            mapper_out: self.mapper_out@,
            sorter_out: self.sorter_out@,
            reducer_out: self.reducer_out@,
            mapper: self.mapper@,
            reducer: self.reducer@,
            cores: self.cores as nat,
            phase: self.phase,
        }
    }
}

/// Name of the file that holds the sorter's output where none was chosen.
pub open spec fn default_sorter_out() -> Seq<char> {
    "sorter_out"@
}

/// What is appended to the name of a script to name the file that holds its
/// output, where none was chosen.
pub open spec fn out_suffix() -> Seq<char> {
    ".out"@
}

impl ParallelView {
    /// A store with the given files and scripts, in phase `Idle`.
    pub open spec fn fresh(
        mapper_out: Seq<char>,
        sorter_out: Seq<char>,
        reducer_out: Seq<char>,
        mapper: Seq<char>,
        reducer: Seq<char>,
        cores: nat,
    ) -> ParallelView {
        ParallelView {
            mapper_out,
            sorter_out,
            reducer_out,
            mapper,
            reducer,
            cores,
            phase: Phase::Idle,
        }
    }

    /// The file that holds the result of `phase`. `Idle` has none.
    pub open spec fn target(self, phase: Phase) -> Option<Seq<char>> {
        match phase {
            Phase::Idle => None,
            Phase::Mapped => Some(self.mapper_out),
            Phase::Sorted => Some(self.sorter_out),
            Phase::Reduced => Some(self.reducer_out),
        }
    }

    /// The store after a call of `store`: the phase has moved one step.
    pub open spec fn advanced(self) -> ParallelView {
        ParallelView { phase: self.phase.next(), ..self }
    }

    /// The write that storing `data` asks for: `data` replaces the content of
    /// the file of the phase that follows the current one.
    pub open spec fn store(self, data: Seq<char>) -> FileWriteView {
        FileWriteView { path: self.target(self.phase.next())->0, text: data }
    }

    /// What loading asks for: the file of the current phase.
    pub open spec fn load(self) -> Result<Seq<char>, Error> {
        match self.target(self.phase) {
            Some(path) => Ok(path),
            None => Err(Error::NothingStored),
        }
    }

    /// The store after `count` calls of `store`.
    pub open spec fn advanced_by(self, count: nat) -> ParallelView
        decreases count,
    {
        if count == 0 {
            self
        } else {
            self.advanced_by((count - 1) as nat).advanced()
        }
    }
}

impl Parallel {
    /// A pipeline that runs the scripts `mapper` and `reducer`, the mapper in
    /// `cores` workers, and keeps the results of the three phases in the
    /// files named.
    pub fn new(
        mapper_out: &str,
        sorter_out: &str,
        reducer_out: &str,
        mapper: &str,
        reducer: &str,
        cores: usize,
    ) -> (r: Parallel)
        ensures
            r@ == ParallelView::fresh(
                mapper_out@,
                sorter_out@,
                reducer_out@,
                mapper@,
                reducer@,
                cores as nat,
            ),
    {
        Parallel {
            mapper_out: String::from_str(mapper_out),
            sorter_out: String::from_str(sorter_out),
            reducer_out: String::from_str(reducer_out),
            mapper: String::from_str(mapper),
            reducer: String::from_str(reducer),
            cores,
            phase: Phase::Idle,
        }
    }

    /// As `new`, with the files named after the scripts: the output of a
    /// script goes to the file of its name with `.out` appended, that of the
    /// sorter to `sorter_out`.
    pub fn with_default_files(mapper: &str, reducer: &str, cores: usize) -> (r: Parallel)
        ensures
            r@ == ParallelView::fresh(
                mapper@ + out_suffix(),
                default_sorter_out(),
                reducer@ + out_suffix(),
                mapper@,
                reducer@,
                cores as nat,
            ),
    {
        Parallel {
            sorter_out: String::from_str("sorter_out"),
            mapper_out: String::from_str(mapper).concat(".out"),
            reducer_out: String::from_str(reducer).concat(".out"),
            mapper: String::from_str(mapper),
            reducer: String::from_str(reducer),
            cores,
            phase: Phase::Idle,
        }
    }

    /// Plans the map phase: the records are dealt out to as many workers as
    /// the pipeline has cores, each running the mapper.
    ///
    /// Fails with `NoWorkers` if the pipeline has no core, and only then.
    pub fn map(&self, records: &Vec<String>) -> (r: Result<Plan, Error>)
        ensures
            self@.cores == 0 ==> r == Err::<Plan, Error>(Error::NoWorkers),
            self@.cores > 0 ==> r is Ok,
            r matches Ok(plan) ==> plan@ == script_plan(
                self@.mapper,
                self@.cores,
                records.deep_view(),
            ),
    {
        plan_script(self.mapper.as_str(), self.cores, records)
    }

    /// Plans the sort phase: the sorter reads all records.
    pub fn sort(&self, records: &Vec<String>) -> (plan: Plan)
        ensures
            plan@ == sort_plan(records.deep_view()),
    {
        plan_sort(records)
    }

    /// Plans the reduce phase: one worker runs the reducer on all records.
    pub fn reduce(&self, records: &Vec<String>) -> (plan: Plan)
        ensures
            plan@ == script_plan(self@.reducer, 1, records.deep_view()),
    {
        run_script(self.reducer.as_str(), 1, records)
    }

    /// Moves to the next phase and asks for `data` to be written to its file.
    pub fn store(&mut self, data: &str) -> (write: FileWrite)
        ensures
            final(self)@ == old(self)@.advanced(),
            write@ == old(self)@.store(data@),
            final(self)@.load() == Ok::<Seq<char>, Error>(write@.path),
    {
        self.phase = self.phase.advance();
        let path = match self.phase {
            Phase::Mapped => self.mapper_out.clone(),
            Phase::Sorted => self.sorter_out.clone(),
            _ => self.reducer_out.clone(),
        };
        FileWrite { path, text: String::from_str(data) }
    }

    /// Asks for the file of the current phase to be read.
    ///
    /// Fails with `NothingStored` if nothing was stored yet, and only then.
    pub fn load(&self) -> (r: Result<FileRead, Error>)
        ensures
            match r {
                Ok(request) => self@.load() == Ok::<Seq<char>, Error>(request@),
                Err(e) => self@.load() == Err::<Seq<char>, Error>(e),
            },
            r is Err <==> self@.phase == Phase::Idle,
    {
        match self.phase {
            Phase::Idle => Err(Error::NothingStored),
            Phase::Mapped => Ok(FileRead { path: self.mapper_out.clone() }),
            Phase::Sorted => Ok(FileRead { path: self.sorter_out.clone() }),
            Phase::Reduced => Ok(FileRead { path: self.reducer_out.clone() }),
        }
    }

    /// The phase whose result was stored last, `Idle` if none was.
    pub fn phase(&self) -> (r: Phase)
        ensures
            r == self@.phase,
    {
        self.phase
    }
}

/// Round trip: the file that a load asks for after a store is the file that
/// the store had written, and it holds what was stored.
pub proof fn lemma_parallel_round_trip(
    store: ParallelView,
    data: Seq<char>,
    disk: Map<Seq<char>, Seq<char>>,
)
    ensures
        store.advanced().load() == Ok::<Seq<char>, Error>(store.store(data).path),
        read(store.store(data).apply(disk), store.advanced().load()->Ok_0) == Some(data),
{
}

/// Every store moves the phase one step forward, never back, and away from
/// `Idle`.
pub proof fn lemma_parallel_store_advances(store: ParallelView)
    ensures
        store.advanced().phase == store.phase.next(),
        store.advanced().phase.rank() >= store.phase.rank(),
        store.advanced().phase != Phase::Idle,
        store.advanced().load() is Ok,
{
}

/// The k-th store into a fresh store targets the phase that k advances reach
/// from `Idle`: it leaves the store in that phase, and writes to its file.
pub proof fn lemma_parallel_kth_store(store: ParallelView, count: nat, data: Seq<char>)
    requires
        store.phase == Phase::Idle,
    ensures
        store.advanced_by(count) == (ParallelView { phase: Phase::after(count), ..store }),
        count >= 1 ==> store.advanced_by((count - 1) as nat).store(data) == (FileWriteView {
            path: store.target(Phase::after(count))->0,
            text: data,
        }),
    decreases count,
{
    if count > 0 {
        lemma_parallel_kth_store(store, (count - 1) as nat, data);
    }
}

/// Overwrite: of two texts stored one after the other for the same phase, the
/// second replaces the first in the same file. The first leaves no trace on
/// the disk, and the second is what a load then reads.
pub proof fn lemma_parallel_overwrite(
    store: ParallelView,
    first: Seq<char>,
    second: Seq<char>,
    disk: Map<Seq<char>, Seq<char>>,
)
    requires
        store.advanced().phase == store.advanced().advanced().phase,
    ensures
        store.store(first).path == store.advanced().store(second).path,
        store.advanced().store(second).apply(store.store(first).apply(disk))
            == store.advanced().store(second).apply(disk),
        read(
            store.advanced().store(second).apply(store.store(first).apply(disk)),
            store.advanced().advanced().load()->Ok_0,
        ) == Some(second),
{
    let one = store.store(first);
    let two = store.advanced().store(second);
    assert(two.apply(one.apply(disk)) =~= two.apply(disk));
}

/// Nothing can be loaded from a fresh store.
pub proof fn lemma_parallel_fresh_is_empty(store: ParallelView)
    requires
        store.phase == Phase::Idle,
    ensures
        store.load() == Err::<Seq<char>, Error>(Error::NothingStored),
{
}

} // verus!
