//! The phase runner: what is to be launched for a phase, what is written to
//! it, and how the outputs of its workers become one result.
//!
//! A phase is run by one or more instances of one external program. The plan
//! names the program and its arguments, says how many instances are wanted
//! and lists the writes to their input streams. Whoever carries the plan out
//! launches the instances, makes the writes in order, closes every input
//! stream, waits for every instance and hands the collected outputs to
//! `gather`, the output of worker `i` in place `i`.

use vstd::prelude::*;
use vstd::utf8::valid_utf8;
use crate::balance::{deal, schedule, Write, WriteView};
use crate::error::Error;
use crate::text::{all_text, decode, joined};

verus! {

/// What it takes to run one phase.
#[derive(Debug)]
pub struct Plan {
    /// The program of which every worker is an instance.
    pub program: String,
    /// The arguments that every worker is launched with.
    pub args: Vec<String>,
    /// How many workers are launched.
    pub workers: usize,
    /// The writes to the workers' input streams, in the order in which they
    /// are made.
    pub writes: Vec<Write>,
}

/// A `Plan` with its texts as sequences of characters.
pub struct PlanView {
    pub program: Seq<char>,
    pub args: Seq<Seq<char>>,
    pub workers: nat,
    pub writes: Seq<WriteView>,
}

impl View for Plan {
    type V = PlanView;

    open spec fn view(&self) -> PlanView {
        PlanView {
            program: self.program@,
            args: self.args.deep_view(),
            workers: self.workers as nat,
            writes: self.writes.deep_view(),
        }
    }
}

/// Name of the interpreter that runs mapper and reducer scripts.
pub open spec fn interpreter() -> Seq<char> {
    "python"@
}

/// Name of the utility that sorts lines.
pub open spec fn sorter() -> Seq<char> {
    "sort"@
}

/// The plan that runs `script` in `workers` instances of the interpreter, with
/// `records` dealt out among them.
pub open spec fn script_plan(script: Seq<char>, workers: nat, records: Seq<Seq<char>>) -> PlanView {
    PlanView {
        program: interpreter(),
        args: seq![script],
        workers,
        writes: schedule(records, workers as int),
    }
}

/// The plan that hands all of `records`, in their order, to one instance of
/// the sorter.
pub open spec fn sort_plan(records: Seq<Seq<char>>) -> PlanView {
    PlanView { program: sorter(), args: Seq::empty(), workers: 1, writes: schedule(records, 1) }
}

/// The byte sequences that `outputs` holds.
pub open spec fn contents(outputs: Seq<Vec<u8>>) -> Seq<Seq<u8>> {
    Seq::new(outputs.len(), |i: int| outputs[i]@)
}

/// Plans a phase for a number of workers that is known not to be zero.
pub(crate) fn run_script(script: &str, workers: usize, records: &Vec<String>) -> (plan: Plan)
    requires
        workers > 0,
    ensures
        plan@ == script_plan(script@, workers as nat, records.deep_view()),
{
    let writes = deal(records, workers);
    let mut args: Vec<String> = Vec::new();
    args.push(String::from_str(script));
    let plan = Plan { program: String::from_str("python"), args, workers, writes };
    assert(plan.args.deep_view() =~= seq![script@]);
    plan
}

/// Plans a phase that `workers` instances of the interpreter carry out, each
/// running `script`.
///
/// Zero workers are a configuration error.
pub fn plan_script(script: &str, workers: usize, records: &Vec<String>) -> (r: Result<Plan, Error>)
    ensures
        workers == 0 ==> r == Err::<Plan, Error>(Error::NoWorkers),
        workers > 0 ==> r is Ok,
        r matches Ok(plan) ==> plan@ == script_plan(script@, workers as nat, records.deep_view()),
{
    if workers == 0 {
        Err(Error::NoWorkers)
    } else {
        Ok(run_script(script, workers, records))
    }
}

/// Plans the sort phase: one instance of the sorter reads all records.
pub fn plan_sort(records: &Vec<String>) -> (plan: Plan)
    ensures
        plan@ == sort_plan(records.deep_view()),
{
    let writes = deal(records, 1);
    let plan = Plan { program: String::from_str("sort"), args: Vec::new(), workers: 1, writes };
    assert(plan.args.deep_view() =~= Seq::<Seq<char>>::empty());
    plan
}

/// Turns what the workers of a phase wrote into the result of the phase.
///
/// `outputs[i]` is all that worker `i` wrote. Each output is decoded as UTF-8,
/// and the texts are joined from that of the last worker to that of the
/// first. One output that is not valid UTF-8 fails the phase.
pub fn gather(outputs: Vec<Vec<u8>>) -> (r: Result<String, Error>)
    ensures
        all_text(contents(outputs@)) ==> r is Ok,
        !all_text(contents(outputs@)) ==> r == Err::<String, Error>(Error::Decode),
        r matches Ok(text) ==> text@ == joined(contents(outputs@)),
{
    let ghost all = contents(outputs@);
    let mut rest = outputs;
    let mut text = String::new();
    while rest.len() > 0
        invariant
            all == contents(outputs@),
            rest.len() <= all.len(),
            contents(rest@) == all.take(rest.len() as int),
            forall|i: int| rest.len() <= i < all.len() ==> valid_utf8(#[trigger] all[i]),
            text@ + joined(contents(rest@)) == joined(all),
        decreases rest.len(),
    {
        let ghost before = contents(rest@);
        let last = rest.pop();
        assert(contents(rest@) =~= before.drop_last());
        assert(contents(rest@) =~= all.take(rest.len() as int));
        match last {
            None => {
                proof {
                    assert(false);
                }
            },
            Some(bytes) => {
                assert(bytes@ == all[rest.len() as int]);
                match decode(bytes) {
                    None => {
                        assert(!valid_utf8(all[rest.len() as int]));
                        return Err(Error::Decode);
                    },
                    Some(piece) => {
                        text.append(piece.as_str());
                        assert(text@ + joined(contents(rest@)) =~= joined(all));
                    },
                }
            },
        }
    }
    assert(text@ =~= joined(all));
    Ok(text)
}

} // verus!
