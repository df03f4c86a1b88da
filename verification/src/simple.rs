//! The plain configuration: one worker for each phase, results kept in
//! memory.

use vstd::prelude::*;
use crate::error::Error;
use crate::phase::Phase;
use crate::runner::{plan_sort, run_script, script_plan, sort_plan, Plan};

verus! {

/// A pipeline that runs each phase in one worker and keeps the results of the
/// phases in three slots, filled in the order in which results arrive.
#[derive(Debug)]
pub struct Simple {
    mapped: Option<String>,
    sorted: Option<String>,
    reduced: Option<String>,
    mapper: String,
    reducer: String,
}

/// A `Simple` with its texts as sequences of characters.
pub struct SimpleView {
    pub mapped: Option<Seq<char>>,
    pub sorted: Option<Seq<char>>,
    pub reduced: Option<Seq<char>>,
    pub mapper: Seq<char>,
    pub reducer: Seq<char>,
}

/// The characters of an optional text.
pub open spec fn text_of(slot: Option<String>) -> Option<Seq<char>> {
    match slot {
        Some(text) => Some(text@),
        None => None,
    }
}

impl View for Simple {
    type V = SimpleView;

    closed spec fn view(&self) -> SimpleView {
        SimpleView {
            mapped: text_of(self.mapped),
            sorted: text_of(self.sorted),
            reduced: text_of(self.reduced),
            mapper: self.mapper@,
            reducer: self.reducer@,
        }
    }
}

impl SimpleView {
    /// A store with the given scripts and nothing in its slots.
    pub open spec fn fresh(mapper: Seq<char>, reducer: Seq<char>) -> SimpleView {
        SimpleView { mapped: None, sorted: None, reduced: None, mapper, reducer }
    }

    /// The slots are filled in order: none is filled while an earlier one is
    /// empty.
    pub open spec fn wf(self) -> bool {
        &&& self.sorted is Some ==> self.mapped is Some
        &&& self.reduced is Some ==> self.sorted is Some
    }

    /// The phase of the most advanced slot that is filled.
    pub open spec fn phase(self) -> Phase {
        if self.reduced is Some {
            Phase::Reduced
        } else if self.sorted is Some {
            Phase::Sorted
        } else if self.mapped is Some {
            Phase::Mapped
        } else {
            Phase::Idle
        }
    }

    /// The slot that belongs to `phase`. `Idle` has none.
    pub open spec fn slot(self, phase: Phase) -> Option<Seq<char>> {
        match phase {
            Phase::Idle => None,
            Phase::Mapped => self.mapped,
            Phase::Sorted => self.sorted,
            Phase::Reduced => self.reduced,
        }
    }

    /// The store after `data` was stored: it fills the first empty slot, or
    /// replaces the last one when all are filled.
    pub open spec fn store(self, data: Seq<char>) -> SimpleView {
        if self.mapped is None {
            SimpleView { mapped: Some(data), ..self }
        } else if self.sorted is None {
            SimpleView { sorted: Some(data), ..self }
        } else {
            SimpleView { reduced: Some(data), ..self }
        }
    }

    /// What loading yields: the most advanced slot that is filled.
    pub open spec fn load(self) -> Result<Seq<char>, Error> {
        if self.reduced is Some {
            Ok(self.reduced->0)
        } else if self.sorted is Some {
            Ok(self.sorted->0)
        } else if self.mapped is Some {
            Ok(self.mapped->0)
        } else {
            Err(Error::NothingStored)
        }
    }

    /// The store after each of `texts` was stored, in their order.
    pub open spec fn store_all(self, texts: Seq<Seq<char>>) -> SimpleView
        decreases texts.len(),
    {
        if texts.len() == 0 {
            self
        } else {
            self.store_all(texts.drop_last()).store(texts.last())
        }
    }
}

impl Simple {
    #[verifier::type_invariant]
    spec fn filled_in_order(self) -> bool {
        self@.wf()
    }

    /// A pipeline that runs the scripts `mapper` and `reducer`, with nothing
    /// stored yet.
    pub fn new(mapper: &str, reducer: &str) -> (r: Simple)
        ensures
            r@ == SimpleView::fresh(mapper@, reducer@),
    {
        Simple {
            mapped: None,
            sorted: None,
            reduced: None,
            mapper: String::from_str(mapper),
            reducer: String::from_str(reducer),
        }
    }

    /// Plans the map phase: one worker runs the mapper on all records.
    pub fn map(&self, records: &Vec<String>) -> (plan: Plan)
        ensures
            plan@ == script_plan(self@.mapper, 1, records.deep_view()),
    {
        run_script(self.mapper.as_str(), 1, records)
    }

    /// Plans the sort phase: the sorter reads all records.
    pub fn sort(&self, records: &Vec<String>) -> (plan: Plan)
        ensures
            plan@ == sort_plan(records.deep_view()),
    {
        plan_sort(records)
    }

    /// Plans the reduce phase: one worker runs the reducer on all records.
    pub fn reduce(&self, records: &Vec<String>) -> (plan: Plan)
        ensures
            plan@ == script_plan(self@.reducer, 1, records.deep_view()),
    {
        run_script(self.reducer.as_str(), 1, records)
    }

    /// Keeps `data` as the result of the phase that follows the current one.
    pub fn store(&mut self, data: &str)
        ensures
            final(self)@ == old(self)@.store(data@),
            final(self)@.wf(),
            final(self)@.phase() == old(self)@.phase().next(),
            final(self)@.slot(final(self)@.phase()) == Some(data@),
    {
        proof {
            use_type_invariant(&*self);
        }
        let data = String::from_str(data);
        if self.mapped.is_none() {
            self.mapped = Some(data);
        } else if self.sorted.is_none() {
            self.sorted = Some(data);
        } else {
            self.reduced = Some(data);
        }
    }

    /// Hands out the result that was stored last.
    ///
    /// Fails with `NothingStored` if nothing was stored yet, and only then.
    pub fn load(&self) -> (r: Result<String, Error>)
        ensures
            self@.wf(),
            match r {
                Ok(text) => self@.load() == Ok::<Seq<char>, Error>(text@),
                Err(e) => self@.load() == Err::<Seq<char>, Error>(e),
            },
            r is Err <==> self@.phase() == Phase::Idle,
            r matches Ok(text) ==> self@.slot(self@.phase()) == Some(text@),
    {
        proof {
            use_type_invariant(self);
        }
        match &self.reduced {
            Some(text) => Ok(text.clone()),
            None => match &self.sorted {
                Some(text) => Ok(text.clone()),
                None => match &self.mapped {
                    Some(text) => Ok(text.clone()),
                    None => Err(Error::NothingStored),
                },
            },
        }
    }
}

/// Round trip: what is stored is what the next load yields.
pub proof fn lemma_simple_round_trip(store: SimpleView, data: Seq<char>)
    requires
        store.wf(),
    ensures
        store.store(data).load() == Ok::<Seq<char>, Error>(data),
{
}

/// Every store moves the phase one step forward, and keeps the slots filled in
/// order.
pub proof fn lemma_simple_store_advances(store: SimpleView, data: Seq<char>)
    requires
        store.wf(),
    ensures
        store.store(data).wf(),
        store.store(data).phase() == store.phase().next(),
        store.store(data).phase().rank() >= store.phase().rank(),
        store.store(data).slot(store.store(data).phase()) == Some(data),
{
}

/// The k-th store into a fresh store targets the phase that k advances reach
/// from `Idle`: it leaves the store in that phase, with the text in its slot.
pub proof fn lemma_simple_kth_store(mapper: Seq<char>, reducer: Seq<char>, texts: Seq<Seq<char>>)
    ensures
        SimpleView::fresh(mapper, reducer).store_all(texts).wf(),
        SimpleView::fresh(mapper, reducer).store_all(texts).phase() == Phase::after(texts.len()),
        texts.len() > 0 ==> SimpleView::fresh(mapper, reducer).store_all(texts).slot(
            Phase::after(texts.len()),
        ) == Some(texts.last()),
        texts.len() > 0 ==> SimpleView::fresh(mapper, reducer).store_all(texts).load() == Ok::<
            Seq<char>,
            Error,
        >(texts.last()),
    decreases texts.len(),
{
    if texts.len() > 0 {
        lemma_simple_kth_store(mapper, reducer, texts.drop_last());
    }
}

/// Overwrite: of two texts stored one after the other for the same phase, the
/// first leaves no trace, and the second is what a load yields.
pub proof fn lemma_simple_overwrite(store: SimpleView, first: Seq<char>, second: Seq<char>)
    requires
        store.wf(),
        store.store(first).phase() == store.store(first).store(second).phase(),
    ensures
        store.store(first).store(second) == store.store(second),
        store.store(first).store(second).load() == Ok::<Seq<char>, Error>(second),
{
}

/// Nothing can be loaded from a fresh store.
pub proof fn lemma_simple_fresh_is_empty(mapper: Seq<char>, reducer: Seq<char>)
    ensures
        SimpleView::fresh(mapper, reducer).wf(),
        SimpleView::fresh(mapper, reducer).phase() == Phase::Idle,
        SimpleView::fresh(mapper, reducer).load() == Err::<Seq<char>, Error>(Error::NothingStored),
{
}

} // verus!
