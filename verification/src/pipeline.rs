//! The driver of a run: which step follows which.
//!
//! A run maps, sorts and reduces. After each of the three phases the result is
//! stored and loaded again before the next phase sees it. The driver performs
//! none of this. It is told what happened and answers with what is to be done
//! next; its caller does the work.

use vstd::prelude::*;
use crate::error::Error;
use crate::phase::Phase;
use crate::text::{lines, lines_of};

verus! {

/// Where a run stands.
#[derive(Clone, Copy, Debug, PartialEq, Eq, Structural)]
pub enum Stage {
    /// Nothing has been asked for yet.
    Ready,
    /// The workers of the given phase are running.
    Computing(Phase),
    /// The result of the given phase is being stored.
    Storing(Phase),
    /// The result of the given phase is being loaded.
    Loading(Phase),
    /// The final result has been handed out.
    Completed,
    /// The run was abandoned.
    Aborted,
}

/// What the caller reports to the driver.
#[derive(Debug)]
pub enum Event {
    /// The run is to begin with these input records.
    Start(Vec<String>),
    /// The workers of the current phase are done.
    Computed(Result<String, Error>),
    /// The store has taken the result, or failed to.
    Stored(Result<(), Error>),
    /// The store has handed the result back, or failed to.
    Loaded(Result<String, Error>),
}

/// What the driver asks of the caller.
#[derive(Debug)]
pub enum Action {
    /// Run the workers of `phase` on `records`, then report `Computed`.
    Run { phase: Phase, records: Vec<String> },
    /// Store this text, then report `Stored`.
    Store(String),
    /// Load what was stored last, then report `Loaded`.
    Load,
    /// The run is over, with this outcome.
    Finish(Result<String, Error>),
}

/// An `Event` with its texts as sequences of characters.
pub enum EventView {
    Start(Seq<Seq<char>>),
    Computed(Result<Seq<char>, Error>),
    Stored(Result<(), Error>),
    Loaded(Result<Seq<char>, Error>),
}

/// An `Action` with its texts as sequences of characters.
pub enum ActionView {
    Run { phase: Phase, records: Seq<Seq<char>> },
    Store(Seq<char>),
    Load,
    Finish(Result<Seq<char>, Error>),
}

impl View for Event {
    type V = EventView;

    open spec fn view(&self) -> EventView {
        match *self {
            Event::Start(records) => EventView::Start(records.deep_view()),
            Event::Computed(Ok(text)) => EventView::Computed(Ok(text@)),
            Event::Computed(Err(e)) => EventView::Computed(Err(e)),
            Event::Stored(r) => EventView::Stored(r),
            Event::Loaded(Ok(text)) => EventView::Loaded(Ok(text@)),
            Event::Loaded(Err(e)) => EventView::Loaded(Err(e)),
        }
    }
}

impl View for Action {
    type V = ActionView;

    open spec fn view(&self) -> ActionView {
        match *self {
            Action::Run { phase, records } => ActionView::Run {
                phase,
                records: records.deep_view(),
            },
            Action::Store(text) => ActionView::Store(text@),
            Action::Load => ActionView::Load,
            Action::Finish(Ok(text)) => ActionView::Finish(Ok(text@)),
            Action::Finish(Err(e)) => ActionView::Finish(Err(e)),
        }
    }
}

impl EventView {
    /// Whether the event reports a failure.
    pub open spec fn failed(self) -> bool {
        match self {
            EventView::Start(_) => false,
            EventView::Computed(r) => r is Err,
            EventView::Stored(r) => r is Err,
            EventView::Loaded(r) => r is Err,
        }
    }
}

impl Stage {
    /// A stage that is at work on a phase is at work on one of the three
    /// phases of a run, never on `Idle`.
    pub open spec fn wf(self) -> bool {
        match self {
            Stage::Computing(phase) => phase != Phase::Idle,
            Stage::Storing(phase) => phase != Phase::Idle,
            Stage::Loading(phase) => phase != Phase::Idle,
            _ => true,
        }
    }

    /// How many times a run that stands at this stage has asked for a store.
    /// An abandoned run no longer tells.
    pub open spec fn stores(self) -> int {
        match self {
            Stage::Ready => 0,
            Stage::Computing(phase) => phase.rank() - 1,
            Stage::Storing(phase) => phase.rank() as int,
            Stage::Loading(phase) => phase.rank() as int,
            Stage::Completed => 3,
            Stage::Aborted => 0,
        }
    }

    /// How many times a run that stands at this stage has asked for a load.
    /// An abandoned run no longer tells.
    pub open spec fn loads(self) -> int {
        match self {
            Stage::Ready => 0,
            Stage::Computing(phase) => phase.rank() - 1,
            Stage::Storing(phase) => phase.rank() - 1,
            Stage::Loading(phase) => phase.rank() as int,
            Stage::Completed => 3,
            Stage::Aborted => 0,
        }
    }
}

/// The transition of the driver: the stage that follows `stage` upon `event`,
/// and what is asked for then.
///
/// A phase that was computed is stored, what was stored is loaded, and the
/// lines of what was loaded go to the next phase; what is loaded after the
/// last phase is the outcome. A reported failure, or an event that does not
/// answer what was asked for, abandons the run.
pub open spec fn step(stage: Stage, event: EventView) -> (Stage, ActionView) {
    match (stage, event) {
        (Stage::Ready, EventView::Start(records)) => (
            Stage::Computing(Phase::Mapped),
            ActionView::Run { phase: Phase::Mapped, records },
        ),
        (Stage::Computing(phase), EventView::Computed(Ok(text))) => (
            Stage::Storing(phase),
            ActionView::Store(text),
        ),
        (Stage::Storing(phase), EventView::Stored(Ok(_))) => (
            Stage::Loading(phase),
            ActionView::Load,
        ),
        (Stage::Loading(phase), EventView::Loaded(Ok(text))) => if phase == Phase::Reduced {
            (Stage::Completed, ActionView::Finish(Ok(text)))
        } else {
            (
                Stage::Computing(phase.next()),
                ActionView::Run { phase: phase.next(), records: lines_of(text) },
            )
        },
        _ => (Stage::Aborted, ActionView::Finish(Err(Error::Incomplete))),
    }
}

/// The driver of one run.
#[derive(Debug)]
pub struct Pipeline {
    stage: Stage,
}

impl View for Pipeline {
    type V = Stage;

    closed spec fn view(&self) -> Stage {
        self.stage
    }
}

impl Pipeline {
    /// A driver for a run that has not begun.
    pub fn new() -> (r: Pipeline)
        ensures
            r@ == Stage::Ready,
    {
        Pipeline { stage: Stage::Ready }
    }

    /// Where the run stands.
    pub fn stage(&self) -> (r: Stage)
        ensures
            r == self@,
    {
        self.stage
    }

    /// Takes in `event` and answers with what is to be done next.
    pub fn step(&mut self, event: Event) -> (action: Action)
        ensures
            (final(self)@, action@) == step(old(self)@, event@),
    {
        let stage = self.stage;
        match (stage, event) {
            (Stage::Ready, Event::Start(records)) => {
                self.stage = Stage::Computing(Phase::Mapped);
                Action::Run { phase: Phase::Mapped, records }
            },
            (Stage::Computing(phase), Event::Computed(Ok(text))) => {
                self.stage = Stage::Storing(phase);
                Action::Store(text)
            },
            (Stage::Storing(phase), Event::Stored(Ok(_))) => {
                self.stage = Stage::Loading(phase);
                Action::Load
            },
            (Stage::Loading(phase), Event::Loaded(Ok(text))) => {
                if phase == Phase::Reduced {
                    self.stage = Stage::Completed;
                    Action::Finish(Ok(text))
                } else {
                    let following = phase.advance();
                    let records = lines(text.as_str());
                    self.stage = Stage::Computing(following);
                    Action::Run { phase: following, records }
                }
            },
            _ => {
                self.stage = Stage::Aborted;
                Action::Finish(Err(Error::Incomplete))
            },
        }
    }
}

/// A reported failure abandons the run, whatever its stage: the outcome is
/// `Incomplete`, and nothing more is asked for.
pub proof fn lemma_failure_aborts(stage: Stage, event: EventView)
    requires
        event.failed(),
    ensures
        step(stage, event) == (Stage::Aborted, ActionView::Finish(Err(Error::Incomplete))),
{
}

/// A run stores three times and loads three times: each step that asks for a
/// store or a load is counted once, a run that has not begun has asked for
/// none, and a run that is completed has asked for three of each.
pub proof fn lemma_three_stores_three_loads(stage: Stage, event: EventView)
    requires
        stage.wf(),
    ensures
        step(stage, event).0.wf(),
        step(stage, event).0 != Stage::Aborted ==> {
            &&& step(stage, event).0.stores() == stage.stores() + if step(stage, event).1
                is Store {
                1int
            } else {
                0int
            }
            &&& step(stage, event).0.loads() == stage.loads() + if step(stage, event).1 is Load {
                1int
            } else {
                0int
            }
        },
        Stage::Ready.stores() == 0 && Stage::Ready.loads() == 0,
        Stage::Completed.stores() == 3 && Stage::Completed.loads() == 3,
{
}

/// The outcome of a run is what the load after the reduce phase produced:
/// a step finishes the run with a text exactly when it takes in that load.
pub proof fn lemma_outcome_is_last_load(stage: Stage, event: EventView, text: Seq<char>)
    ensures
        step(stage, event).1 == ActionView::Finish(Ok(text)) <==> stage == Stage::Loading(
            Phase::Reduced,
        ) && event == EventView::Loaded(Ok(text)),
        step(stage, event).0 == Stage::Completed <==> step(stage, event).1 is Finish && step(
            stage,
            event,
        ).1->Finish_0 is Ok,
{
}

/// The phases of a run come in order: the workers that a step asks for are
/// those of `Mapped` at the start, and after a load those of the phase that
/// follows the one just loaded, fed with its lines.
pub proof fn lemma_phases_in_order(stage: Stage, event: EventView)
    requires
        step(stage, event).1 is Run,
    ensures
        step(stage, event).1->phase != Phase::Idle,
        step(stage, event).0 == Stage::Computing(step(stage, event).1->phase),
        stage == Stage::Ready ==> step(stage, event).1->phase == Phase::Mapped,
        stage != Stage::Ready ==> {
            &&& stage matches Stage::Loading(loaded)
            &&& event matches EventView::Loaded(Ok(text))
            &&& step(stage, event).1->phase == loaded.next()
            &&& step(stage, event).1->records == lines_of(text)
        },
{
}

} // verus!
