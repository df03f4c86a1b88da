//! The ways in which a run can fail.

use vstd::prelude::*;

verus! {

/// Why an operation of the orchestrator failed.
#[derive(Clone, Copy, Debug, PartialEq, Eq, Structural)]
pub enum Error {
    /// A worker program could not be launched.
    Spawn,
    /// A worker's input stream could not be reached or written to.
    Stream,
    /// What a worker wrote is not valid UTF-8.
    Decode,
    /// The storage medium could not be written or read.
    Storage,
    /// A result was asked for before any had been stored.
    NothingStored,
    /// A phase was to be run by no worker at all.
    NoWorkers,
    /// The run was abandoned before its final result was loaded.
    Incomplete,
}

impl Error {
    /// The text that `message` returns.
    pub open spec fn text(self) -> Seq<char> {
        match self {
            Error::Spawn => "Could not start worker."@,
            Error::Stream => "Could not access stdin."@,
            Error::Decode => "Could not read as string."@,
            Error::Storage => "Could not access storage."@,
            Error::NothingStored => "Loaded unknown value."@,
            Error::NoWorkers => "No workers."@,
            Error::Incomplete => "Could not finish run."@,
        }
    }

    /// A short description of the failure for people to read.
    pub fn message(self) -> (r: String)
        ensures
            r@ == self.text(),
    {
        match self {
            Error::Spawn => String::from_str("Could not start worker."),
            Error::Stream => String::from_str("Could not access stdin."),
            Error::Decode => String::from_str("Could not read as string."),
            Error::Storage => String::from_str("Could not access storage."),
            Error::NothingStored => String::from_str("Loaded unknown value."),
            Error::NoWorkers => String::from_str("No workers."),
            Error::Incomplete => String::from_str("Could not finish run."),
        }
    }
}

} // verus!
