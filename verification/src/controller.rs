//! The state machine that arbitrates between continuous processing and
//! batch-auction windows.

use vstd::prelude::*;

verus! {

/// The controller's mode. Only the scheduler writes to it.
///
/// While the state is not [`State::Process`], the queue drainer must leave
/// the books untouched; a batch-auction window owns them instead.
#[derive(Debug, PartialEq, Eq, Structural)]
pub enum State {
    Process,
    PreAuction,
    Auction,
}

impl Clone for State {
    fn clone(&self) -> (r: State)
        ensures
            r == *self,
    {
        match self {
            State::Process => State::Process,
            State::PreAuction => State::PreAuction,
            State::Auction => State::Auction,
        }
    }
}

impl State {
    /// The initial mode: continuous processing.
    pub fn initial() -> (r: State)
        ensures
            r == State::Process,
    {
        State::Process
    }

    /// Opens a batch-auction window: the queue drainer goes idle until the
    /// window is closed again.
    pub fn open_auction(state: &mut State)
        ensures
            *final(state) == State::Auction,
    {
        *state = State::Auction;
    }

    /// Closes the batch-auction window and resumes continuous processing.
    pub fn close_auction(state: &mut State)
        ensures
            *final(state) == State::Process,
    {
        *state = State::Process;
    }
}

} // verus!
