use vstd::prelude::*;
use crate::transaction::DelegatorVote as DelegatorVoteAction;

verus! {

/// A delegator vote whose note the viewer knows.
pub struct Visible {
    pub delegator_vote: DelegatorVoteAction,
    pub note: Vec<u8>,
}

/// A delegator vote whose note the viewer does not know.
pub struct Opaque {
    pub delegator_vote: DelegatorVoteAction,
}

/// A delegator vote as one viewer sees it.
pub enum DelegatorVote {
    Visible(Visible),
    Opaque(Opaque),
}

} // verus!
