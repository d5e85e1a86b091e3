use vstd::prelude::*;
use crate::transaction::Vote;

verus! {

/// How to vote, and on which proposal.
#[derive(Clone, Copy, Debug, PartialEq, Eq, Structural)]
pub enum VoteCmd {
    Yes { proposal_id: u64 },
    No { proposal_id: u64 },
    Abstain { proposal_id: u64 },
}

impl VoteCmd {
    /// The proposal and the vote.
    pub fn proposal_vote(&self) -> (r: (u64, Vote))
        ensures
            r == (match *self {
                VoteCmd::Yes { proposal_id } => (proposal_id, Vote::Yes),
                VoteCmd::No { proposal_id } => (proposal_id, Vote::No),
                VoteCmd::Abstain { proposal_id } => (proposal_id, Vote::Abstain),
            }),
    {
        match *self {
            VoteCmd::Yes { proposal_id } => (proposal_id, Vote::Yes),
            VoteCmd::No { proposal_id } => (proposal_id, Vote::No),
            VoteCmd::Abstain { proposal_id } => (proposal_id, Vote::Abstain),
        }
    }
}

/// A transaction command of the command-line client. The proposal and
/// liquidity-position subcommands are represented by whether they can run
/// without a connection to a node.
pub enum TxCmd {
    Send { to: String, values: Vec<String>, fee: u64, source: u32, memo: Option<String> },
    Delegate { to: String, amount: String, fee: u64, source: u32 },
    Undelegate { amount: String, fee: u64, source: u32 },
    UndelegateClaim { fee: u64 },
    Swap { input: String, into: String, fee: u64, source: u32 },
    Vote { fee: u64, source: u32, vote: VoteCmd },
    Proposal { offline: bool },
    DaoDeposit { fee: u64, values: Vec<String>, source: u32 },
    Position { offline: bool },
    Sweep,
    Withdraw {
        to: String,
        value: String,
        channel: String,
        timeout_height: u64,
        timeout_timestamp: u64,
        source: u32,
    },
}

impl TxCmd {
    /// Whether the command can run without a node: only those proposal and
    /// position subcommands that say so.
    pub fn offline(&self) -> (r: bool)
        ensures
            r == (match *self {
                TxCmd::Proposal { offline } => offline,
                TxCmd::Position { offline } => offline,
                _ => false,
            }),
    {
        match self {
            TxCmd::Send { .. } => false,
            TxCmd::Sweep => false,
            TxCmd::Swap { .. } => false,
            TxCmd::Delegate { .. } => false,
            TxCmd::Undelegate { .. } => false,
            TxCmd::UndelegateClaim { .. } => false,
            TxCmd::Vote { .. } => false,
            TxCmd::Proposal { offline } => *offline,
            TxCmd::DaoDeposit { .. } => false,
            TxCmd::Position { offline } => *offline,
            TxCmd::Withdraw { .. } => false,
        }
    }
}

} // verus!
