use vstd::prelude::*;
use crate::transaction::{Ics20Withdrawal, TradingPair};

verus! {

/// A plan for a spend: the note, its position, and the randomness of the
/// proof.
pub struct SpendPlan {
    pub note: Vec<u8>,
    pub position: u64,
    pub randomizer: Vec<u8>,
    pub value_blinding: Vec<u8>,
    pub proof_blinding_r: Vec<u8>,
    pub proof_blinding_s: Vec<u8>,
}

/// A plan for an output: value, destination and randomness.
pub struct OutputPlan {
    pub amount: u64,
    pub asset: u64,
    pub dest_address: Vec<u8>,
    pub rseed: Vec<u8>,
    pub value_blinding: Vec<u8>,
    pub proof_blinding_r: Vec<u8>,
    pub proof_blinding_s: Vec<u8>,
}

/// A plan for one action.
pub enum ActionPlan {
    Spend(SpendPlan),
    Output(OutputPlan),
    Swap { trading_pair: TradingPair, delta_1: u64, delta_2: u64 },
    Withdrawal(Ics20Withdrawal),
}

/// A plan for one detection clue.
pub struct CluePlan {
    pub address: Vec<u8>,
    pub rseed: Vec<u8>,
    pub precision_bits: u64,
}

/// The plaintext of a memo: who sent it, and its text.
pub struct MemoPlaintext {
    pub sender: Vec<u8>,
    pub text: String,
}

/// A plan for the memo: its plaintext and the key to encrypt it with.
pub struct MemoPlan {
    pub plaintext: MemoPlaintext,
    pub key: Vec<u8>,
}

/// Everything needed to build a transaction but the authorization and the
/// witnesses.
pub struct TransactionPlan {
    pub actions: Vec<ActionPlan>,
    pub expiry_height: u64,
    pub chain_id: Vec<u8>,
    pub fee: u64,
    pub clue_plans: Vec<CluePlan>,
    pub memo_plan: Option<MemoPlan>,
}

/// The signatures that authorize a planned transaction.
pub struct AuthorizationData {
    pub effect_hash: Vec<u8>,
    pub spend_auths: Vec<Vec<u8>>,
    pub delegator_vote_auths: Vec<Vec<u8>>,
}

/// The anchor and the note inclusion proofs that a planned transaction's
/// proofs are made against.
pub struct WitnessData {
    pub anchor: Vec<u8>,
    pub state_commitment_proofs: Vec<Vec<u8>>,
}

impl TransactionPlan {
    /// The number of spend actions, each of which needs one authorization
    /// signature.
    pub open spec fn spend_count_spec(actions: Seq<ActionPlan>) -> nat
        decreases actions.len(),
    {
        if actions.len() == 0 {
            0
        } else {
            Self::spend_count_spec(actions.drop_last()) + if actions.last() is Spend {
                1nat
            } else {
                0nat
            }
        }
    }

    /// The number of spend actions.
    pub fn spend_count(&self) -> (r: usize)
        ensures
            r == Self::spend_count_spec(self.actions@),
    {
        let mut n: usize = 0;
        let mut i: usize = 0;
        while i < self.actions.len()
            invariant
                0 <= i <= self.actions@.len(),
                n == Self::spend_count_spec(self.actions@.subrange(0, i as int)),
                n <= i,
            decreases self.actions@.len() - i,
        {
            assert(self.actions@.subrange(0, i + 1).drop_last() =~= self.actions@.subrange(0, i as int));
            if let ActionPlan::Spend(_) = &self.actions[i] {
                n = n + 1;
            }
            i = i + 1;
        }
        assert(self.actions@.subrange(0, self.actions@.len() as int) =~= self.actions@);
        n
    }

    /// Whether `auth` carries one spend signature per planned spend.
    pub fn authorization_complete(&self, auth: &AuthorizationData) -> (r: bool)
        ensures
            r == (auth.spend_auths@.len() == Self::spend_count_spec(self.actions@)),
    {
        auth.spend_auths.len() == self.spend_count()
    }
}

} // verus!
