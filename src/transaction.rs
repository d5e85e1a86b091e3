use vstd::prelude::*;
use crate::ibc::{MsgChannelOpenConfirm, MsgChannelOpenInit, MsgCreateClient};

verus! {

/// A vote on a governance proposal.
#[derive(Clone, Copy, Debug, PartialEq, Eq, Structural)]
pub enum Vote {
    Yes,
    No,
    Abstain,
}

/// An unordered pair of assets that can be traded, by asset number.
#[derive(Clone, Copy, Debug, PartialEq, Eq, Structural)]
pub struct TradingPair {
    pub asset_1: u64,
    pub asset_2: u64,
}

/// The outcome of one batch of swaps of a trading pair at one height: the
/// inputs, the outputs and what was left unfilled, per asset.
#[derive(Clone, Copy, Debug, PartialEq, Eq, Structural)]
pub struct BatchSwapOutputData {
    pub height: u64,
    pub trading_pair: TradingPair,
    pub delta_1: u64,
    pub delta_2: u64,
    pub lambda_1: u64,
    pub lambda_2: u64,
    pub unfilled_1: u64,
    pub unfilled_2: u64,
}

/// The public part of a spend.
pub struct SpendBody {
    pub balance_commitment: Vec<u8>,
    pub nullifier: Vec<u8>,
    pub rk: Vec<u8>,
}

/// Spends a note: reveals its nullifier, with an authorization signature and
/// a proof of ownership against the transaction's anchor.
pub struct Spend {
    pub body: SpendBody,
    pub auth_sig: Vec<u8>,
    pub proof: Vec<u8>,
}

/// The public part of an output.
pub struct OutputBody {
    pub note_commitment: Vec<u8>,
    pub balance_commitment: Vec<u8>,
    pub wrapped_memo_key: Vec<u8>,
    pub ovk_wrapped_key: Vec<u8>,
}

/// Creates a note, committed to by `note_commitment`.
pub struct Output {
    pub body: OutputBody,
    pub proof: Vec<u8>,
}

/// Escrows input value of a trading pair for the next batch swap.
pub struct Swap {
    pub trading_pair: TradingPair,
    pub swap_commitment: Vec<u8>,
    pub proof: Vec<u8>,
}

/// Claims the outputs of an earlier swap, at the clearing prices of its batch.
pub struct SwapClaim {
    pub nullifier: Vec<u8>,
    pub output_data: BatchSwapOutputData,
    pub epoch_duration: u64,
    pub output_1_commitment: Vec<u8>,
    pub output_2_commitment: Vec<u8>,
    pub proof: Vec<u8>,
}

/// Votes on a proposal with a delegation note that existed before voting
/// started.
pub struct DelegatorVote {
    pub proposal: u64,
    pub vote: Vote,
    pub start_position: u64,
    pub delegation_asset: u64,
    pub value_amount: u64,
    pub unbonded_amount: u64,
    pub nullifier: Vec<u8>,
    pub rk: Vec<u8>,
    pub auth_sig: Vec<u8>,
    pub proof: Vec<u8>,
}

/// Sends value out of the shielded pool to another chain over ICS-20.
pub struct Ics20Withdrawal {
    pub amount: u64,
    pub asset: u64,
    pub destination_chain_address: Vec<u8>,
    pub return_address: Vec<u8>,
    pub timeout_height: u64,
    pub timeout_time: u64,
    pub source_port: Vec<u8>,
    pub source_channel: u64,
}

/// One action of a transaction.
pub enum Action {
    Spend(Spend),
    Output(Output),
    Swap(Swap),
    SwapClaim(SwapClaim),
    DelegatorVote(DelegatorVote),
    Ics20Withdrawal(Ics20Withdrawal),
    ChannelOpenInit(MsgChannelOpenInit),
    ChannelOpenConfirm(MsgChannelOpenConfirm),
    CreateClient(MsgCreateClient),
}

/// A detection clue, by its precision.
#[derive(Clone, Copy, Debug, PartialEq, Eq, Structural)]
pub struct Clue {
    pub precision_bits: u8,
}

/// Clues that let a detection server flag the transaction for recipients.
pub struct DetectionData {
    pub fmd_clues: Vec<Clue>,
}

/// The encrypted memo of a transaction.
pub struct MemoData {
    pub encrypted_memo: Option<Vec<u8>>,
}

/// When and where a transaction may be included.
pub struct TransactionParameters {
    /// The last height at which the transaction may be included; zero for none.
    pub expiry_height: u64,
    pub chain_id: Vec<u8>,
}

/// Everything a transaction's signatures cover.
pub struct TransactionBody {
    pub actions: Vec<Action>,
    pub transaction_parameters: TransactionParameters,
    pub fee: u64,
    pub detection_data: Option<DetectionData>,
    pub memo_data: Option<MemoData>,
}

/// A transaction: its body, a binding signature and the note commitment
/// tree root that its proofs were made against.
pub struct Transaction {
    pub body: TransactionBody,
    pub binding_sig: Vec<u8>,
    pub anchor: Vec<u8>,
}

/// The identifier of a transaction: the hash of its encoding.
pub struct Id {
    pub hash: Vec<u8>,
}

/// The hash of a transaction's effecting data, which its signatures sign.
pub struct EffectHash {
    pub inner: Vec<u8>,
}

impl Transaction {
    /// The precisions of its detection clues, in order; none without
    /// detection data.
    pub open spec fn clue_precisions(&self) -> Seq<u8> {
        match self.body.detection_data {
            Some(d) => d.fmd_clues@.map_values(|c: Clue| c.precision_bits),
            None => Seq::empty(),
        }
    }
}

} // verus!
