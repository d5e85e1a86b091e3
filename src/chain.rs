use vstd::prelude::*;
use crate::ibc::{
    channel_open_confirm, channel_open_init, channel_open_init_check_stateless, create_client,
    create_client_check_stateless, open_confirm_outcome, open_init_outcome, open_init_record,
    record_at, ChannelEnd, ChannelEndView, ConsensusRecord, ChannelRecord, ChannelRecordView, ChannelState, Client,
    IbcError, IbcState, IbcView, LightClientState,
};
use crate::hashing::{spend_auth_valid, verify_spend_auth};
use crate::log::{bytes_eq, copy_bytes};
use crate::params::{clue_precision_ok, FmdParameters, FMD_GRACE_PERIOD_BLOCKS};
use crate::search::{first_match, lemma_first_match_prefix, lemma_first_match_step, lemma_full_prefix};
use crate::transaction::{Action, BatchSwapOutputData, Transaction, TradingPair, Vote};

verus! {

/// How many of the latest note commitment tree roots a transaction may
/// claim as its anchor.
pub const ANCHOR_WINDOW: u64 = 128;

/// The denominator of validator exchange rates: rates are in units of 10^-8.
pub const RATE_DENOMINATOR: u64 = 100_000_000;

/// A spent nullifier and the height at which it was spent.
pub struct SpentNullifier {
    pub nullifier: Vec<u8>,
    pub height: u64,
}

impl View for SpentNullifier {
    type V = (Seq<u8>, u64);

    open spec fn view(&self) -> (Seq<u8>, u64) {
        (self.nullifier@, self.height)
    }
}

/// A governance proposal as voting sees it: whether it is still open, and
/// the tree position and block height at which voting started.
#[derive(Clone, Copy, Debug, PartialEq, Eq, Structural)]
pub struct Proposal {
    pub id: u64,
    pub votable: bool,
    pub start_position: u64,
    pub start_height: u64,
}

/// The exchange rate of a validator's delegation asset, recorded when a
/// proposal's voting started.
#[derive(Clone, Copy, Debug, PartialEq, Eq, Structural)]
pub struct ProposalRate {
    pub proposal: u64,
    pub delegation_asset: u64,
    pub validator: u64,
    pub exchange_rate: u64,
}

/// A delegator's vote as recorded: proposal, nullifier, validator, vote and
/// voting power.
pub struct VoteRecord {
    pub proposal: u64,
    pub nullifier: Vec<u8>,
    pub validator: u64,
    pub vote: Vote,
    pub power: u64,
}

impl View for VoteRecord {
    type V = (u64, Seq<u8>, u64, Vote, u64);

    open spec fn view(&self) -> (u64, Seq<u8>, u64, Vote, u64) {
        (self.proposal, self.nullifier@, self.validator, self.vote, self.power)
    }
}

/// A packet sent out by an ICS-20 withdrawal, waiting for a relayer.
#[derive(Clone, Copy, Debug, PartialEq, Eq, Structural)]
pub struct OutboundPacket {
    pub channel: u64,
    pub asset: u64,
    pub amount: u64,
    pub timeout_height: u64,
    pub timeout_time: u64,
}

/// What an executed action reports.
#[derive(Clone, Copy, Debug, PartialEq, Eq, Structural)]
pub enum Event {
    Spend,
    Output,
    Swap { trading_pair: TradingPair },
    SwapClaim { height: u64, trading_pair: TradingPair },
    DelegatorVote { proposal: u64, vote: Vote, power: u64 },
    Ics20Withdrawal { channel: u64, asset: u64, amount: u64 },
    ChannelOpenInit { channel_id: u64, connection_id: u64 },
    ChannelOpenConfirm { channel_id: u64, counterparty_channel: u64, connection_id: u64 },
    CreateClient { client_id: u64, consensus_height: u64 },
}

/// The event that executing `a` on `s` records.
pub open spec fn event_of(a: Action, s: ChainView) -> Event {
    match a {
        Action::Spend(_) => Event::Spend,
        Action::Output(_) => Event::Output,
        Action::Swap(w) => Event::Swap { trading_pair: w.trading_pair },
        Action::SwapClaim(c) => Event::SwapClaim { height: c.output_data.height, trading_pair: c.output_data.trading_pair },
        Action::DelegatorVote(d) => Event::DelegatorVote { proposal: d.proposal, vote: d.vote, power: d.unbonded_amount },
        Action::Ics20Withdrawal(w) => Event::Ics20Withdrawal { channel: w.source_channel, asset: w.asset, amount: w.amount },
        Action::ChannelOpenInit(m) => Event::ChannelOpenInit {
            channel_id: s.ibc.channel_counter,
            connection_id: m.connection_hops_on_a@[0],
        },
        Action::ChannelOpenConfirm(m) => {
            let c = record_at(s.ibc.channels, m.chan_id_on_b, m.port_id_on_b@)->Some_0;
            Event::ChannelOpenConfirm {
                channel_id: m.chan_id_on_b,
                counterparty_channel: c.end.counterparty_channel->Some_0,
                connection_id: c.end.connection_hops[0],
            }
        },
        Action::CreateClient(m) => Event::CreateClient {
            client_id: s.ibc.client_counter,
            consensus_height: m.client_state->height,
        },
    }
}

/// The chain state that actions read and change.
pub struct ChainState {
    pub block_height: u64,
    pub epoch_duration: u64,
    pub spent: Vec<SpentNullifier>,
    /// Accepted note commitment tree roots, oldest first.
    pub anchors: Vec<Vec<u8>>,
    /// Note and swap commitments added to the tree, in order.
    pub commitments: Vec<Vec<u8>>,
    pub output_data: Vec<BatchSwapOutputData>,
    pub proposals: Vec<Proposal>,
    pub rates: Vec<ProposalRate>,
    pub votes: Vec<VoteRecord>,
    pub outbound: Vec<OutboundPacket>,
    pub fmd_previous: FmdParameters,
    pub fmd_current: FmdParameters,
    pub ibc: IbcState,
    /// The events of the executed actions, in order.
    pub events: Vec<Event>,
}

/// The chain state as plain values.
pub struct ChainView {
    pub block_height: u64,
    pub epoch_duration: u64,
    pub spent: Seq<(Seq<u8>, u64)>,
    pub anchors: Seq<Seq<u8>>,
    pub commitments: Seq<Seq<u8>>,
    pub output_data: Seq<BatchSwapOutputData>,
    pub proposals: Seq<Proposal>,
    pub rates: Seq<ProposalRate>,
    pub votes: Seq<(u64, Seq<u8>, u64, Vote, u64)>,
    pub outbound: Seq<OutboundPacket>,
    pub fmd_previous: FmdParameters,
    pub fmd_current: FmdParameters,
    pub ibc: IbcView,
    pub events: Seq<Event>,
}

impl View for ChainState {
    type V = ChainView;

    open spec fn view(&self) -> ChainView {
        ChainView {
            block_height: self.block_height,
            epoch_duration: self.epoch_duration,
            spent: self.spent@.map_values(|r: SpentNullifier| r@),
            anchors: self.anchors@.map_values(|a: Vec<u8>| a@),
            commitments: self.commitments@.map_values(|c: Vec<u8>| c@),
            output_data: self.output_data@,
            proposals: self.proposals@,
            rates: self.rates@,
            votes: self.votes@.map_values(|v: VoteRecord| v@),
            outbound: self.outbound@,
            fmd_previous: self.fmd_previous,
            fmd_current: self.fmd_current,
            ibc: self.ibc@,
            events: self.events@,
        }
    }
}

/// Why an action or a transaction was refused.
#[derive(Clone, Copy, Debug, PartialEq, Eq, Structural)]
pub enum ActionError {
    BadSignature,
    BadProof,
    NullifierSpent,
    EpochDurationMismatch,
    OutputDataNotFound,
    OutputDataMismatch,
    ProposalNotVotable,
    StartPositionMismatch,
    NullifierSpentBeforeProposal,
    AlreadyVoted,
    UnknownDelegation,
    UnbondedAmountMismatch,
    ZeroTimeoutHeight,
    ZeroTimeoutTime,
    InvalidSourcePort,
    CounterExhausted,
    Ibc(IbcError),
    VerdictCount,
    Expired,
    InvalidFmdPrecision,
    UnknownAnchor,
}

/// What the cryptographic checks of one action found: whether its
/// authorization signature verified over the effect hash, and whether its
/// proof verified against its public inputs and the claimed anchor.
#[derive(Clone, Copy, Debug, PartialEq, Eq, Structural)]
pub struct Verdict {
    pub signature_ok: bool,
    pub proof_ok: bool,
}

/// Records of nullifier `n`.
pub open spec fn spent_is(n: Seq<u8>) -> spec_fn((Seq<u8>, u64)) -> bool {
    |r: (Seq<u8>, u64)| r.0 == n
}

/// Batch outcomes of `pair` at `height`.
pub open spec fn output_is(height: u64, pair: TradingPair) -> spec_fn(BatchSwapOutputData) -> bool {
    |o: BatchSwapOutputData| o.height == height && o.trading_pair == pair
}

/// Proposals numbered `id`.
pub open spec fn proposal_is(id: u64) -> spec_fn(Proposal) -> bool {
    |p: Proposal| p.id == id
}

/// Rates of `asset` for `proposal`.
pub open spec fn rate_is(proposal: u64, asset: u64) -> spec_fn(ProposalRate) -> bool {
    |r: ProposalRate| r.proposal == proposal && r.delegation_asset == asset
}

/// Votes of nullifier `n` on `proposal`.
pub open spec fn vote_is(proposal: u64, n: Seq<u8>) -> spec_fn((u64, Seq<u8>, u64, Vote, u64)) -> bool {
    |v: (u64, Seq<u8>, u64, Vote, u64)| v.0 == proposal && v.1 == n
}

/// The height at which nullifier `n` was spent, if it was.
pub open spec fn spent_height(s: ChainView, n: Seq<u8>) -> Option<u64> {
    match first_match(s.spent, spent_is(n)) {
        Some(r) => Some(r.1),
        None => None,
    }
}

/// The batch swap outcome recorded for `height` and `pair`.
pub open spec fn recorded_output(s: ChainView, height: u64, pair: TradingPair) -> Option<BatchSwapOutputData> {
    first_match(s.output_data, output_is(height, pair))
}

/// Proposal `id`.
pub open spec fn proposal_of(s: ChainView, id: u64) -> Option<Proposal> {
    first_match(s.proposals, proposal_is(id))
}

/// The exchange rate recorded for `asset` when proposal `proposal` started.
pub open spec fn rate_of(s: ChainView, proposal: u64, asset: u64) -> Option<ProposalRate> {
    first_match(s.rates, rate_is(proposal, asset))
}

/// Whether nullifier `n` already voted on `proposal`.
pub open spec fn voted(s: ChainView, proposal: u64, n: Seq<u8>) -> bool {
    first_match(s.votes, vote_is(proposal, n)) is Some
}

/// The unbonded value of `amount` of a delegation asset at `rate`.
pub open spec fn unbonded_of(amount: u64, rate: u64) -> int {
    (amount as int * rate as int) / (RATE_DENOMINATOR as int)
}

/// The first error of the stateless checks of `a`, given its verdict.
pub open spec fn stateless_error(a: Action, v: Verdict) -> Option<ActionError> {
    match a {
        Action::Spend(_) | Action::DelegatorVote(_) => if !v.signature_ok {
            Some(ActionError::BadSignature)
        } else if !v.proof_ok {
            Some(ActionError::BadProof)
        } else {
            None
        },
        Action::Output(_) | Action::Swap(_) | Action::SwapClaim(_) => if !v.proof_ok {
            Some(ActionError::BadProof)
        } else {
            None
        },
        Action::Ics20Withdrawal(w) => if w.timeout_height == 0 {
            Some(ActionError::ZeroTimeoutHeight)
        } else if w.timeout_time == 0 {
            Some(ActionError::ZeroTimeoutTime)
        } else if w.source_port@ != crate::ibc::transfer_port() {
            Some(ActionError::InvalidSourcePort)
        } else {
            None
        },
        Action::ChannelOpenInit(m) => if m.connection_hops_on_a@.len() != 1 {
            Some(ActionError::Ibc(IbcError::ConnectionHops))
        } else {
            None
        },
        Action::ChannelOpenConfirm(_) => None,
        Action::CreateClient(m) => if !(m.client_state is Tendermint && m.consensus_state is Tendermint) {
            Some(ActionError::Ibc(IbcError::NotTendermint))
        } else {
            None
        },
    }
}

/// The first error of the stateful checks of `a` on `s`; `proof_ok` is the
/// outcome of the counterparty proof that a channel-open-confirm carries.
pub open spec fn stateful_error(a: Action, s: ChainView, proof_ok: bool) -> Option<ActionError> {
    match a {
        Action::Spend(sp) => if spent_height(s, sp.body.nullifier@) is Some {
            Some(ActionError::NullifierSpent)
        } else {
            None
        },
        Action::Output(_) | Action::Swap(_) | Action::Ics20Withdrawal(_) => None,
        Action::SwapClaim(c) => if spent_height(s, c.nullifier@) is Some {
            Some(ActionError::NullifierSpent)
        } else if c.epoch_duration != s.epoch_duration {
            Some(ActionError::EpochDurationMismatch)
        } else if recorded_output(s, c.output_data.height, c.output_data.trading_pair) is None {
            Some(ActionError::OutputDataNotFound)
        } else if recorded_output(s, c.output_data.height, c.output_data.trading_pair) != Some(
            c.output_data,
        ) {
            Some(ActionError::OutputDataMismatch)
        } else {
            None
        },
        Action::DelegatorVote(d) => match proposal_of(s, d.proposal) {
            None => Some(ActionError::ProposalNotVotable),
            Some(p) => if !p.votable {
                Some(ActionError::ProposalNotVotable)
            } else if p.start_position != d.start_position {
                Some(ActionError::StartPositionMismatch)
            } else if spent_height(s, d.nullifier@) matches Some(h) && h < p.start_height {
                Some(ActionError::NullifierSpentBeforeProposal)
            } else if voted(s, d.proposal, d.nullifier@) {
                Some(ActionError::AlreadyVoted)
            } else if rate_of(s, d.proposal, d.delegation_asset) is None {
                Some(ActionError::UnknownDelegation)
            } else if d.unbonded_amount != unbonded_of(
                d.value_amount,
                rate_of(s, d.proposal, d.delegation_asset)->Some_0.exchange_rate,
            ) {
                Some(ActionError::UnbondedAmountMismatch)
            } else {
                None
            },
        },
        Action::ChannelOpenInit(m) => if m.connection_hops_on_a@.len() == 0 {
            Some(ActionError::Ibc(IbcError::ConnectionHops))
        } else if s.ibc.channel_counter == u64::MAX {
            Some(ActionError::CounterExhausted)
        } else {
            match open_init_outcome(s.ibc, m) {
                Err(e) => Some(ActionError::Ibc(e)),
                Ok(_) => None,
            }
        },
        Action::ChannelOpenConfirm(m) => match open_confirm_outcome(s.ibc, m, proof_ok) {
            Err(e) => Some(ActionError::Ibc(e)),
            Ok(_) => None,
        },
        Action::CreateClient(m) => if s.ibc.client_counter == u64::MAX {
            Some(ActionError::CounterExhausted)
        } else if !(m.client_state is Tendermint && m.consensus_state is Tendermint) {
            Some(ActionError::Ibc(IbcError::NotTendermint))
        } else {
            None
        },
    }
}

/// The state after executing `a` on `s`, where its stateful checks passed:
/// its effect, and its event recorded.
pub open spec fn executed(a: Action, s: ChainView) -> ChainView {
    ChainView { events: s.events.push(event_of(a, s)), ..effect_of(a, s) }
}

/// The effect of executing `a` on `s`, apart from its event.
pub open spec fn effect_of(a: Action, s: ChainView) -> ChainView {
    match a {
        Action::Spend(sp) => ChainView { spent: s.spent.push((sp.body.nullifier@, s.block_height)), ..s },
        Action::Output(o) => ChainView { commitments: s.commitments.push(o.body.note_commitment@), ..s },
        Action::Swap(w) => ChainView { commitments: s.commitments.push(w.swap_commitment@), ..s },
        Action::SwapClaim(c) => ChainView {
            commitments: s.commitments.push(c.output_1_commitment@).push(c.output_2_commitment@),
            spent: s.spent.push((c.nullifier@, s.block_height)),
            ..s
        },
        Action::DelegatorVote(d) => ChainView {
            votes: s.votes.push(
                (
                    d.proposal,
                    d.nullifier@,
                    rate_of(s, d.proposal, d.delegation_asset)->Some_0.validator,
                    d.vote,
                    d.unbonded_amount,
                ),
            ),
            ..s
        },
        Action::Ics20Withdrawal(w) => ChainView {
            outbound: s.outbound.push(
                OutboundPacket {
                    channel: w.source_channel,
                    asset: w.asset,
                    amount: w.amount,
                    timeout_height: w.timeout_height,
                    timeout_time: w.timeout_time,
                },
            ),
            ..s
        },
        Action::ChannelOpenInit(m) => ChainView {
            ibc: IbcView {
                channels: s.ibc.channels.push(open_init_record(s.ibc, m)),
                channel_counter: (s.ibc.channel_counter + 1) as u64,
                ..s.ibc
            },
            ..s
        },
        Action::ChannelOpenConfirm(m) => {
            let c = record_at(s.ibc.channels, m.chan_id_on_b, m.port_id_on_b@)->Some_0;
            ChainView {
                ibc: IbcView {
                    channels: s.ibc.channels.push(
                        ChannelRecordView { end: ChannelEndView { state: ChannelState::Open, ..c.end }, ..c },
                    ),
                    ..s.ibc
                },
                ..s
            }
        },
        Action::CreateClient(m) => ChainView {
            ibc: IbcView {
                clients: s.ibc.clients.push(
                    Client { client_id: s.ibc.client_counter, latest_height: m.client_state->height },
                ),
                consensus_states: s.ibc.consensus_states.push(
                    ConsensusRecord { client_id: s.ibc.client_counter, height: m.client_state->height },
                ),
                client_counter: (s.ibc.client_counter + 1) as u64,
                ..s.ibc
            },
            ..s
        },
    }
}


/// The height at which nullifier `n` was spent, if it was.
pub fn find_spent(st: &ChainState, n: &Vec<u8>) -> (r: Option<u64>)
    ensures
        r == spent_height(st@, n@),
{
    let ghost p = spent_is(n@);
    let ghost s = st@.spent;
    let mut i: usize = 0;
    assert(s.subrange(0, 0) =~= Seq::<(Seq<u8>, u64)>::empty());
    while i < st.spent.len()
        invariant
            p == spent_is(n@),
            s == st@.spent,
            0 <= i <= s.len(),
            first_match(s.subrange(0, i as int), p) is None,
        decreases s.len() - i,
    {
        proof { lemma_first_match_step(s, i as int, p); }
        if bytes_eq(&st.spent[i].nullifier, n) {
            proof { lemma_first_match_prefix(s, i + 1, p); }
            return Some(st.spent[i].height);
        }
        i = i + 1;
    }
    proof { lemma_full_prefix(s); }
    None
}

/// The batch swap outcome recorded for `height` and `pair`.
pub fn find_output_data(st: &ChainState, height: u64, pair: TradingPair) -> (r: Option<BatchSwapOutputData>)
    ensures
        r == recorded_output(st@, height, pair),
{
    let ghost p = output_is(height, pair);
    let ghost s = st@.output_data;
    let mut i: usize = 0;
    assert(s.subrange(0, 0) =~= Seq::<BatchSwapOutputData>::empty());
    while i < st.output_data.len()
        invariant
            p == output_is(height, pair),
            s == st@.output_data,
            0 <= i <= s.len(),
            first_match(s.subrange(0, i as int), p) is None,
        decreases s.len() - i,
    {
        proof { lemma_first_match_step(s, i as int, p); }
        let o = st.output_data[i];
        if o.height == height && o.trading_pair == pair {
            proof { lemma_first_match_prefix(s, i + 1, p); }
            return Some(o);
        }
        i = i + 1;
    }
    proof { lemma_full_prefix(s); }
    None
}

/// Proposal `id`.
pub fn find_proposal(st: &ChainState, id: u64) -> (r: Option<Proposal>)
    ensures
        r == proposal_of(st@, id),
{
    let ghost p = proposal_is(id);
    let ghost s = st@.proposals;
    let mut i: usize = 0;
    assert(s.subrange(0, 0) =~= Seq::<Proposal>::empty());
    while i < st.proposals.len()
        invariant
            p == proposal_is(id),
            s == st@.proposals,
            0 <= i <= s.len(),
            first_match(s.subrange(0, i as int), p) is None,
        decreases s.len() - i,
    {
        proof { lemma_first_match_step(s, i as int, p); }
        let q = st.proposals[i];
        if q.id == id {
            proof { lemma_first_match_prefix(s, i + 1, p); }
            return Some(q);
        }
        i = i + 1;
    }
    proof { lemma_full_prefix(s); }
    None
}

/// The exchange rate recorded for `asset` when proposal `proposal` started.
pub fn find_rate(st: &ChainState, proposal: u64, asset: u64) -> (r: Option<ProposalRate>)
    ensures
        r == rate_of(st@, proposal, asset),
{
    let ghost p = rate_is(proposal, asset);
    let ghost s = st@.rates;
    let mut i: usize = 0;
    assert(s.subrange(0, 0) =~= Seq::<ProposalRate>::empty());
    while i < st.rates.len()
        invariant
            p == rate_is(proposal, asset),
            s == st@.rates,
            0 <= i <= s.len(),
            first_match(s.subrange(0, i as int), p) is None,
        decreases s.len() - i,
    {
        proof { lemma_first_match_step(s, i as int, p); }
        let q = st.rates[i];
        if q.proposal == proposal && q.delegation_asset == asset {
            proof { lemma_first_match_prefix(s, i + 1, p); }
            return Some(q);
        }
        i = i + 1;
    }
    proof { lemma_full_prefix(s); }
    None
}

/// Whether nullifier `n` already voted on `proposal`.
pub fn has_voted(st: &ChainState, proposal: u64, n: &Vec<u8>) -> (r: bool)
    ensures
        r == voted(st@, proposal, n@),
{
    let ghost p = vote_is(proposal, n@);
    let ghost s = st@.votes;
    let mut i: usize = 0;
    assert(s.subrange(0, 0) =~= Seq::<(u64, Seq<u8>, u64, Vote, u64)>::empty());
    while i < st.votes.len()
        invariant
            p == vote_is(proposal, n@),
            s == st@.votes,
            0 <= i <= s.len(),
            first_match(s.subrange(0, i as int), p) is None,
        decreases s.len() - i,
    {
        proof { lemma_first_match_step(s, i as int, p); }
        if st.votes[i].proposal == proposal && bytes_eq(&st.votes[i].nullifier, n) {
            proof { lemma_first_match_prefix(s, i + 1, p); }
            return true;
        }
        i = i + 1;
    }
    proof { lemma_full_prefix(s); }
    false
}

/// The unbonded value of `amount` of a delegation asset at `rate`.
pub fn unbonded_amount(amount: u64, rate: u64) -> (r: u128)
    ensures
        r == unbonded_of(amount, rate),
{
    let a = amount as u128;
    let b = rate as u128;
    assert(a * b <= u64::MAX as int * u64::MAX as int) by (nonlinear_arith)
        requires
            a <= u64::MAX,
            b <= u64::MAX,
    ;
    (a * b) / (RATE_DENOMINATOR as u128)
}


/// `Ok` where there is no error.
pub open spec fn as_result(e: Option<ActionError>) -> Result<(), ActionError> {
    match e {
        Some(e) => Err(e),
        None => Ok(()),
    }
}

impl crate::transaction::Ics20Withdrawal {
    /// Stateless validation: nonzero timeouts, and the "transfer" source port.
    pub fn validate(&self) -> (r: Result<(), ActionError>)
        ensures
            r == (if self.timeout_height == 0 {
                Err::<(), ActionError>(ActionError::ZeroTimeoutHeight)
            } else if self.timeout_time == 0 {
                Err(ActionError::ZeroTimeoutTime)
            } else if self.source_port@ != crate::ibc::transfer_port() {
                Err(ActionError::InvalidSourcePort)
            } else {
                Ok(())
            }),
    {
        if self.timeout_height == 0 {
            return Err(ActionError::ZeroTimeoutHeight);
        }
        if self.timeout_time == 0 {
            return Err(ActionError::ZeroTimeoutTime);
        }
        if !crate::ibc::is_transfer_port(&self.source_port) {
            return Err(ActionError::InvalidSourcePort);
        }
        Ok(())
    }
}

/// The stateless checks of an action, given what its cryptographic checks
/// found. They read no state.
pub fn check_stateless(a: &Action, v: Verdict) -> (r: Result<(), ActionError>)
    ensures
        r == as_result(stateless_error(*a, v)),
{
    match a {
        Action::Spend(_) | Action::DelegatorVote(_) => {
            if !v.signature_ok {
                return Err(ActionError::BadSignature);
            }
            if !v.proof_ok {
                return Err(ActionError::BadProof);
            }
            Ok(())
        },
        Action::Output(_) | Action::Swap(_) | Action::SwapClaim(_) => {
            if !v.proof_ok {
                return Err(ActionError::BadProof);
            }
            Ok(())
        },
        Action::Ics20Withdrawal(w) => w.validate(),
        Action::ChannelOpenInit(m) => match channel_open_init_check_stateless(m) {
            Ok(()) => Ok(()),
            Err(e) => Err(ActionError::Ibc(e)),
        },
        Action::ChannelOpenConfirm(_) => Ok(()),
        Action::CreateClient(m) => match create_client_check_stateless(m) {
            Ok(()) => Ok(()),
            Err(e) => Err(ActionError::Ibc(e)),
        },
    }
}

/// The stateful checks of an action: read-only, against the current state.
/// `proof_ok` is the outcome of the counterparty proof that a
/// channel-open-confirm carries, and is read by no other action.
pub fn check_stateful(a: &Action, st: &ChainState, proof_ok: bool) -> (r: Result<(), ActionError>)
    ensures
        r == as_result(stateful_error(*a, st@, proof_ok)),
{
    match a {
        Action::Spend(sp) => {
            if find_spent(st, &sp.body.nullifier).is_some() {
                return Err(ActionError::NullifierSpent);
            }
            Ok(())
        },
        Action::Output(_) | Action::Swap(_) | Action::Ics20Withdrawal(_) => Ok(()),
        Action::SwapClaim(c) => {
            if find_spent(st, &c.nullifier).is_some() {
                return Err(ActionError::NullifierSpent);
            }
            if c.epoch_duration != st.epoch_duration {
                return Err(ActionError::EpochDurationMismatch);
            }
            match find_output_data(st, c.output_data.height, c.output_data.trading_pair) {
                None => {
                    return Err(ActionError::OutputDataNotFound);
                },
                Some(o) => {
                    if o != c.output_data {
                        return Err(ActionError::OutputDataMismatch);
                    }
                },
            }
            Ok(())
        },
        Action::DelegatorVote(d) => {
            let p = match find_proposal(st, d.proposal) {
                None => {
                    return Err(ActionError::ProposalNotVotable);
                },
                Some(p) => p,
            };
            if !p.votable {
                return Err(ActionError::ProposalNotVotable);
            }
            if p.start_position != d.start_position {
                return Err(ActionError::StartPositionMismatch);
            }
            match find_spent(st, &d.nullifier) {
                Some(h) => {
                    if h < p.start_height {
                        return Err(ActionError::NullifierSpentBeforeProposal);
                    }
                },
                None => {},
            }
            if has_voted(st, d.proposal, &d.nullifier) {
                return Err(ActionError::AlreadyVoted);
            }
            let rate = match find_rate(st, d.proposal, d.delegation_asset) {
                None => {
                    return Err(ActionError::UnknownDelegation);
                },
                Some(r) => r,
            };
            if d.unbonded_amount as u128 != unbonded_amount(d.value_amount, rate.exchange_rate) {
                return Err(ActionError::UnbondedAmountMismatch);
            }
            Ok(())
        },
        Action::ChannelOpenInit(m) => {
            if m.connection_hops_on_a.len() == 0 {
                return Err(ActionError::Ibc(IbcError::ConnectionHops));
            }
            if st.ibc.channel_counter == u64::MAX {
                return Err(ActionError::CounterExhausted);
            }
            match crate::ibc::channel_open_init_check(&st.ibc, m) {
                Err(e) => Err(ActionError::Ibc(e)),
                Ok(_) => Ok(()),
            }
        },
        Action::ChannelOpenConfirm(m) => match crate::ibc::channel_open_confirm_check(&st.ibc, m, proof_ok) {
            Err(e) => Err(ActionError::Ibc(e)),
            Ok(_) => Ok(()),
        },
        Action::CreateClient(m) => {
            if st.ibc.client_counter == u64::MAX {
                return Err(ActionError::CounterExhausted);
            }
            match (m.client_state, m.consensus_state) {
                (LightClientState::Tendermint { .. }, LightClientState::Tendermint { .. }) => Ok(()),
                _ => Err(ActionError::Ibc(IbcError::NotTendermint)),
            }
        },
    }
}


/// Applies an action whose stateful checks passed. It cannot fail.
pub fn execute(a: &Action, st: &mut ChainState)
    requires
        stateful_error(*a, old(st)@, true) is None,
    ensures
        final(st)@ == executed(*a, old(st)@),
{
    let ghost s0 = st@;
    let ev = event_for(a, st);
    match a {
        Action::Spend(sp) => {
            st.spent.push(SpentNullifier { nullifier: copy_bytes(&sp.body.nullifier), height: st.block_height });
            assert(st@.spent =~= s0.spent.push((sp.body.nullifier@, s0.block_height)));
        },
        Action::Output(o) => {
            st.commitments.push(copy_bytes(&o.body.note_commitment));
            assert(st@.commitments =~= s0.commitments.push(o.body.note_commitment@));
        },
        Action::Swap(w) => {
            st.commitments.push(copy_bytes(&w.swap_commitment));
            assert(st@.commitments =~= s0.commitments.push(w.swap_commitment@));
        },
        Action::SwapClaim(c) => {
            st.commitments.push(copy_bytes(&c.output_1_commitment));
            st.commitments.push(copy_bytes(&c.output_2_commitment));
            st.spent.push(SpentNullifier { nullifier: copy_bytes(&c.nullifier), height: st.block_height });
            assert(st@.commitments =~= s0.commitments.push(c.output_1_commitment@).push(c.output_2_commitment@));
            assert(st@.spent =~= s0.spent.push((c.nullifier@, s0.block_height)));
        },
        Action::DelegatorVote(d) => {
            let rate = find_rate(st, d.proposal, d.delegation_asset);
            if let Some(rate) = rate {
                st.votes.push(
                    VoteRecord {
                        proposal: d.proposal,
                        nullifier: copy_bytes(&d.nullifier),
                        validator: rate.validator,
                        vote: d.vote,
                        power: d.unbonded_amount,
                    },
                );
                assert(st@.votes =~= s0.votes.push(
                    (d.proposal, d.nullifier@, rate.validator, d.vote, d.unbonded_amount),
                ));
            }
        },
        Action::Ics20Withdrawal(w) => {
            st.outbound.push(
                OutboundPacket {
                    channel: w.source_channel,
                    asset: w.asset,
                    amount: w.amount,
                    timeout_height: w.timeout_height,
                    timeout_time: w.timeout_time,
                },
            );
        },
        Action::ChannelOpenInit(m) => {
            let _ = channel_open_init(&mut st.ibc, m);
        },
        Action::ChannelOpenConfirm(m) => {
            let _ = channel_open_confirm(&mut st.ibc, m, true);
        },
        Action::CreateClient(m) => {
            let _ = create_client(&mut st.ibc, m);
        },
    }
    let ghost s1 = st@;
    st.events.push(ev);
    assert(st@.events =~= s0.events.push(event_of(*a, s0)));
    assert(s1 == effect_of(*a, s0));
}

/// The event that executing `a` on the current state records.
pub fn event_for(a: &Action, st: &ChainState) -> (r: Event)
    requires
        stateful_error(*a, st@, true) is None,
    ensures
        r == event_of(*a, st@),
{
    match a {
        Action::Spend(_) => Event::Spend,
        Action::Output(_) => Event::Output,
        Action::Swap(w) => Event::Swap { trading_pair: w.trading_pair },
        Action::SwapClaim(c) => Event::SwapClaim { height: c.output_data.height, trading_pair: c.output_data.trading_pair },
        Action::DelegatorVote(d) => Event::DelegatorVote { proposal: d.proposal, vote: d.vote, power: d.unbonded_amount },
        Action::Ics20Withdrawal(w) => Event::Ics20Withdrawal { channel: w.source_channel, asset: w.asset, amount: w.amount },
        Action::ChannelOpenInit(m) => Event::ChannelOpenInit {
            channel_id: st.ibc.channel_counter,
            connection_id: m.connection_hops_on_a[0],
        },
        Action::ChannelOpenConfirm(m) => {
            let found = crate::ibc::get_channel(&st.ibc, m.chan_id_on_b, &m.port_id_on_b);
            match found {
                Some(c) => {
                    let cp = match c.end.counterparty_channel {
                        Some(x) => x,
                        None => 0,
                    };
                    Event::ChannelOpenConfirm {
                        channel_id: m.chan_id_on_b,
                        counterparty_channel: cp,
                        connection_id: c.end.connection_hops[0],
                    }
                },
                None => Event::Spend,
            }
        },
        Action::CreateClient(m) => {
            let h = match m.client_state {
                LightClientState::Tendermint { height } => height,
                LightClientState::Other => 0,
            };
            Event::CreateClient { client_id: st.ibc.client_counter, consensus_height: h }
        },
    }
}


/// A copy of a list of plain values.
pub fn copy_vec<T: Copy>(v: &Vec<T>) -> (r: Vec<T>)
    ensures
        r@ == v@,
{
    let mut r: Vec<T> = Vec::new();
    let mut i: usize = 0;
    while i < v.len()
        invariant
            0 <= i <= v@.len(),
            r@ =~= v@.subrange(0, i as int),
        decreases v@.len() - i,
    {
        r.push(v[i]);
        i = i + 1;
    }
    assert(v@.subrange(0, v@.len() as int) =~= v@);
    r
}

/// A copy of a list of byte strings.
pub fn copy_byte_list(v: &Vec<Vec<u8>>) -> (r: Vec<Vec<u8>>)
    ensures
        r@.map_values(|a: Vec<u8>| a@) == v@.map_values(|a: Vec<u8>| a@),
{
    let mut r: Vec<Vec<u8>> = Vec::new();
    let mut i: usize = 0;
    while i < v.len()
        invariant
            0 <= i <= v@.len(),
            r@.map_values(|a: Vec<u8>| a@) =~= v@.map_values(|a: Vec<u8>| a@).subrange(0, i as int),
        decreases v@.len() - i,
    {
        let ghost before = r@;
        r.push(copy_bytes(&v[i]));
        assert(r@.map_values(|a: Vec<u8>| a@) =~= before.map_values(|a: Vec<u8>| a@).push(v@[i as int]@));
        assert(v@.map_values(|a: Vec<u8>| a@).subrange(0, i + 1) =~= v@.map_values(|a: Vec<u8>| a@).subrange(
            0,
            i as int,
        ).push(v@[i as int]@));
        i = i + 1;
    }
    assert(v@.map_values(|a: Vec<u8>| a@).subrange(0, v@.len() as int) =~= v@.map_values(|a: Vec<u8>| a@));
    r
}

/// A copy of the chain state.
pub fn copy_state(st: &ChainState) -> (r: ChainState)
    ensures
        r@ == st@,
{
    let mut spent: Vec<SpentNullifier> = Vec::new();
    let mut i: usize = 0;
    while i < st.spent.len()
        invariant
            0 <= i <= st.spent@.len(),
            spent@.map_values(|r: SpentNullifier| r@) =~= st@.spent.subrange(0, i as int),
        decreases st.spent@.len() - i,
    {
        let ghost before = spent@;
        spent.push(SpentNullifier { nullifier: copy_bytes(&st.spent[i].nullifier), height: st.spent[i].height });
        assert(spent@.map_values(|r: SpentNullifier| r@) =~= before.map_values(|r: SpentNullifier| r@).push(
            st@.spent[i as int],
        ));
        assert(st@.spent.subrange(0, i + 1) =~= st@.spent.subrange(0, i as int).push(st@.spent[i as int]));
        i = i + 1;
    }
    let mut votes: Vec<VoteRecord> = Vec::new();
    let mut j: usize = 0;
    while j < st.votes.len()
        invariant
            0 <= j <= st.votes@.len(),
            votes@.map_values(|v: VoteRecord| v@) =~= st@.votes.subrange(0, j as int),
        decreases st.votes@.len() - j,
    {
        let v = &st.votes[j];
        let ghost before = votes@;
        votes.push(
            VoteRecord {
                proposal: v.proposal,
                nullifier: copy_bytes(&v.nullifier),
                validator: v.validator,
                vote: v.vote,
                power: v.power,
            },
        );
        assert(votes@.map_values(|v: VoteRecord| v@) =~= before.map_values(|v: VoteRecord| v@).push(
            st@.votes[j as int],
        ));
        assert(st@.votes.subrange(0, j + 1) =~= st@.votes.subrange(0, j as int).push(st@.votes[j as int]));
        j = j + 1;
    }
    let mut channels: Vec<ChannelRecord> = Vec::new();
    let mut k: usize = 0;
    while k < st.ibc.channels.len()
        invariant
            0 <= k <= st.ibc.channels@.len(),
            channels@.map_values(|c: ChannelRecord| c@) =~= st@.ibc.channels.subrange(0, k as int),
        decreases st.ibc.channels@.len() - k,
    {
        let c = &st.ibc.channels[k];
        let ghost before = channels@;
        channels.push(
            ChannelRecord {
                channel_id: c.channel_id,
                port: copy_bytes(&c.port),
                end: crate::ibc::copy_end(&c.end),
                next_send: c.next_send,
                next_recv: c.next_recv,
                next_ack: c.next_ack,
            },
        );
        assert(channels@.map_values(|c: ChannelRecord| c@) =~= before.map_values(|c: ChannelRecord| c@).push(
            st@.ibc.channels[k as int],
        ));
        assert(st@.ibc.channels.subrange(0, k + 1) =~= st@.ibc.channels.subrange(0, k as int).push(
            st@.ibc.channels[k as int],
        ));
        k = k + 1;
    }
    assert(st@.spent.subrange(0, st@.spent.len() as int) =~= st@.spent);
    assert(st@.votes.subrange(0, st@.votes.len() as int) =~= st@.votes);
    assert(st@.ibc.channels.subrange(0, st@.ibc.channels.len() as int) =~= st@.ibc.channels);
    let ibc = IbcState {
        channels,
        connections: copy_vec(&st.ibc.connections),
        clients: copy_vec(&st.ibc.clients),
        consensus_states: copy_vec(&st.ibc.consensus_states),
        channel_counter: st.ibc.channel_counter,
        client_counter: st.ibc.client_counter,
    };
    ChainState {
        block_height: st.block_height,
        epoch_duration: st.epoch_duration,
        spent,
        anchors: copy_byte_list(&st.anchors),
        commitments: copy_byte_list(&st.commitments),
        output_data: copy_vec(&st.output_data),
        proposals: copy_vec(&st.proposals),
        rates: copy_vec(&st.rates),
        votes,
        outbound: copy_vec(&st.outbound),
        fmd_previous: st.fmd_previous,
        fmd_current: st.fmd_current,
        ibc,
        events: copy_vec(&st.events),
    }
}


/// Whether every clue of `tx` uses an accepted precision at `block_height`.
pub open spec fn fmd_ok(tx: Transaction, previous: FmdParameters, current: FmdParameters, block_height: u64) -> bool {
    forall|i: int|
        0 <= i < tx.clue_precisions().len() ==> clue_precision_ok(
            #[trigger] tx.clue_precisions()[i],
            previous,
            current,
            block_height,
        )
}

/// Clues must use the current detection precision, or the previous one
/// within the grace period after it took effect.
pub fn fmd_precision_within_grace_period(
    tx: &Transaction,
    previous: FmdParameters,
    current: FmdParameters,
    block_height: u64,
) -> (r: Result<(), ActionError>)
    ensures
        r is Ok <==> fmd_ok(*tx, previous, current, block_height),
        r is Err ==> r == Err::<(), ActionError>(ActionError::InvalidFmdPrecision),
{
    match &tx.body.detection_data {
        None => Ok(()),
        Some(d) => {
            let mut i: usize = 0;
            while i < d.fmd_clues.len()
                invariant
                    tx.body.detection_data == Some(*d),
                    0 <= i <= d.fmd_clues@.len(),
                    forall|j: int|
                        0 <= j < i ==> clue_precision_ok(
                            #[trigger] tx.clue_precisions()[j],
                            previous,
                            current,
                            block_height,
                        ),
                decreases d.fmd_clues@.len() - i,
            {
                let p = d.fmd_clues[i].precision_bits;
                let in_grace = block_height < previous.as_of_block_height || block_height
                    - previous.as_of_block_height < FMD_GRACE_PERIOD_BLOCKS;
                if !(p == current.precision_bits || (p == previous.precision_bits && in_grace)) {
                    assert(tx.clue_precisions()[i as int] == p);
                    return Err(ActionError::InvalidFmdPrecision);
                }
                i = i + 1;
            }
            Ok(())
        },
    }
}

/// Whether `anchor` is one of the latest accepted note commitment tree roots.
pub open spec fn anchor_ok(s: ChainView, anchor: Seq<u8>) -> bool {
    exists|i: int|
        s.anchors.len() - ANCHOR_WINDOW <= i < s.anchors.len() && 0 <= i && #[trigger] s.anchors[i] == anchor
}

/// Whether the claimed anchor is among the latest accepted roots.
pub fn claimed_anchor_is_valid(st: &ChainState, anchor: &Vec<u8>) -> (r: bool)
    ensures
        r == anchor_ok(st@, anchor@),
{
    let n = st.anchors.len();
    let mut i: usize = if (n as u64) > ANCHOR_WINDOW {
        n - ANCHOR_WINDOW as usize
    } else {
        0
    };
    let ghost lo = i;
    while i < n
        invariant
            n == st.anchors@.len(),
            lo <= i <= n,
            lo == (if n > ANCHOR_WINDOW { n - ANCHOR_WINDOW } else { 0 }),
            forall|j: int| lo <= j < i ==> st@.anchors[j] != anchor@,
        decreases n - i,
    {
        if bytes_eq(&st.anchors[i], anchor) {
            assert(st@.anchors[i as int] == anchor@);
            return true;
        }
        i = i + 1;
    }
    false
}

/// The first stateless error among `acts`, each with its verdict.
pub open spec fn first_stateless_error(acts: Seq<Action>, vs: Seq<Verdict>) -> Option<ActionError>
    decreases acts.len(),
{
    if acts.len() == 0 {
        None
    } else if first_stateless_error(acts.drop_last(), vs) is Some {
        first_stateless_error(acts.drop_last(), vs)
    } else {
        stateless_error(acts.last(), vs[acts.len() - 1])
    }
}

/// Checks and executes `acts` in order on `s`: each action's stateful checks
/// see the effects of the actions before it. The first failure ends the run.
pub open spec fn run(s: ChainView, acts: Seq<Action>, vs: Seq<Verdict>) -> Result<ChainView, ActionError>
    decreases acts.len(),
{
    if acts.len() == 0 {
        Ok(s)
    } else {
        match run(s, acts.drop_last(), vs) {
            Err(e) => Err(e),
            Ok(s1) => match stateful_error(acts.last(), s1, vs[acts.len() - 1].proof_ok) {
                Some(e) => Err(e),
                None => Ok(executed(acts.last(), s1)),
            },
        }
    }
}

/// What applying `tx` to `s` yields: the new state, or the first check that
/// fails, in the order stateless checks, expiry, detection clues, anchor,
/// then each action's stateful checks and effects.
pub open spec fn tx_outcome(s: ChainView, tx: Transaction, vs: Seq<Verdict>) -> Result<ChainView, ActionError> {
    let acts = tx.body.actions@;
    if vs.len() != acts.len() {
        Err(ActionError::VerdictCount)
    } else if first_stateless_error(acts, vs) is Some {
        Err(first_stateless_error(acts, vs)->Some_0)
    } else if tx.body.transaction_parameters.expiry_height != 0
        && tx.body.transaction_parameters.expiry_height < s.block_height {
        Err(ActionError::Expired)
    } else if !fmd_ok(tx, s.fmd_previous, s.fmd_current, s.block_height) {
        Err(ActionError::InvalidFmdPrecision)
    } else if !anchor_ok(s, tx.anchor@) {
        Err(ActionError::UnknownAnchor)
    } else {
        run(s, acts, vs)
    }
}

/// Validates and applies one transaction, atomically: on any failure the
/// state is left as it was. `verdicts[i]` is what the cryptographic checks of
/// action `i` found.
pub fn apply_transaction(st: &mut ChainState, tx: &Transaction, verdicts: &Vec<Verdict>) -> (r: Result<(), ActionError>)
    ensures
        match tx_outcome(old(st)@, *tx, verdicts@) {
            Ok(s) => r == Ok::<(), ActionError>(()) && final(st)@ == s,
            Err(e) => r == Err::<(), ActionError>(e) && final(st)@ == old(st)@,
        },
{
    let acts = &tx.body.actions;
    if verdicts.len() != acts.len() {
        return Err(ActionError::VerdictCount);
    }
    let mut i: usize = 0;
    while i < acts.len()
        invariant
            acts@ == tx.body.actions@,
            verdicts@.len() == acts@.len(),
            0 <= i <= acts@.len(),
            first_stateless_error(acts@.subrange(0, i as int), verdicts@) is None,
        decreases acts@.len() - i,
    {
        assert(acts@.subrange(0, i + 1).drop_last() =~= acts@.subrange(0, i as int));
        assert(acts@.subrange(0, i + 1).last() == acts@[i as int]);
        match check_stateless(&acts[i], verdicts[i]) {
            Err(e) => {
                proof { lemma_stateless_prefix(acts@, verdicts@, i + 1); }
                return Err(e);
            },
            Ok(()) => {},
        }
        i = i + 1;
    }
    assert(acts@.subrange(0, acts@.len() as int) =~= acts@);
    let expiry = tx.body.transaction_parameters.expiry_height;
    if expiry != 0 && expiry < st.block_height {
        return Err(ActionError::Expired);
    }
    if fmd_precision_within_grace_period(tx, st.fmd_previous, st.fmd_current, st.block_height).is_err() {
        return Err(ActionError::InvalidFmdPrecision);
    }
    if !claimed_anchor_is_valid(st, &tx.anchor) {
        return Err(ActionError::UnknownAnchor);
    }
    let mut work = copy_state(st);
    let mut k: usize = 0;
    assert(acts@.subrange(0, 0) =~= Seq::<Action>::empty());
    while k < acts.len()
        invariant
            acts@ == tx.body.actions@,
            verdicts@.len() == acts@.len(),
            0 <= k <= acts@.len(),
            run(st@, acts@.subrange(0, k as int), verdicts@) == Ok::<ChainView, ActionError>(work@),
            st@ == old(st)@,
            tx_outcome(old(st)@, *tx, verdicts@) == run(old(st)@, acts@, verdicts@),
        decreases acts@.len() - k,
    {
        assert(acts@.subrange(0, k + 1).drop_last() =~= acts@.subrange(0, k as int));
        assert(acts@.subrange(0, k + 1).last() == acts@[k as int]);
        match check_stateful(&acts[k], &work, verdicts[k].proof_ok) {
            Err(e) => {
                proof { lemma_run_prefix(st@, acts@, verdicts@, k + 1); }
                return Err(e);
            },
            Ok(()) => {},
        }
        execute(&acts[k], &mut work);
        k = k + 1;
    }
    assert(acts@.subrange(0, acts@.len() as int) =~= acts@);
    *st = work;
    Ok(())
}

/// A stateless error in a prefix is the first stateless error of the whole.
pub proof fn lemma_stateless_prefix(acts: Seq<Action>, vs: Seq<Verdict>, n: int)
    requires
        0 <= n <= acts.len(),
        first_stateless_error(acts.subrange(0, n), vs) is Some,
    ensures
        first_stateless_error(acts, vs) == first_stateless_error(acts.subrange(0, n), vs),
    decreases acts.len() - n,
{
    if n < acts.len() {
        assert(acts.subrange(0, n + 1).drop_last() =~= acts.subrange(0, n));
        lemma_stateless_prefix(acts, vs, n + 1);
    } else {
        assert(acts.subrange(0, n) =~= acts);
    }
}

/// A failed run of a prefix is the failed run of the whole.
pub proof fn lemma_run_prefix(s: ChainView, acts: Seq<Action>, vs: Seq<Verdict>, n: int)
    requires
        0 <= n <= acts.len(),
        run(s, acts.subrange(0, n), vs) is Err,
    ensures
        run(s, acts, vs) == run(s, acts.subrange(0, n), vs),
    decreases acts.len() - n,
{
    if n < acts.len() {
        assert(acts.subrange(0, n + 1).drop_last() =~= acts.subrange(0, n));
        lemma_run_prefix(s, acts, vs, n + 1);
    } else {
        assert(acts.subrange(0, n) =~= acts);
    }
}


/// The nullifier that an action spends, if it spends one.
pub open spec fn spends(a: Action) -> Option<Seq<u8>> {
    match a {
        Action::Spend(sp) => Some(sp.body.nullifier@),
        Action::SwapClaim(c) => Some(c.nullifier@),
        _ => None,
    }
}

/// A first match stays the first match when the sequence grows.
pub proof fn lemma_first_match_push<T>(s: Seq<T>, x: T, p: spec_fn(T) -> bool)
    ensures
        first_match(s, p) is Some ==> first_match(s.push(x), p) == first_match(s, p),
        p(x) ==> first_match(s.push(x), p) is Some,
{
    assert(s.push(x).drop_last() =~= s);
}

/// Executing an action never unspends a nullifier.
pub proof fn lemma_executed_keeps_spent(a: Action, s: ChainView, n: Seq<u8>)
    requires
        spent_height(s, n) is Some,
    ensures
        spent_height(executed(a, s), n) is Some,
{
    match a {
        Action::Spend(sp) => {
            lemma_first_match_push(s.spent, (sp.body.nullifier@, s.block_height), spent_is(n));
        },
        Action::SwapClaim(c) => {
            lemma_first_match_push(s.spent, (c.nullifier@, s.block_height), spent_is(n));
        },
        _ => {},
    }
}

/// Executing an action that spends `n` marks `n` spent.
pub proof fn lemma_executed_marks_spent(a: Action, s: ChainView)
    requires
        spends(a) is Some,
    ensures
        spent_height(executed(a, s), spends(a)->Some_0) is Some,
{
    match a {
        Action::Spend(sp) => {
            lemma_first_match_push(s.spent, (sp.body.nullifier@, s.block_height), spent_is(sp.body.nullifier@));
        },
        Action::SwapClaim(c) => {
            lemma_first_match_push(s.spent, (c.nullifier@, s.block_height), spent_is(c.nullifier@));
        },
        _ => {},
    }
}

/// A run of actions never unspends a nullifier.
pub proof fn lemma_run_keeps_spent(s: ChainView, acts: Seq<Action>, vs: Seq<Verdict>, n: Seq<u8>)
    requires
        spent_height(s, n) is Some,
        run(s, acts, vs) is Ok,
    ensures
        spent_height(run(s, acts, vs)->Ok_0, n) is Some,
    decreases acts.len(),
{
    if acts.len() > 0 {
        lemma_run_keeps_spent(s, acts.drop_last(), vs, n);
        lemma_executed_keeps_spent(acts.last(), run(s, acts.drop_last(), vs)->Ok_0, n);
    }
}

/// Nullifiers are spent at most once: after an action spends `n`, whatever
/// runs in between, a later spend or swap claim of `n` fails its stateful
/// checks with `NullifierSpent`.
pub proof fn lemma_nullifier_spent_once(
    s0: ChainView,
    a: Action,
    between: Seq<Action>,
    vs: Seq<Verdict>,
    b: Action,
    proof_ok: bool,
)
    requires
        spends(a) is Some,
        run(executed(a, s0), between, vs) is Ok,
        spends(b) == spends(a),
    ensures
        stateful_error(b, run(executed(a, s0), between, vs)->Ok_0, proof_ok) == Some(ActionError::NullifierSpent),
{
    lemma_executed_marks_spent(a, s0);
    lemma_run_keeps_spent(executed(a, s0), between, vs, spends(a)->Some_0);
}

/// The statement a delegator vote proof attests about positions: the
/// proposal's start position is the first commitment of its block, and the
/// voting note's position comes strictly before it, so a note created in the
/// same block as the start cannot vote.
pub fn delegator_vote_position_ok(note_position: u64, start_position: u64) -> (r: bool)
    ensures
        r == (start_position % 65536 == 0 && note_position < start_position),
{
    start_position % 65536 == 0 && note_position < start_position
}


/// Whether the authorization signature of `a`, if it carries one, verifies
/// over the transaction's effect hash.
pub open spec fn signature_ok(a: Action, effect_hash: Seq<u8>) -> bool {
    match a {
        Action::Spend(sp) => spend_auth_valid(sp.body.rk@, effect_hash, sp.auth_sig@),
        Action::DelegatorVote(d) => spend_auth_valid(d.rk@, effect_hash, d.auth_sig@),
        _ => true,
    }
}

/// Checks the authorization signature of `a`, if it carries one, over the
/// transaction's effect hash.
pub fn action_signature_ok(a: &Action, effect_hash: &Vec<u8>) -> (r: bool)
    ensures
        r == signature_ok(*a, effect_hash@),
{
    match a {
        Action::Spend(sp) => verify_spend_auth(&sp.body.rk, effect_hash, &sp.auth_sig),
        Action::DelegatorVote(d) => verify_spend_auth(&d.rk, effect_hash, &d.auth_sig),
        _ => true,
    }
}

/// The verdicts of the actions of a transaction: their signatures as checked
/// over `effect_hash`, their proofs as `proofs_ok` says.
pub open spec fn verdicts_for(acts: Seq<Action>, effect_hash: Seq<u8>, proofs_ok: Seq<bool>) -> Seq<Verdict> {
    Seq::new(
        acts.len(),
        |i: int| Verdict { signature_ok: signature_ok(acts[i], effect_hash), proof_ok: proofs_ok[i] },
    )
}

/// Validates and applies a transaction given its effect hash and whether
/// each action's proof verified: checks the signatures itself, then applies
/// the transaction atomically as [`apply_transaction`] does.
pub fn deliver_transaction(st: &mut ChainState, tx: &Transaction, effect_hash: &Vec<u8>, proofs_ok: &Vec<bool>) -> (r: Result<(), ActionError>)
    ensures
        proofs_ok@.len() != tx.body.actions@.len() ==> r == Err::<(), ActionError>(ActionError::VerdictCount)
            && final(st)@ == old(st)@,
        proofs_ok@.len() == tx.body.actions@.len() ==> match tx_outcome(
            old(st)@,
            *tx,
            verdicts_for(tx.body.actions@, effect_hash@, proofs_ok@),
        ) {
            Ok(s) => r == Ok::<(), ActionError>(()) && final(st)@ == s,
            Err(e) => r == Err::<(), ActionError>(e) && final(st)@ == old(st)@,
        },
{
    let acts = &tx.body.actions;
    if proofs_ok.len() != acts.len() {
        return Err(ActionError::VerdictCount);
    }
    let mut verdicts: Vec<Verdict> = Vec::new();
    let mut i: usize = 0;
    while i < acts.len()
        invariant
            acts@ == tx.body.actions@,
            proofs_ok@.len() == acts@.len(),
            0 <= i <= acts@.len(),
            verdicts@ =~= verdicts_for(acts@, effect_hash@, proofs_ok@).subrange(0, i as int),
        decreases acts@.len() - i,
    {
        let v = Verdict { signature_ok: action_signature_ok(&acts[i], effect_hash), proof_ok: proofs_ok[i] };
        verdicts.push(v);
        i = i + 1;
    }
    assert(verdicts@ =~= verdicts_for(acts@, effect_hash@, proofs_ok@));
    apply_transaction(st, tx, &verdicts)
}


/// The verdicts given for transaction `i` of a block; none where the list
/// of verdicts stops short.
pub open spec fn verdicts_at(vs: Seq<Vec<Verdict>>, i: int) -> Seq<Verdict> {
    if 0 <= i < vs.len() {
        vs[i]@
    } else {
        Seq::empty()
    }
}

/// Delivers the transactions of a block in order: each one is applied
/// whole or rejected whole, and sees the effects of those before it. Gives
/// the final state and each transaction's result.
pub open spec fn block_run(s: ChainView, txs: Seq<Transaction>, vs: Seq<Vec<Verdict>>) -> (ChainView, Seq<Result<(), ActionError>>)
    decreases txs.len(),
{
    if txs.len() == 0 {
        (s, Seq::empty())
    } else {
        let (s1, rs) = block_run(s, txs.drop_last(), vs);
        match tx_outcome(s1, txs.last(), verdicts_at(vs, txs.len() - 1)) {
            Ok(s2) => (s2, rs.push(Ok(()))),
            Err(e) => (s1, rs.push(Err(e))),
        }
    }
}

/// Delivers the transactions of a block in order; `verdicts[i]` holds the
/// verdicts of the actions of transaction `i`. A rejected transaction leaves
/// no trace; the others' effects accumulate.
pub fn deliver_block(st: &mut ChainState, txs: &Vec<Transaction>, verdicts: &Vec<Vec<Verdict>>) -> (r: Vec<Result<(), ActionError>>)
    ensures
        (final(st)@, r@) == block_run(old(st)@, txs@, verdicts@),
{
    let mut results: Vec<Result<(), ActionError>> = Vec::new();
    let empty: Vec<Verdict> = Vec::new();
    let mut i: usize = 0;
    assert(txs@.subrange(0, 0) =~= Seq::<Transaction>::empty());
    assert(results@ =~= Seq::<Result<(), ActionError>>::empty());
    while i < txs.len()
        invariant
            0 <= i <= txs@.len(),
            empty@ == Seq::<Verdict>::empty(),
            block_run(old(st)@, txs@.subrange(0, i as int), verdicts@) == (st@, results@),
        decreases txs@.len() - i,
    {
        let ghost sub = txs@.subrange(0, i + 1);
        assert(sub.drop_last() =~= txs@.subrange(0, i as int));
        assert(sub.last() == txs@[i as int]);
        let vs = if i < verdicts.len() {
            &verdicts[i]
        } else {
            &empty
        };
        assert(vs@ == verdicts_at(verdicts@, i as int));
        let ghost s1 = st@;
        let r = apply_transaction(st, &txs[i], vs);
        let ghost before = results@;
        results.push(r);
        proof {
            match tx_outcome(s1, txs@[i as int], vs@) {
                Ok(s2) => {
                    assert(results@ == before.push(Ok(())));
                },
                Err(e) => {
                    assert(results@ == before.push(Err(e)));
                },
            }
        }
        i = i + 1;
    }
    assert(txs@.subrange(0, txs@.len() as int) =~= txs@);
    results
}

/// The key under which the store records that nullifier `n` is spent: the
/// bytes of "nf/" followed by `n`.
pub open spec fn spent_key(n: Seq<u8>) -> Seq<u8> {
    seq![110u8, 102u8, 47u8] + n
}

/// The store writes that record spent nullifiers, each with the height at
/// which it was spent as eight little-endian bytes.
pub open spec fn spent_writes(spent: Seq<(Seq<u8>, u64)>) -> Seq<crate::log::WriteView> {
    spent.map_values(|r: (Seq<u8>, u64)| (spent_key(r.0), Some(crate::codec::u64_le(r.1))))
}

/// Records in `delta` the nullifiers spent since the first `from` entries of
/// the spent list, so that a commit persists them.
pub fn persist_spent(delta: &mut crate::storage::StateDelta, st: &ChainState, from: usize)
    requires
        old(delta).depth() >= 1,
        from <= st@.spent.len(),
    ensures
        final(delta).base_snapshot() == old(delta).base_snapshot(),
        final(delta).depth() == old(delta).depth(),
        final(delta).pending() == old(delta).pending() + spent_writes(
            st@.spent.subrange(from as int, st@.spent.len() as int),
        ),
        final(delta).pending_nonverifiable() == old(delta).pending_nonverifiable(),
{
    let ghost p0 = delta.pending();
    let mut i = from;
    assert(spent_writes(st@.spent.subrange(from as int, from as int)) =~= Seq::<crate::log::WriteView>::empty());
    assert(p0 + Seq::<crate::log::WriteView>::empty() =~= p0);
    while i < st.spent.len()
        invariant
            from <= i <= st@.spent.len(),
            delta.depth() == old(delta).depth(),
            delta.depth() >= 1,
            delta.base_snapshot() == old(delta).base_snapshot(),
            delta.pending_nonverifiable() == old(delta).pending_nonverifiable(),
            p0 == old(delta).pending(),
            delta.pending() == p0 + spent_writes(st@.spent.subrange(from as int, i as int)),
        decreases st@.spent.len() - i,
    {
        let rec = &st.spent[i];
        let mut key: Vec<u8> = vec![110u8, 102u8, 47u8];
        let mut j: usize = 0;
        while j < rec.nullifier.len()
            invariant
                0 <= j <= rec.nullifier@.len(),
                key@ =~= seq![110u8, 102u8, 47u8] + rec.nullifier@.subrange(0, j as int),
            decreases rec.nullifier@.len() - j,
        {
            key.push(rec.nullifier[j]);
            j = j + 1;
        }
        assert(rec.nullifier@.subrange(0, rec.nullifier@.len() as int) =~= rec.nullifier@);
        let h = rec.height;
        let value: Vec<u8> = vec![
            h as u8,
            (h >> 8u64) as u8,
            (h >> 16u64) as u8,
            (h >> 24u64) as u8,
            (h >> 32u64) as u8,
            (h >> 40u64) as u8,
            (h >> 48u64) as u8,
            (h >> 56u64) as u8,
        ];
        assert(value@ =~= crate::codec::u64_le(h));
        delta.put(key, value);
        assert(spent_writes(st@.spent.subrange(from as int, i + 1)) =~= spent_writes(
            st@.spent.subrange(from as int, i as int),
        ).push((spent_key(st@.spent[i as int].0), Some(crate::codec::u64_le(h)))));
        i = i + 1;
    }
}


/// No nullifier is recorded as spent twice.
pub open spec fn spent_distinct(s: ChainView) -> bool {
    forall|i: int, j: int|
        0 <= i < j < s.spent.len() ==> (#[trigger] s.spent[i]).0 != (#[trigger] s.spent[j]).0
}

/// Recording a nullifier that is not yet spent keeps the spent list free of
/// repeats.
proof fn lemma_push_unspent(s: ChainView, n: Seq<u8>, h: u64)
    requires
        spent_distinct(s),
        spent_height(s, n) is None,
    ensures
        spent_distinct(ChainView { spent: s.spent.push((n, h)), ..s }),
{
    crate::search::lemma_first_match_none(s.spent, spent_is(n));
    let t = s.spent.push((n, h));
    assert forall|i: int, j: int| 0 <= i < j < t.len() implies (#[trigger] t[i]).0 != (#[trigger] t[j]).0 by {
        if j == t.len() - 1 {
            assert(!spent_is(n)(s.spent[i]));
        } else {
            assert(t[i] == s.spent[i] && t[j] == s.spent[j]);
        }
    }
}

/// An action that passed its stateful checks keeps nullifiers spent at most
/// once.
pub proof fn lemma_executed_spent_distinct(a: Action, s: ChainView, proof_ok: bool)
    requires
        spent_distinct(s),
        stateful_error(a, s, proof_ok) is None,
    ensures
        spent_distinct(executed(a, s)),
{
    match a {
        Action::Spend(sp) => {
            lemma_push_unspent(s, sp.body.nullifier@, s.block_height);
            let t = ChainView { spent: s.spent.push((sp.body.nullifier@, s.block_height)), ..s };
            let e = executed(a, s);
            assert(e.spent == t.spent);
            assert forall|i: int, j: int| 0 <= i < j < e.spent.len() implies (#[trigger] e.spent[i]).0 != (
            #[trigger] e.spent[j]).0 by {
                assert(t.spent[i] == e.spent[i] && t.spent[j] == e.spent[j]);
            }
        },
        Action::SwapClaim(c) => {
            lemma_push_unspent(s, c.nullifier@, s.block_height);
            let t = ChainView { spent: s.spent.push((c.nullifier@, s.block_height)), ..s };
            let e = executed(a, s);
            assert(e.spent == t.spent);
            assert forall|i: int, j: int| 0 <= i < j < e.spent.len() implies (#[trigger] e.spent[i]).0 != (
            #[trigger] e.spent[j]).0 by {
                assert(t.spent[i] == e.spent[i] && t.spent[j] == e.spent[j]);
            }
        },
        _ => {
            assert(executed(a, s).spent == s.spent);
            assert forall|i: int, j: int| 0 <= i < j < executed(a, s).spent.len() implies (
            #[trigger] executed(a, s).spent[i]).0 != (#[trigger] executed(a, s).spent[j]).0 by {
                assert(s.spent[i] == executed(a, s).spent[i]);
                assert(s.spent[j] == executed(a, s).spent[j]);
            }
        },
    }
}

/// A run of actions keeps nullifiers spent at most once.
pub proof fn lemma_run_spent_distinct(s: ChainView, acts: Seq<Action>, vs: Seq<Verdict>)
    requires
        spent_distinct(s),
        run(s, acts, vs) is Ok,
    ensures
        spent_distinct(run(s, acts, vs)->Ok_0),
    decreases acts.len(),
{
    if acts.len() > 0 {
        lemma_run_spent_distinct(s, acts.drop_last(), vs);
        let s1 = run(s, acts.drop_last(), vs)->Ok_0;
        lemma_executed_spent_distinct(acts.last(), s1, vs[acts.len() - 1].proof_ok);
    }
}

/// Each nullifier is spent at most once: from a state where no nullifier is
/// recorded twice, a delivered block leaves none recorded twice.
pub proof fn lemma_block_spent_distinct(s: ChainView, txs: Seq<Transaction>, vs: Seq<Vec<Verdict>>)
    requires
        spent_distinct(s),
    ensures
        spent_distinct(block_run(s, txs, vs).0),
    decreases txs.len(),
{
    if txs.len() > 0 {
        lemma_block_spent_distinct(s, txs.drop_last(), vs);
        let s1 = block_run(s, txs.drop_last(), vs).0;
        let v = verdicts_at(vs, txs.len() - 1);
        let t = txs.last();
        if tx_outcome(s1, t, v) is Ok {
            lemma_run_spent_distinct(s1, t.body.actions@, v);
        }
    }
}

} // verus!
