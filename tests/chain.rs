use shielded_ledger::chain::{
    apply_transaction, deliver_block, persist_spent, check_stateful, claimed_anchor_is_valid, delegator_vote_position_ok,
    fmd_precision_within_grace_period, unbonded_amount, ActionError, ChainState, Event, Proposal, ProposalRate,
    Verdict,
};
use shielded_ledger::ibc::{
    ChannelEnd, ChannelRecord, ChannelState, Connection, ConnectionState, MsgChannelOpenConfirm, IbcError, IbcState, LightClientState, MsgChannelOpenInit, MsgCreateClient, Ordering};
use shielded_ledger::params::FmdParameters;
use shielded_ledger::storage::{StateDelta, Storage};
use shielded_ledger::transaction::{
    Action, BatchSwapOutputData, Clue, DelegatorVote, DetectionData, Ics20Withdrawal, Output, OutputBody,
    Spend, SpendBody, SwapClaim, TradingPair, Transaction, TransactionBody, TransactionParameters, Vote,
};

fn empty_ibc() -> IbcState {
    IbcState { channels: vec![], connections: vec![], clients: vec![], consensus_states: vec![], channel_counter: 0, client_counter: 0 }
}

fn state() -> ChainState {
    ChainState {
        block_height: 200,
        epoch_duration: 719,
        spent: vec![],
        anchors: vec![b"root-1".to_vec(), b"root-2".to_vec()],
        commitments: vec![],
        output_data: vec![record()],
        proposals: vec![Proposal { id: 7, votable: true, start_position: 65536 * 3, start_height: 150 }],
        rates: vec![ProposalRate { proposal: 7, delegation_asset: 42, validator: 9, exchange_rate: 150_000_000 }],
        votes: vec![],
        outbound: vec![],
        fmd_previous: FmdParameters { precision_bits: 1, as_of_block_height: 1 },
        fmd_current: FmdParameters { precision_bits: 2, as_of_block_height: 195 },
        ibc: empty_ibc(),
        events: vec![],
    }
}

fn record() -> BatchSwapOutputData {
    BatchSwapOutputData {
        height: 100,
        trading_pair: TradingPair { asset_1: 1, asset_2: 2 },
        delta_1: 10,
        delta_2: 20,
        lambda_1: 30,
        lambda_2: 40,
        unfilled_1: 50,
        unfilled_2: 60,
    }
}

fn spend(n: &[u8]) -> Action {
    Action::Spend(Spend {
        body: SpendBody { balance_commitment: vec![1], nullifier: n.to_vec(), rk: vec![2] },
        auth_sig: vec![3],
        proof: vec![4],
    })
}

fn swap_claim(n: &[u8], data: BatchSwapOutputData) -> Action {
    Action::SwapClaim(SwapClaim {
        nullifier: n.to_vec(),
        output_data: data,
        epoch_duration: 719,
        output_1_commitment: b"out-1".to_vec(),
        output_2_commitment: b"out-2".to_vec(),
        proof: vec![5],
    })
}

fn vote(start_position: u64, n: &[u8], unbonded: u64) -> Action {
    Action::DelegatorVote(DelegatorVote {
        proposal: 7,
        vote: Vote::Yes,
        start_position,
        delegation_asset: 42,
        value_amount: 100,
        unbonded_amount: unbonded,
        nullifier: n.to_vec(),
        rk: vec![],
        auth_sig: vec![],
        proof: vec![],
    })
}

fn tx(actions: Vec<Action>) -> Transaction {
    Transaction {
        body: TransactionBody {
            actions,
            transaction_parameters: TransactionParameters { expiry_height: 0, chain_id: b"test".to_vec() },
            fee: 0,
            detection_data: None,
            memo_data: None,
        },
        binding_sig: vec![],
        anchor: b"root-2".to_vec(),
    }
}

fn ok(n: usize) -> Vec<Verdict> {
    vec![Verdict { signature_ok: true, proof_ok: true }; n]
}

#[test]
fn spent_nullifier_is_rejected_later() {
    let mut st = state();
    assert_eq!(apply_transaction(&mut st, &tx(vec![spend(b"n1")]), &ok(1)), Ok(()));
    assert_eq!(st.spent.len(), 1);
    assert_eq!(st.spent[0].height, 200);
    let r = apply_transaction(&mut st, &tx(vec![spend(b"n1")]), &ok(1));
    assert_eq!(r, Err(ActionError::NullifierSpent));
    assert_eq!(check_stateful(&spend(b"n1"), &st, true), Err(ActionError::NullifierSpent));
    assert_eq!(check_stateful(&swap_claim(b"n1", record()), &st, true), Err(ActionError::NullifierSpent));
    assert_eq!(check_stateful(&spend(b"n2"), &st, true), Ok(()));
}

#[test]
fn double_spend_within_one_transaction_is_rejected_atomically() {
    let mut st = state();
    let out = Action::Output(Output {
        body: OutputBody {
            note_commitment: b"cm".to_vec(),
            balance_commitment: vec![],
            wrapped_memo_key: vec![],
            ovk_wrapped_key: vec![],
        },
        proof: vec![],
    });
    let r = apply_transaction(&mut st, &tx(vec![out, spend(b"n1"), spend(b"n1")]), &ok(3));
    assert_eq!(r, Err(ActionError::NullifierSpent));
    assert!(st.spent.is_empty());
    assert!(st.commitments.is_empty());
}

#[test]
fn swap_claim_must_match_recorded_output_data() {
    let st = state();
    assert_eq!(check_stateful(&swap_claim(b"s", record()), &st, true), Ok(()));
    let variants: Vec<BatchSwapOutputData> = vec![
        BatchSwapOutputData { delta_1: 11, ..record() },
        BatchSwapOutputData { delta_2: 21, ..record() },
        BatchSwapOutputData { lambda_1: 31, ..record() },
        BatchSwapOutputData { lambda_2: 41, ..record() },
        BatchSwapOutputData { unfilled_1: 51, ..record() },
        BatchSwapOutputData { unfilled_2: 61, ..record() },
    ];
    for v in variants {
        assert_eq!(check_stateful(&swap_claim(b"s", v), &st, true), Err(ActionError::OutputDataMismatch));
    }
    let other_height = BatchSwapOutputData { height: 101, ..record() };
    assert_eq!(check_stateful(&swap_claim(b"s", other_height), &st, true), Err(ActionError::OutputDataNotFound));
    let other_pair = BatchSwapOutputData { trading_pair: TradingPair { asset_1: 1, asset_2: 3 }, ..record() };
    assert_eq!(check_stateful(&swap_claim(b"s", other_pair), &st, true), Err(ActionError::OutputDataNotFound));
}

#[test]
fn swap_claim_checks_epoch_duration_first() {
    let st = state();
    let mut a = swap_claim(b"s", BatchSwapOutputData { delta_1: 0, ..record() });
    if let Action::SwapClaim(c) = &mut a {
        c.epoch_duration = 720;
    }
    assert_eq!(check_stateful(&a, &st, true), Err(ActionError::EpochDurationMismatch));
}

#[test]
fn swap_claim_executes_outputs_and_nullifier() {
    let mut st = state();
    assert_eq!(apply_transaction(&mut st, &tx(vec![swap_claim(b"s", record())]), &ok(1)), Ok(()));
    assert_eq!(st.commitments, vec![b"out-1".to_vec(), b"out-2".to_vec()]);
    assert_eq!(st.events, vec![Event::SwapClaim { height: 100, trading_pair: TradingPair { asset_1: 1, asset_2: 2 } }]);
    assert_eq!(st.spent[0].nullifier, b"s".to_vec());
}

#[test]
fn delegator_vote_position_must_strictly_precede_start() {
    let start = 65536 * 3;
    assert!(!delegator_vote_position_ok(start, start));
    assert!(!delegator_vote_position_ok(start + 1, start));
    assert!(delegator_vote_position_ok(start - 1, start));
    assert!(!delegator_vote_position_ok(0, start + 1));
}

#[test]
fn delegator_vote_stateful_checks() {
    let mut st = state();
    let start = 65536 * 3;
    assert_eq!(unbonded_amount(100, 150_000_000), 150);
    assert_eq!(check_stateful(&vote(start, b"v", 150), &st, true), Ok(()));
    assert_eq!(check_stateful(&vote(start + 1, b"v", 150), &st, true), Err(ActionError::StartPositionMismatch));
    assert_eq!(check_stateful(&vote(start, b"v", 151), &st, true), Err(ActionError::UnbondedAmountMismatch));
    assert_eq!(apply_transaction(&mut st, &tx(vec![vote(start, b"v", 150)]), &ok(1)), Ok(()));
    assert_eq!(st.votes.len(), 1);
    assert_eq!(st.votes[0].validator, 9);
    assert_eq!(st.votes[0].power, 150);
    assert_eq!(check_stateful(&vote(start, b"v", 150), &st, true), Err(ActionError::AlreadyVoted));
}

#[test]
fn delegator_vote_rejects_note_spent_before_start() {
    let mut st = state();
    st.block_height = 120;
    assert_eq!(apply_transaction(&mut st, &tx(vec![spend(b"early")]), &ok(1)), Ok(()));
    let r = check_stateful(&vote(65536 * 3, b"early", 150), &st, true);
    assert_eq!(r, Err(ActionError::NullifierSpentBeforeProposal));
    st.proposals[0].votable = false;
    assert_eq!(check_stateful(&vote(65536 * 3, b"x", 150), &st, true), Err(ActionError::ProposalNotVotable));
}

#[test]
fn stateless_failures_come_first() {
    let mut st = state();
    let bad_sig = vec![Verdict { signature_ok: false, proof_ok: true }];
    assert_eq!(apply_transaction(&mut st, &tx(vec![spend(b"n")]), &bad_sig), Err(ActionError::BadSignature));
    let bad_proof = vec![Verdict { signature_ok: true, proof_ok: false }];
    assert_eq!(apply_transaction(&mut st, &tx(vec![spend(b"n")]), &bad_proof), Err(ActionError::BadProof));
    assert_eq!(apply_transaction(&mut st, &tx(vec![spend(b"n")]), &ok(2)), Err(ActionError::VerdictCount));
    assert!(st.spent.is_empty());
}

#[test]
fn expiry_and_anchor_are_checked() {
    let mut st = state();
    let mut t = tx(vec![spend(b"n")]);
    t.body.transaction_parameters.expiry_height = 199;
    assert_eq!(apply_transaction(&mut st, &t, &ok(1)), Err(ActionError::Expired));
    let mut t = tx(vec![spend(b"n")]);
    t.anchor = b"unknown".to_vec();
    assert_eq!(apply_transaction(&mut st, &t, &ok(1)), Err(ActionError::UnknownAnchor));
    assert!(claimed_anchor_is_valid(&st, &b"root-1".to_vec()));
}

#[test]
fn anchor_window_drops_old_roots() {
    let mut st = state();
    for i in 0..128u32 {
        st.anchors.push(i.to_le_bytes().to_vec());
    }
    assert!(!claimed_anchor_is_valid(&st, &b"root-2".to_vec()));
    assert!(claimed_anchor_is_valid(&st, &0u32.to_le_bytes().to_vec()));
}

#[test]
fn fmd_clues_within_grace_period() {
    let prev = FmdParameters { precision_bits: 1, as_of_block_height: 100 };
    let cur = FmdParameters { precision_bits: 2, as_of_block_height: 105 };
    let mut t = tx(vec![]);
    t.body.detection_data = Some(DetectionData { fmd_clues: vec![Clue { precision_bits: 2 }, Clue { precision_bits: 1 }] });
    assert_eq!(fmd_precision_within_grace_period(&t, prev, cur, 109), Ok(()));
    assert_eq!(fmd_precision_within_grace_period(&t, prev, cur, 110), Err(ActionError::InvalidFmdPrecision));
    t.body.detection_data = Some(DetectionData { fmd_clues: vec![Clue { precision_bits: 3 }] });
    assert_eq!(fmd_precision_within_grace_period(&t, prev, cur, 100), Err(ActionError::InvalidFmdPrecision));
    t.body.detection_data = None;
    assert_eq!(fmd_precision_within_grace_period(&t, prev, cur, 100), Ok(()));
}

#[test]
fn ics20_withdrawal_validation() {
    let w = Ics20Withdrawal {
        amount: 5,
        asset: 1,
        destination_chain_address: b"cosmos1".to_vec(),
        return_address: b"penumbra1".to_vec(),
        timeout_height: 10,
        timeout_time: 20,
        source_port: b"transfer".to_vec(),
        source_channel: 0,
    };
    assert_eq!(w.validate(), Ok(()));
    assert_eq!(Ics20Withdrawal { timeout_height: 0, ..clone_w(&w) }.validate(), Err(ActionError::ZeroTimeoutHeight));
    assert_eq!(Ics20Withdrawal { timeout_time: 0, ..clone_w(&w) }.validate(), Err(ActionError::ZeroTimeoutTime));
    let bad_port = Ics20Withdrawal { source_port: b"other".to_vec(), ..clone_w(&w) };
    assert_eq!(bad_port.validate(), Err(ActionError::InvalidSourcePort));
    let mut st = state();
    assert_eq!(apply_transaction(&mut st, &tx(vec![Action::Ics20Withdrawal(w)]), &ok(1)), Ok(()));
    assert_eq!(st.outbound.len(), 1);
    assert_eq!(st.outbound[0].amount, 5);
}

fn clone_w(w: &Ics20Withdrawal) -> Ics20Withdrawal {
    Ics20Withdrawal {
        amount: w.amount,
        asset: w.asset,
        destination_chain_address: w.destination_chain_address.clone(),
        return_address: w.return_address.clone(),
        timeout_height: w.timeout_height,
        timeout_time: w.timeout_time,
        source_port: w.source_port.clone(),
        source_channel: w.source_channel,
    }
}

#[test]
fn ibc_errors_surface_through_actions() {
    let mut st = state();
    let init = Action::ChannelOpenInit(MsgChannelOpenInit {
        port_id_on_a: b"transfer".to_vec(),
        connection_hops_on_a: vec![3],
        port_id_on_b: b"transfer".to_vec(),
        ordering: Ordering::Unordered,
        version_proposal: b"ics20-1".to_vec(),
    });
    assert_eq!(
        apply_transaction(&mut st, &tx(vec![init]), &ok(1)),
        Err(ActionError::Ibc(IbcError::ConnectionNotFound))
    );
}

#[test]
fn block_delivers_transactions_in_order_and_persists_nullifiers() {
    let mut st = state();
    let txs = vec![tx(vec![spend(b"a")]), tx(vec![spend(b"a")]), tx(vec![spend(b"b")])];
    let verdicts = vec![ok(1), ok(1), ok(1)];
    let results = deliver_block(&mut st, &txs, &verdicts);
    assert_eq!(results, vec![Ok(()), Err(ActionError::NullifierSpent), Ok(())]);
    assert_eq!(st.spent.len(), 2);
    let short = deliver_block(&mut st, &vec![tx(vec![spend(b"c")])], &vec![]);
    assert_eq!(short, vec![Err(ActionError::VerdictCount)]);

    let mut storage = Storage::new();
    let mut delta = StateDelta::new(storage.latest_snapshot());
    persist_spent(&mut delta, &st, 0);
    storage.commit(delta).unwrap();
    let snap = storage.latest_snapshot();
    assert_eq!(snap.get(&b"nf/a".to_vec()), Some(200u64.to_le_bytes().to_vec()));
    assert_eq!(snap.get(&b"nf/b".to_vec()), Some(200u64.to_le_bytes().to_vec()));
    assert_eq!(snap.get(&b"nf/c".to_vec()), None);
}

#[test]
fn delegator_vote_needs_a_recorded_rate() {
    let mut st = state();
    st.rates.clear();
    assert_eq!(check_stateful(&vote(65536 * 3, b"v", 150), &st, true), Err(ActionError::UnknownDelegation));
}

#[test]
fn exhausted_counters_refuse_ibc_creation() {
    let mut st = state();
    st.ibc.client_counter = u64::MAX;
    let msg = MsgCreateClient {
        client_state: LightClientState::Tendermint { height: 1 },
        consensus_state: LightClientState::Tendermint { height: 1 },
    };
    assert_eq!(check_stateful(&Action::CreateClient(msg), &st, true), Err(ActionError::CounterExhausted));
}

#[test]
fn channel_open_confirm_records_its_event() {
    let mut st = state();
    st.ibc.connections.push(Connection { connection_id: 0, state: ConnectionState::Open, counterparty_connection: Some(5) });
    st.ibc.channels.push(ChannelRecord {
        channel_id: 3,
        port: b"transfer".to_vec(),
        end: ChannelEnd {
            state: ChannelState::TryOpen,
            ordering: Ordering::Unordered,
            counterparty_port: b"transfer".to_vec(),
            counterparty_channel: Some(8),
            connection_hops: vec![0],
            version: b"ics20-1".to_vec(),
        },
        next_send: 1,
        next_recv: 1,
        next_ack: 1,
    });
    let confirm = Action::ChannelOpenConfirm(MsgChannelOpenConfirm {
        port_id_on_b: b"transfer".to_vec(),
        chan_id_on_b: 3,
        proof_chan_end_on_a: vec![],
        proof_height_on_a: 1,
    });
    assert_eq!(apply_transaction(&mut st, &tx(vec![confirm]), &ok(1)), Ok(()));
    assert_eq!(st.events, vec![Event::ChannelOpenConfirm { channel_id: 3, counterparty_channel: 8, connection_id: 0 }]);
}
