use shielded_ledger::codec::{decode_action, decode_fields, decode_transaction, encode_action, encode_fields, encode_transaction, Field};
use shielded_ledger::ibc::{LightClientState, MsgChannelOpenConfirm, MsgChannelOpenInit, MsgCreateClient, Ordering};
use shielded_ledger::transaction::{
    Action, BatchSwapOutputData, Clue, DelegatorVote, DetectionData, Ics20Withdrawal, MemoData, Output, OutputBody,
    Spend, SpendBody, Swap, SwapClaim, TradingPair, Transaction, TransactionBody, TransactionParameters, Vote,
};

fn all_kinds() -> Vec<Action> {
    vec![
        Action::Spend(Spend {
            body: SpendBody { balance_commitment: vec![1, 2], nullifier: vec![3], rk: vec![4, 5, 6] },
            auth_sig: vec![7],
            proof: vec![],
        }),
        Action::Output(Output {
            body: OutputBody {
                note_commitment: vec![9; 32],
                balance_commitment: vec![8],
                wrapped_memo_key: vec![7],
                ovk_wrapped_key: vec![6],
            },
            proof: vec![5; 10],
        }),
        Action::Swap(Swap { trading_pair: TradingPair { asset_1: 1, asset_2: 2 }, swap_commitment: vec![3], proof: vec![4] }),
        Action::SwapClaim(SwapClaim {
            nullifier: vec![1],
            output_data: BatchSwapOutputData {
                height: 100,
                trading_pair: TradingPair { asset_1: 1, asset_2: 2 },
                delta_1: 3,
                delta_2: 4,
                lambda_1: 5,
                lambda_2: 6,
                unfilled_1: 7,
                unfilled_2: u64::MAX,
            },
            epoch_duration: 719,
            output_1_commitment: vec![2],
            output_2_commitment: vec![3],
            proof: vec![4],
        }),
        Action::DelegatorVote(DelegatorVote {
            proposal: 1,
            vote: Vote::Abstain,
            start_position: 65536,
            delegation_asset: 2,
            value_amount: 3,
            unbonded_amount: 4,
            nullifier: vec![5],
            rk: vec![6],
            auth_sig: vec![7],
            proof: vec![8],
        }),
        Action::Ics20Withdrawal(Ics20Withdrawal {
            amount: 1,
            asset: 2,
            destination_chain_address: b"dest".to_vec(),
            return_address: b"ret".to_vec(),
            timeout_height: 3,
            timeout_time: 4,
            source_port: b"transfer".to_vec(),
            source_channel: 5,
        }),
        Action::ChannelOpenInit(MsgChannelOpenInit {
            port_id_on_a: b"transfer".to_vec(),
            connection_hops_on_a: vec![0, 7],
            port_id_on_b: b"transfer".to_vec(),
            ordering: Ordering::Ordered,
            version_proposal: b"ics20-1".to_vec(),
        }),
        Action::ChannelOpenConfirm(MsgChannelOpenConfirm {
            port_id_on_b: b"transfer".to_vec(),
            chan_id_on_b: 2,
            proof_chan_end_on_a: vec![1, 2, 3],
            proof_height_on_a: 9,
        }),
        Action::CreateClient(MsgCreateClient {
            client_state: LightClientState::Tendermint { height: 12 },
            consensus_state: LightClientState::Other,
        }),
    ]
}

#[test]
fn every_action_kind_round_trips() {
    for a in all_kinds() {
        let bytes = encode_action(&a);
        let back = decode_action(&bytes).expect("decodes");
        assert_eq!(encode_action(&back), bytes);
    }
}

#[test]
fn decoded_fields_match() {
    let a = &all_kinds()[4];
    let back = decode_action(&encode_action(a)).unwrap();
    match back {
        Action::DelegatorVote(d) => {
            assert_eq!(d.vote, Vote::Abstain);
            assert_eq!(d.start_position, 65536);
            assert_eq!(d.nullifier, vec![5]);
        }
        _ => panic!("wrong kind"),
    }
    let init = &all_kinds()[6];
    match decode_action(&encode_action(init)).unwrap() {
        Action::ChannelOpenInit(m) => {
            assert_eq!(m.connection_hops_on_a, vec![0, 7]);
            assert_eq!(m.ordering, Ordering::Ordered);
        }
        _ => panic!("wrong kind"),
    }
}

#[test]
fn transaction_round_trips() {
    let tx = Transaction {
        body: TransactionBody {
            actions: all_kinds(),
            transaction_parameters: TransactionParameters { expiry_height: 77, chain_id: b"penumbra-testnet".to_vec() },
            fee: 10,
            detection_data: Some(DetectionData { fmd_clues: vec![Clue { precision_bits: 2 }, Clue { precision_bits: 3 }] }),
            memo_data: Some(MemoData { encrypted_memo: Some(vec![1, 2, 3]) }),
        },
        binding_sig: vec![9; 64],
        anchor: vec![8; 32],
    };
    let bytes = encode_transaction(&tx);
    let back = decode_transaction(&bytes).expect("decodes");
    assert_eq!(encode_transaction(&back), bytes);
    assert_eq!(back.body.actions.len(), 9);
    assert_eq!(back.body.fee, 10);
    assert_eq!(back.body.transaction_parameters.expiry_height, 77);
    assert_eq!(back.body.detection_data.unwrap().fmd_clues[1].precision_bits, 3);
    assert_eq!(back.body.memo_data.unwrap().encrypted_memo, Some(vec![1, 2, 3]));
    assert_eq!(back.anchor, vec![8; 32]);
}

#[test]
fn empty_transaction_round_trips() {
    let tx = Transaction {
        body: TransactionBody {
            actions: vec![],
            transaction_parameters: TransactionParameters { expiry_height: 0, chain_id: vec![] },
            fee: 0,
            detection_data: None,
            memo_data: Some(MemoData { encrypted_memo: None }),
        },
        binding_sig: vec![],
        anchor: vec![],
    };
    let back = decode_transaction(&encode_transaction(&tx)).unwrap();
    assert!(back.body.detection_data.is_none());
    assert!(back.body.memo_data.unwrap().encrypted_memo.is_none());
}

#[test]
fn malformed_bytes_are_rejected() {
    assert!(decode_transaction(&vec![1, 2, 3]).is_none());
    assert!(decode_action(&vec![]).is_none());
    let fields = vec![Field::Num(0), Field::Bytes(vec![1])];
    assert!(decode_action(&encode_fields(&fields)).is_none());
    let bytes = encode_fields(&vec![Field::Num(258), Field::Bytes(vec![7, 8])]);
    assert_eq!(bytes, vec![0, 2, 1, 0, 0, 0, 0, 0, 0, 1, 2, 0, 0, 0, 0, 0, 0, 0, 7, 8]);
    assert_eq!(decode_fields(&bytes).unwrap().len(), 2);
    let mut truncated = bytes.clone();
    truncated.pop();
    assert!(decode_fields(&truncated).is_none());
}
