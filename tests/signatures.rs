use decaf377_rdsa::{SigningKey, SpendAuth, VerificationKey};
use shielded_ledger::chain::{action_signature_ok, deliver_transaction, ActionError, ChainState};
use shielded_ledger::ibc::IbcState;
use shielded_ledger::params::FmdParameters;
use shielded_ledger::transaction::{Action, Spend, SpendBody, Transaction, TransactionBody, TransactionParameters};

fn key() -> (SigningKey<SpendAuth>, Vec<u8>) {
    let mut bytes = [0u8; 32];
    bytes[0] = 7;
    bytes[1] = 42;
    let sk = SigningKey::<SpendAuth>::try_from(bytes).expect("valid scalar");
    let vk = VerificationKey::from(&sk);
    let rk: [u8; 32] = vk.into();
    (sk, rk.to_vec())
}

fn signed_spend(n: &[u8], effect_hash: &[u8]) -> Action {
    let (sk, rk) = key();
    let sig: [u8; 64] = sk.sign_deterministic(effect_hash).into();
    Action::Spend(Spend {
        body: SpendBody { balance_commitment: vec![], nullifier: n.to_vec(), rk },
        auth_sig: sig.to_vec(),
        proof: vec![],
    })
}

fn state() -> ChainState {
    ChainState {
        block_height: 10,
        epoch_duration: 719,
        spent: vec![],
        anchors: vec![b"root".to_vec()],
        commitments: vec![],
        output_data: vec![],
        proposals: vec![],
        rates: vec![],
        votes: vec![],
        outbound: vec![],
        fmd_previous: FmdParameters::default(),
        fmd_current: FmdParameters::default(),
        ibc: IbcState { channels: vec![], connections: vec![], clients: vec![], consensus_states: vec![], channel_counter: 0, client_counter: 0 },
        events: vec![],
    }
}

fn tx(actions: Vec<Action>) -> Transaction {
    Transaction {
        body: TransactionBody {
            actions,
            transaction_parameters: TransactionParameters { expiry_height: 0, chain_id: vec![] },
            fee: 0,
            detection_data: None,
            memo_data: None,
        },
        binding_sig: vec![],
        anchor: b"root".to_vec(),
    }
}

#[test]
fn valid_spend_signature_is_accepted() {
    let eh = b"effect hash".to_vec();
    let a = signed_spend(b"nf", &eh);
    assert!(action_signature_ok(&a, &eh));
    let mut st = state();
    assert_eq!(deliver_transaction(&mut st, &tx(vec![a]), &eh, &vec![true]), Ok(()));
    assert_eq!(st.spent.len(), 1);
}

#[test]
fn signature_over_another_effect_hash_is_rejected() {
    let a = signed_spend(b"nf", b"effect hash");
    let other = b"other hash".to_vec();
    assert!(!action_signature_ok(&a, &other));
    let mut st = state();
    assert_eq!(deliver_transaction(&mut st, &tx(vec![a]), &other, &vec![true]), Err(ActionError::BadSignature));
    assert!(st.spent.is_empty());
}

#[test]
fn malformed_key_or_signature_is_rejected() {
    let eh = b"eh".to_vec();
    let bad = Action::Spend(Spend {
        body: SpendBody { balance_commitment: vec![], nullifier: vec![1], rk: vec![1, 2, 3] },
        auth_sig: vec![0; 64],
        proof: vec![],
    });
    assert!(!action_signature_ok(&bad, &eh));
    let mut st = state();
    let a = signed_spend(b"nf", &eh);
    assert_eq!(deliver_transaction(&mut st, &tx(vec![a]), &eh, &vec![]), Err(ActionError::VerdictCount));
}
