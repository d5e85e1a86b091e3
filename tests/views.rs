use shielded_ledger::cli::{TxCmd, VoteCmd};
use shielded_ledger::plan::{ActionPlan, AuthorizationData, SpendPlan, TransactionPlan};
use shielded_ledger::codec::encode_transaction;
use shielded_ledger::transaction::{
    Action, Output, OutputBody, Spend, SpendBody, Transaction, TransactionBody, TransactionParameters, Vote,
};
use shielded_ledger::view::memo_view::{MemoView, Opaque as MemoOpaque};
use shielded_ledger::view::output_view::OutputView;
use shielded_ledger::view::spend_view::SpendView;
use shielded_ledger::view::{ActionView, MemoCiphertext, NullifierWithNote, PayloadKey, PayloadKeyWithCommitment, TransactionPerspective};

fn perspective() -> TransactionPerspective {
    TransactionPerspective {
        payload_keys: vec![PayloadKeyWithCommitment { payload_key: PayloadKey { inner: vec![42] }, commitment: b"cm".to_vec() }],
        spend_nullifiers: vec![NullifierWithNote { nullifier: b"nf".to_vec(), note: b"note".to_vec() }],
        transaction_id: None,
    }
}

fn spend(n: &[u8]) -> Spend {
    Spend { body: SpendBody { balance_commitment: vec![], nullifier: n.to_vec(), rk: vec![] }, auth_sig: vec![], proof: vec![] }
}

#[test]
fn spends_are_visible_only_with_their_note() {
    let p = perspective();
    match p.view_spend(spend(b"nf")) {
        SpendView::Visible(v) => assert_eq!(v.note, b"note".to_vec()),
        SpendView::Opaque(_) => panic!("should be visible"),
    }
    assert!(matches!(p.view_spend(spend(b"other")), SpendView::Opaque(_)));
}

#[test]
fn outputs_are_visible_only_with_their_key() {
    let p = perspective();
    let out = |cm: &[u8]| Output {
        body: OutputBody { note_commitment: cm.to_vec(), balance_commitment: vec![], wrapped_memo_key: vec![], ovk_wrapped_key: vec![] },
        proof: vec![],
    };
    match p.view_action(Action::Output(out(b"cm"))) {
        ActionView::Output(OutputView::Visible(v)) => assert_eq!(v.payload_key.inner, vec![42]),
        _ => panic!("should be a visible output"),
    }
    assert!(matches!(p.view_action(Action::Output(out(b"x"))), ActionView::Output(OutputView::Opaque(_))));
}

#[test]
fn memo_view_exposes_ciphertext() {
    let m = MemoView::Opaque(MemoOpaque { ciphertext: MemoCiphertext { inner: vec![1, 2] } });
    assert_eq!(m.ciphertext().inner, vec![1, 2]);
}

#[test]
fn tx_cmd_offline() {
    assert!(!TxCmd::Sweep.offline());
    assert!(!TxCmd::UndelegateClaim { fee: 0 }.offline());
    assert!(TxCmd::Proposal { offline: true }.offline());
    assert!(!TxCmd::Position { offline: false }.offline());
    assert_eq!(VoteCmd::No { proposal_id: 4 }.proposal_vote(), (4, Vote::No));
}

#[test]
fn plan_counts_spends() {
    let sp = || ActionPlan::Spend(SpendPlan {
        note: vec![],
        position: 0,
        randomizer: vec![],
        value_blinding: vec![],
        proof_blinding_r: vec![],
        proof_blinding_s: vec![],
    });
    let plan = TransactionPlan { actions: vec![sp(), sp()], expiry_height: 0, chain_id: vec![], fee: 0, clue_plans: vec![], memo_plan: None };
    assert_eq!(plan.spend_count(), 2);
    let auth = AuthorizationData { effect_hash: vec![], spend_auths: vec![vec![1]], delegator_vote_auths: vec![] };
    assert!(!plan.authorization_complete(&auth));
}

#[test]
fn viewing_a_transaction_and_back_keeps_it() {
    let p = perspective();
    let make = || Transaction {
        body: TransactionBody {
            actions: vec![
                Action::Spend(spend(b"nf")),
                Action::Spend(spend(b"zz")),
                Action::Output(Output {
                    body: OutputBody { note_commitment: b"cm".to_vec(), balance_commitment: vec![], wrapped_memo_key: vec![], ovk_wrapped_key: vec![] },
                    proof: vec![],
                }),
            ],
            transaction_parameters: TransactionParameters { expiry_height: 5, chain_id: b"c".to_vec() },
            fee: 3,
            detection_data: None,
            memo_data: None,
        },
        binding_sig: vec![1],
        anchor: vec![2],
    };
    let view = p.view_transaction(make());
    assert!(matches!(view.body_view.action_views[0], ActionView::Spend(SpendView::Visible(_))));
    assert!(matches!(view.body_view.action_views[1], ActionView::Spend(SpendView::Opaque(_))));
    assert!(matches!(view.body_view.action_views[2], ActionView::Output(OutputView::Visible(_))));
    let back = view.transaction();
    assert_eq!(encode_transaction(&back), encode_transaction(&make()));
}
