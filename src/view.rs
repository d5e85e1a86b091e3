use vstd::prelude::*;
use crate::log::{bytes_eq, copy_bytes};
use crate::search::{first_match, lemma_first_match_prefix, lemma_first_match_step, lemma_full_prefix};
use crate::transaction::{
    Action, DetectionData, Id, MemoData, Output, Spend, Transaction, TransactionBody, TransactionParameters,
};

pub mod delegator_vote_view;
pub mod memo_view;
pub mod output_view;
pub mod spend_view;

use crate::view::delegator_vote_view::DelegatorVote as DelegatorVoteView;
use crate::view::output_view::OutputView;
use crate::view::spend_view::SpendView;

verus! {

/// The key that decrypts one output's payload.
pub struct PayloadKey {
    pub inner: Vec<u8>,
}

/// An encrypted memo.
pub struct MemoCiphertext {
    pub inner: Vec<u8>,
}

/// A payload key, with the note commitment of the output it opens.
pub struct PayloadKeyWithCommitment {
    pub payload_key: PayloadKey,
    pub commitment: Vec<u8>,
}

/// A nullifier, with the note it spends.
pub struct NullifierWithNote {
    pub nullifier: Vec<u8>,
    pub note: Vec<u8>,
}

/// What one viewer knows about a transaction: the payload keys of its
/// outputs and the notes of its spends.
pub struct TransactionPerspective {
    pub payload_keys: Vec<PayloadKeyWithCommitment>,
    pub spend_nullifiers: Vec<NullifierWithNote>,
    pub transaction_id: Option<Id>,
}

/// One action as a viewer sees it.
pub enum ActionView {
    Spend(SpendView),
    Output(OutputView),
    DelegatorVote(DelegatorVoteView),
    /// An action that shows the same to every viewer.
    Action(Action),
}

/// Entries of nullifier `n`.
pub open spec fn nullifier_is(n: Seq<u8>) -> spec_fn((Seq<u8>, Seq<u8>)) -> bool {
    |e: (Seq<u8>, Seq<u8>)| e.0 == n
}

/// Entries of commitment `c`.
pub open spec fn commitment_is(c: Seq<u8>) -> spec_fn((Seq<u8>, Seq<u8>)) -> bool {
    |e: (Seq<u8>, Seq<u8>)| e.0 == c
}

impl TransactionPerspective {
    /// The (nullifier, note) pairs the viewer knows.
    pub open spec fn notes(&self) -> Seq<(Seq<u8>, Seq<u8>)> {
        self.spend_nullifiers@.map_values(|e: NullifierWithNote| (e.nullifier@, e.note@))
    }

    /// The (commitment, payload key) pairs the viewer knows.
    pub open spec fn keys(&self) -> Seq<(Seq<u8>, Seq<u8>)> {
        self.payload_keys@.map_values(|e: PayloadKeyWithCommitment| (e.commitment@, e.payload_key.inner@))
    }

    /// The note spent under nullifier `n`, where the viewer knows it.
    pub open spec fn note_for(&self, n: Seq<u8>) -> Option<Seq<u8>> {
        match first_match(self.notes(), nullifier_is(n)) {
            Some(e) => Some(e.1),
            None => None,
        }
    }

    /// The payload key of the output committed to by `c`, where the viewer
    /// knows it.
    pub open spec fn key_for(&self, c: Seq<u8>) -> Option<Seq<u8>> {
        match first_match(self.keys(), commitment_is(c)) {
            Some(e) => Some(e.1),
            None => None,
        }
    }

    /// The note spent under nullifier `n`, where the viewer knows it.
    pub fn find_note(&self, n: &Vec<u8>) -> (r: Option<Vec<u8>>)
        ensures
            match r {
                Some(v) => self.note_for(n@) == Some(v@),
                None => self.note_for(n@) is None,
            },
    {
        let ghost p = nullifier_is(n@);
        let ghost s = self.notes();
        let mut i: usize = 0;
        assert(s.subrange(0, 0) =~= Seq::<(Seq<u8>, Seq<u8>)>::empty());
        while i < self.spend_nullifiers.len()
            invariant
                p == nullifier_is(n@),
                s == self.notes(),
                0 <= i <= s.len(),
                first_match(s.subrange(0, i as int), p) is None,
            decreases s.len() - i,
        {
            proof { lemma_first_match_step(s, i as int, p); }
            if bytes_eq(&self.spend_nullifiers[i].nullifier, n) {
                proof { lemma_first_match_prefix(s, i + 1, p); }
                return Some(copy_bytes(&self.spend_nullifiers[i].note));
            }
            i = i + 1;
        }
        proof { lemma_full_prefix(s); }
        None
    }

    /// The payload key of the output committed to by `c`, where the viewer
    /// knows it.
    pub fn find_payload_key(&self, c: &Vec<u8>) -> (r: Option<PayloadKey>)
        ensures
            match r {
                Some(k) => self.key_for(c@) == Some(k.inner@),
                None => self.key_for(c@) is None,
            },
    {
        let ghost p = commitment_is(c@);
        let ghost s = self.keys();
        let mut i: usize = 0;
        assert(s.subrange(0, 0) =~= Seq::<(Seq<u8>, Seq<u8>)>::empty());
        while i < self.payload_keys.len()
            invariant
                p == commitment_is(c@),
                s == self.keys(),
                0 <= i <= s.len(),
                first_match(s.subrange(0, i as int), p) is None,
            decreases s.len() - i,
        {
            proof { lemma_first_match_step(s, i as int, p); }
            if bytes_eq(&self.payload_keys[i].commitment, c) {
                proof { lemma_first_match_prefix(s, i + 1, p); }
                return Some(PayloadKey { inner: copy_bytes(&self.payload_keys[i].payload_key.inner) });
            }
            i = i + 1;
        }
        proof { lemma_full_prefix(s); }
        None
    }

    /// A spend as this viewer sees it: with its note where the viewer knows
    /// the note of its nullifier.
    pub fn view_spend(&self, spend: Spend) -> (r: SpendView)
        ensures
            match r {
                SpendView::Visible(v) => v.spend == spend && self.note_for(spend.body.nullifier@) == Some(
                    v.note@,
                ),
                SpendView::Opaque(o) => o.spend == spend && self.note_for(spend.body.nullifier@) is None,
            },
    {
        match self.find_note(&spend.body.nullifier) {
            Some(note) => SpendView::Visible(crate::view::spend_view::Visible { spend, note }),
            None => SpendView::Opaque(crate::view::spend_view::Opaque { spend }),
        }
    }

    /// An output as this viewer sees it: with its payload key where the
    /// viewer knows the key of its note commitment.
    pub fn view_output(&self, output: Output) -> (r: OutputView)
        ensures
            match r {
                OutputView::Visible(v) => v.output == output && self.key_for(output.body.note_commitment@)
                    == Some(v.payload_key.inner@),
                OutputView::Opaque(o) => o.output == output && self.key_for(output.body.note_commitment@) is None,
            },
    {
        match self.find_payload_key(&output.body.note_commitment) {
            Some(payload_key) => OutputView::Visible(crate::view::output_view::Visible { output, payload_key }),
            None => OutputView::Opaque(crate::view::output_view::Opaque { output }),
        }
    }

    /// Whether `v` is how this viewer sees action `a`: a spend, output or
    /// delegator vote shows its note or payload key exactly where the viewer
    /// knows it; other actions show as themselves.
    pub open spec fn views_as(&self, a: Action, v: ActionView) -> bool {
        match a {
            Action::Spend(s) => match v {
                ActionView::Spend(SpendView::Visible(x)) => x.spend == s && self.note_for(s.body.nullifier@)
                    == Some(x.note@),
                ActionView::Spend(SpendView::Opaque(x)) => x.spend == s && self.note_for(s.body.nullifier@) is None,
                _ => false,
            },
            Action::Output(o) => match v {
                ActionView::Output(OutputView::Visible(x)) => x.output == o && self.key_for(o.body.note_commitment@)
                    == Some(x.payload_key.inner@),
                ActionView::Output(OutputView::Opaque(x)) => x.output == o && self.key_for(o.body.note_commitment@)
                    is None,
                _ => false,
            },
            Action::DelegatorVote(d) => match v {
                ActionView::DelegatorVote(DelegatorVoteView::Visible(x)) => x.delegator_vote == d && self.note_for(
                    d.nullifier@,
                ) == Some(x.note@),
                ActionView::DelegatorVote(DelegatorVoteView::Opaque(x)) => x.delegator_vote == d && self.note_for(
                    d.nullifier@,
                ) is None,
                _ => false,
            },
            _ => v == ActionView::Action(a),
        }
    }

    /// An action as this viewer sees it.
    pub fn view_action(&self, a: Action) -> (r: ActionView)
        ensures
            self.views_as(a, r),
    {
        match a {
            Action::Spend(s) => ActionView::Spend(self.view_spend(s)),
            Action::Output(o) => ActionView::Output(self.view_output(o)),
            Action::DelegatorVote(d) => {
                match self.find_note(&d.nullifier) {
                    Some(note) => ActionView::DelegatorVote(
                        DelegatorVoteView::Visible(
                            crate::view::delegator_vote_view::Visible { delegator_vote: d, note },
                        ),
                    ),
                    None => ActionView::DelegatorVote(
                        DelegatorVoteView::Opaque(crate::view::delegator_vote_view::Opaque { delegator_vote: d }),
                    ),
                }
            },
            other => ActionView::Action(other),
        }
    }
}


/// The action that a view shows.
pub open spec fn action_of(v: ActionView) -> Action {
    match v {
        ActionView::Spend(SpendView::Visible(x)) => Action::Spend(x.spend),
        ActionView::Spend(SpendView::Opaque(x)) => Action::Spend(x.spend),
        ActionView::Output(OutputView::Visible(x)) => Action::Output(x.output),
        ActionView::Output(OutputView::Opaque(x)) => Action::Output(x.output),
        ActionView::DelegatorVote(DelegatorVoteView::Visible(x)) => Action::DelegatorVote(x.delegator_vote),
        ActionView::DelegatorVote(DelegatorVoteView::Opaque(x)) => Action::DelegatorVote(x.delegator_vote),
        ActionView::Action(a) => a,
    }
}

impl ActionView {
    /// The action this view shows, whatever the viewer knew.
    pub fn action(self) -> (r: Action)
        ensures
            r == action_of(self),
    {
        match self {
            ActionView::Spend(SpendView::Visible(x)) => Action::Spend(x.spend),
            ActionView::Spend(SpendView::Opaque(x)) => Action::Spend(x.spend),
            ActionView::Output(OutputView::Visible(x)) => Action::Output(x.output),
            ActionView::Output(OutputView::Opaque(x)) => Action::Output(x.output),
            ActionView::DelegatorVote(DelegatorVoteView::Visible(x)) => Action::DelegatorVote(x.delegator_vote),
            ActionView::DelegatorVote(DelegatorVoteView::Opaque(x)) => Action::DelegatorVote(x.delegator_vote),
            ActionView::Action(a) => a,
        }
    }
}

/// Viewing loses nothing: whatever a viewer knows, the action a view shows
/// is the action viewed.
pub proof fn lemma_view_action_round_trip(p: TransactionPerspective, a: Action, v: ActionView)
    requires
        p.views_as(a, v),
    ensures
        action_of(v) == a,
{
}

/// The body of a transaction as one viewer sees it.
pub struct TransactionBodyView {
    pub action_views: Vec<ActionView>,
    pub transaction_parameters: TransactionParameters,
    pub fee: u64,
    pub detection_data: Option<DetectionData>,
    pub memo_data: Option<MemoData>,
}

/// A transaction as one viewer sees it.
pub struct TransactionView {
    pub body_view: TransactionBodyView,
    pub binding_sig: Vec<u8>,
    pub anchor: Vec<u8>,
}

impl TransactionPerspective {
    /// Whether `v` is how this viewer sees transaction `tx`: every action
    /// seen as [`TransactionPerspective::views_as`] says, everything else as
    /// it is.
    pub open spec fn views_tx_as(&self, tx: Transaction, v: TransactionView) -> bool {
        &&& v.body_view.action_views@.len() == tx.body.actions@.len()
        &&& forall|i: int|
            0 <= i < tx.body.actions@.len() ==> self.views_as(
                #[trigger] tx.body.actions@[i],
                v.body_view.action_views@[i],
            )
        &&& v.body_view.transaction_parameters == tx.body.transaction_parameters
        &&& v.body_view.fee == tx.body.fee
        &&& v.body_view.detection_data == tx.body.detection_data
        &&& v.body_view.memo_data == tx.body.memo_data
        &&& v.binding_sig == tx.binding_sig
        &&& v.anchor == tx.anchor
    }

    /// A transaction as this viewer sees it.
    pub fn view_transaction(&self, tx: Transaction) -> (r: TransactionView)
        ensures
            self.views_tx_as(tx, r),
    {
        let Transaction { body, binding_sig, anchor } = tx;
        let TransactionBody { actions, transaction_parameters, fee, detection_data, memo_data } = body;
        let ghost all = actions@;
        let mut actions = actions;
        let mut views: Vec<ActionView> = Vec::new();
        while actions.len() > 0
            invariant
                views@.len() + actions@.len() == all.len(),
                actions@ == all.subrange(views@.len() as int, all.len() as int),
                forall|i: int| 0 <= i < views@.len() ==> self.views_as(#[trigger] all[i], views@[i]),
            decreases actions@.len(),
        {
            let ghost n = views@.len() as int;
            let a = actions.remove(0);
            assert(a == all[n]);
            let v = self.view_action(a);
            views.push(v);
            assert(actions@ =~= all.subrange(views@.len() as int, all.len() as int));
        }
        TransactionView {
            body_view: TransactionBodyView {
                action_views: views,
                transaction_parameters,
                fee,
                detection_data,
                memo_data,
            },
            binding_sig,
            anchor,
        }
    }
}

impl TransactionView {
    /// The transaction this view shows.
    pub fn transaction(self) -> (r: Transaction)
        ensures
            r.body.actions@ == self.body_view.action_views@.map_values(|v: ActionView| action_of(v)),
            r.body.transaction_parameters == self.body_view.transaction_parameters,
            r.body.fee == self.body_view.fee,
            r.body.detection_data == self.body_view.detection_data,
            r.body.memo_data == self.body_view.memo_data,
            r.binding_sig == self.binding_sig,
            r.anchor == self.anchor,
    {
        let TransactionView { body_view, binding_sig, anchor } = self;
        let TransactionBodyView { action_views, transaction_parameters, fee, detection_data, memo_data } = body_view;
        let ghost all = action_views@;
        let mut views = action_views;
        let mut actions: Vec<Action> = Vec::new();
        while views.len() > 0
            invariant
                actions@.len() + views@.len() == all.len(),
                views@ == all.subrange(actions@.len() as int, all.len() as int),
                actions@ =~= all.subrange(0, actions@.len() as int).map_values(|v: ActionView| action_of(v)),
            decreases views@.len(),
        {
            let ghost n = actions@.len() as int;
            let v = views.remove(0);
            assert(v == all[n]);
            actions.push(v.action());
            assert(views@ =~= all.subrange(actions@.len() as int, all.len() as int));
            assert(all.subrange(0, n + 1).map_values(|v: ActionView| action_of(v)) =~= all.subrange(0, n).map_values(
                |v: ActionView| action_of(v),
            ).push(action_of(all[n])));
        }
        Transaction {
            body: TransactionBody { actions, transaction_parameters, fee, detection_data, memo_data },
            binding_sig,
            anchor,
        }
    }
}

/// Viewing a transaction loses nothing: the transaction a view shows has the
/// actions and every other part of the transaction viewed.
pub proof fn lemma_view_transaction_round_trip(p: TransactionPerspective, tx: Transaction, v: TransactionView)
    requires
        p.views_tx_as(tx, v),
    ensures
        v.body_view.action_views@.map_values(|w: ActionView| action_of(w)) == tx.body.actions@,
{
    assert forall|i: int| 0 <= i < tx.body.actions@.len() implies action_of(v.body_view.action_views@[i])
        == tx.body.actions@[i] by {
        assert(p.views_as(tx.body.actions@[i], v.body_view.action_views@[i]));
    }
    assert(v.body_view.action_views@.map_values(|w: ActionView| action_of(w)) =~= tx.body.actions@);
}

} // verus!
