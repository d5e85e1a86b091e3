use prost::Message;
use shielded_ledger::storage::{StateDelta, Storage};

fn apphash_spec() -> ics23::ProofSpec {
    ics23::ProofSpec {
        leaf_spec: Some(ics23::LeafOp {
            prefix: vec![],
            hash: ics23::HashOp::Sha256.into(),
            length: ics23::LengthOp::NoPrefix.into(),
            prehash_key: ics23::HashOp::NoHash.into(),
            prehash_value: ics23::HashOp::NoHash.into(),
        }),
        inner_spec: Some(ics23::InnerSpec {
            hash: ics23::HashOp::Sha256.into(),
            child_order: vec![0, 1],
            child_size: 32,
            empty_child: vec![],
            min_prefix_length: 0,
            max_prefix_length: 0,
        }),
        min_depth: 0,
        max_depth: 1,
        prehash_key_before_comparison: true,
    }
}

fn committed() -> Storage {
    let mut storage = Storage::new();
    let mut delta = StateDelta::new(storage.latest_snapshot());
    delta.put(b"foo-key".to_vec(), b"1".to_vec());
    delta.put(b"other".to_vec(), b"2".to_vec());
    storage.commit(delta).unwrap();
    storage
}

#[test]
fn membership_proof_verifies_up_to_the_app_hash() {
    let storage = committed();
    let snap = storage.latest_snapshot();
    let root = snap.root_hash().unwrap();
    let app_hash = snap.app_hash().unwrap().0;
    let (value, proofs) = snap.get_with_proof_to_apphash(&b"foo-key".to_vec()).expect("proofs");
    assert_eq!(value, Some(b"1".to_vec()));
    assert_eq!(proofs.len(), 2);
    let tree_proof = ics23::CommitmentProof::decode(proofs[0].as_slice()).unwrap();
    assert!(ics23::verify_membership::<ics23::HostFunctionsManager>(&tree_proof, &jmt::ics23_spec(), &root, b"foo-key", b"1"));
    let root_proof = ics23::CommitmentProof::decode(proofs[1].as_slice()).unwrap();
    assert!(ics23::verify_membership::<ics23::HostFunctionsManager>(&root_proof, &apphash_spec(), &app_hash, b"PenumbraAppHash", &root));
    assert!(!ics23::verify_membership::<ics23::HostFunctionsManager>(&root_proof, &apphash_spec(), &root, b"PenumbraAppHash", &root));
}

#[test]
fn non_membership_proof_verifies_against_the_root() {
    let storage = committed();
    let snap = storage.latest_snapshot();
    let root = snap.root_hash().unwrap();
    let (value, proofs) = snap.get_with_proof_to_apphash(&b"missing".to_vec()).expect("proofs");
    assert_eq!(value, None);
    let tree_proof = ics23::CommitmentProof::decode(proofs[0].as_slice()).unwrap();
    assert!(ics23::verify_non_membership::<ics23::HostFunctionsManager>(&tree_proof, &jmt::ics23_spec(), &root, b"missing"));
}

#[test]
fn no_proofs_before_the_first_commit() {
    let storage = Storage::new();
    assert!(storage.latest_snapshot().get_with_proof_to_apphash(&b"k".to_vec()).is_none());
}
