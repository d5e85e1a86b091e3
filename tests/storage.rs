use shielded_ledger::keys::key_hash;
use shielded_ledger::storage::{verify_root_binding, StateDelta, Storage, StorageError, PRE_GENESIS_VERSION};

fn put_and_commit(storage: &mut Storage, key: &[u8], value: &[u8]) -> Vec<u8> {
    let mut delta = StateDelta::new(storage.latest_snapshot());
    delta.put(key.to_vec(), value.to_vec());
    storage.commit(delta).expect("commit on the latest version")
}

#[test]
fn empty_store_is_pre_genesis() {
    let storage = Storage::new();
    assert_eq!(storage.latest_version(), PRE_GENESIS_VERSION);
    assert_eq!(storage.latest_snapshot().version(), u64::MAX);
    assert!(storage.latest_snapshot().root_hash().is_none());
    assert!(storage.latest_snapshot().app_hash().is_none());
}

#[test]
fn first_commit_wraps_to_version_zero() {
    let mut storage = Storage::new();
    let root = put_and_commit(&mut storage, b"a", b"1");
    assert_eq!(root.len(), 32);
    assert_eq!(storage.latest_version(), 0);
    put_and_commit(&mut storage, b"b", b"2");
    assert_eq!(storage.latest_version(), 1);
}

#[test]
fn two_commits_read_at_each_version() {
    let mut storage = Storage::new();
    put_and_commit(&mut storage, b"a", &[1]);
    let v1 = storage.latest_version();
    put_and_commit(&mut storage, b"a", &[2]);
    let v2 = storage.latest_version();
    assert_eq!(v2, v1 + 1);
    let s1 = storage.snapshot(v1).expect("cached");
    let s2 = storage.snapshot(v2).expect("cached");
    assert_eq!(s1.get(&b"a".to_vec()), Some(vec![1]));
    assert_eq!(s2.get(&b"a".to_vec()), Some(vec![2]));
}

#[test]
fn version_conflict_leaves_store_unchanged() {
    let mut storage = Storage::new();
    let stale = StateDelta::new(storage.latest_snapshot());
    put_and_commit(&mut storage, b"a", b"1");
    let root_before = storage.latest_snapshot().root_hash();
    let mut stale = stale;
    stale.put(b"a".to_vec(), b"9".to_vec());
    let r = storage.commit(stale);
    assert_eq!(r, Err(StorageError::VersionConflict { expected: 0, found: u64::MAX }));
    assert_eq!(storage.latest_version(), 0);
    assert_eq!(storage.latest_snapshot().root_hash(), root_before);
    assert_eq!(storage.latest_snapshot().get(&b"a".to_vec()), Some(b"1".to_vec()));
}

#[test]
fn put_then_delete_reads_back() {
    let mut storage = Storage::new();
    put_and_commit(&mut storage, b"k", b"v");
    assert_eq!(storage.latest_snapshot().get(&b"k".to_vec()), Some(b"v".to_vec()));
    let mut delta = StateDelta::new(storage.latest_snapshot());
    delta.delete(b"k".to_vec());
    storage.commit(delta).unwrap();
    assert_eq!(storage.latest_snapshot().get(&b"k".to_vec()), None);
}

#[test]
fn app_hash_depends_on_content_only() {
    let mut a = Storage::new();
    let mut b = Storage::new();
    let mut da = StateDelta::new(a.latest_snapshot());
    da.put(b"x".to_vec(), b"1".to_vec());
    da.put(b"y".to_vec(), b"2".to_vec());
    let ra = a.commit(da).unwrap();
    let mut db = StateDelta::new(b.latest_snapshot());
    db.put(b"y".to_vec(), b"2".to_vec());
    db.put(b"x".to_vec(), b"0".to_vec());
    db.put(b"x".to_vec(), b"1".to_vec());
    let rb = b.commit(db).unwrap();
    assert_eq!(ra, rb);
    let ha = a.latest_snapshot().app_hash().unwrap();
    let hb = b.latest_snapshot().app_hash().unwrap();
    assert_eq!(ha.0, hb.0);
    assert_ne!(ha.0, ra);
}

#[test]
fn different_content_gives_different_root() {
    let mut a = Storage::new();
    let mut b = Storage::new();
    let ra = put_and_commit(&mut a, b"x", b"1");
    let rb = put_and_commit(&mut b, b"x", b"2");
    assert_ne!(ra, rb);
}

#[test]
fn checkpoints_apply_and_discard() {
    let storage = Storage::new();
    let mut delta = StateDelta::new(storage.latest_snapshot());
    delta.put(b"a".to_vec(), b"1".to_vec());
    delta.begin_checkpoint();
    delta.put(b"a".to_vec(), b"2".to_vec());
    assert_eq!(delta.get(&b"a".to_vec()), Some(b"2".to_vec()));
    delta.discard_checkpoint();
    assert_eq!(delta.get(&b"a".to_vec()), Some(b"1".to_vec()));
    delta.begin_checkpoint();
    delta.delete(b"a".to_vec());
    delta.apply_checkpoint();
    assert_eq!(delta.get(&b"a".to_vec()), None);
}

#[test]
fn nonverifiable_writes_do_not_touch_the_root() {
    let mut a = Storage::new();
    let mut b = Storage::new();
    let mut da = StateDelta::new(a.latest_snapshot());
    da.put(b"k".to_vec(), b"v".to_vec());
    da.nonverifiable_put(b"n".to_vec(), b"w".to_vec());
    let ra = a.commit(da).unwrap();
    let rb = put_and_commit(&mut b, b"k", b"v");
    assert_eq!(ra, rb);
    assert_eq!(a.latest_snapshot().nonverifiable_get(&b"n".to_vec()), Some(b"w".to_vec()));
    assert_eq!(a.latest_snapshot().get(&b"n".to_vec()), None);
}

#[test]
fn snapshot_cache_serves_recent_versions_only() {
    let mut storage = Storage::new();
    for i in 0..12u8 {
        put_and_commit(&mut storage, b"a", &[i]);
    }
    assert_eq!(storage.latest_version(), 11);
    assert!(storage.snapshot(1).is_none());
    assert_eq!(storage.snapshot(2).unwrap().get(&b"a".to_vec()), Some(vec![2]));
    assert!(storage.snapshot(12).is_none());
    assert!(storage.snapshot(PRE_GENESIS_VERSION).is_none());
}

#[test]
fn preimage_index_follows_live_keys() {
    let mut storage = Storage::new();
    put_and_commit(&mut storage, b"alpha", b"1");
    let h = key_hash(&b"alpha".to_vec());
    assert_eq!(storage.latest_snapshot().preimage(&h), Some(b"alpha".to_vec()));
    assert_eq!(storage.latest_snapshot().preimage(&key_hash(&b"beta".to_vec())), None);
    let mut delta = StateDelta::new(storage.latest_snapshot());
    delta.delete(b"alpha".to_vec());
    storage.commit(delta).unwrap();
    assert_eq!(storage.latest_snapshot().preimage(&h), None);
    assert_eq!(storage.snapshot(0).unwrap().preimage(&h), Some(b"alpha".to_vec()));
}

#[test]
fn reads_come_with_proofs_bound_to_the_app_hash() {
    let storage = Storage::new();
    assert!(storage.latest_snapshot().get_with_proof(&b"a".to_vec()).is_none());
    let mut storage = storage;
    let mut delta = StateDelta::new(storage.latest_snapshot());
    delta.put(b"a".to_vec(), b"1".to_vec());
    delta.put(b"c".to_vec(), b"3".to_vec());
    let root = storage.commit(delta).unwrap();
    let snap = storage.latest_snapshot();
    let (value, proof) = snap.get_with_proof(&b"a".to_vec()).expect("proof");
    assert_eq!(value, Some(b"1".to_vec()));
    assert_eq!(proof.root, root);
    assert!(!proof.tree_proof.is_empty());
    let (absent, absence_proof) = snap.get_with_proof(&b"b".to_vec()).expect("proof");
    assert_eq!(absent, None);
    assert!(!absence_proof.tree_proof.is_empty());
    assert_ne!(absence_proof.tree_proof, proof.tree_proof);
    let app_hash = snap.app_hash().unwrap();
    assert!(verify_root_binding(&proof.root, &app_hash.0));
    assert!(!verify_root_binding(&proof.root, &root));
}
