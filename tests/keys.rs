use shielded_ledger::keys::{key_hash, KeyError, VersionedKeyHash};

#[test]
fn key_hash_is_sha256_of_the_key() {
    let h = key_hash(&b"abc".to_vec());
    assert_eq!(h.len(), 32);
    assert_eq!(&h[..4], &[0xba, 0x78, 0x16, 0xbf]);
    assert_ne!(key_hash(&b"abd".to_vec()), h);
}

#[test]
fn versioned_key_hash_encodes_big_endian_and_round_trips() {
    let kh = key_hash(&b"a".to_vec());
    let v = VersionedKeyHash::new(0x0102030405060708, kh.clone());
    let bytes = v.encode();
    assert_eq!(bytes.len(), 40);
    assert_eq!(&bytes[32..], &[1, 2, 3, 4, 5, 6, 7, 8]);
    let back = VersionedKeyHash::decode(&bytes).unwrap();
    assert_eq!(back.key_hash, kh);
    assert_eq!(back.version, 0x0102030405060708);
    assert_eq!(VersionedKeyHash::decode(&bytes[..39].to_vec()).err(), Some(KeyError::InvalidSize));
}

#[test]
fn versioned_keys_sort_by_version() {
    let kh = key_hash(&b"a".to_vec());
    let a = VersionedKeyHash::new(255, kh.clone()).encode();
    let b = VersionedKeyHash::new(256, kh).encode();
    assert!(a < b);
}
