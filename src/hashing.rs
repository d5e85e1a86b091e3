use vstd::prelude::*;

verus! {

/// The SHA-256 digest of a byte string.
pub uninterp spec fn sha256_of(data: Seq<u8>) -> Seq<u8>;

/// The root hash of the SHA-256 Jellyfish Merkle tree whose leaves are the
/// given key/value pairs (each key addressed by the SHA-256 hash of its bytes).
/// The tree's shape depends only on the set of leaves, so the root is a
/// function of the map alone.
pub uninterp spec fn jmt_root_of(content: Map<Seq<u8>, Seq<u8>>) -> Seq<u8>;

/// Whether building the tree over `content` reports an error.
pub uninterp spec fn jmt_root_fails(content: Map<Seq<u8>, Seq<u8>>) -> bool;

/// The value of the last pair in `pairs` whose key is `k`.
pub open spec fn pair_find(pairs: Seq<(Vec<u8>, Vec<u8>)>, k: Seq<u8>) -> Option<Seq<u8>>
    decreases pairs.len(),
{
    if pairs.len() == 0 {
        None
    } else if pairs.last().0@ == k {
        Some(pairs.last().1@)
    } else {
        pair_find(pairs.drop_last(), k)
    }
}

/// The map that a list of key/value pairs describes.
pub open spec fn pairs_map(pairs: Seq<(Vec<u8>, Vec<u8>)>) -> Map<Seq<u8>, Seq<u8>> {
    Map::new(|k: Seq<u8>| pair_find(pairs, k) is Some, |k: Seq<u8>| pair_find(pairs, k)->Some_0)
}

/// No two pairs share a key.
pub open spec fn distinct_keys(pairs: Seq<(Vec<u8>, Vec<u8>)>) -> bool {
    forall|i: int, j: int|
        0 <= i < pairs.len() && 0 <= j < pairs.len() && i != j ==> (#[trigger] pairs[i]).0@
            != (#[trigger] pairs[j]).0@
}

/// Relies on sha2::Sha256::digest: the 32-byte SHA-256 digest of `data`.
#[verifier::external_body]
pub(crate) fn sha256(data: &Vec<u8>) -> (r: Vec<u8>)
    ensures
        r@ == sha256_of(data@),
        r@.len() == 32,
{
    <sha2::Sha256 as sha2::Digest>::digest(data.as_slice()).to_vec()
}

/// Relies on jmt's `JellyfishMerkleTree::put_value_set` over an empty
/// in-memory tree store: writes every pair as a leaf at version 0 and hands
/// back the 32-byte root, or `None` where the tree reports an error.
#[verifier::external_body]
pub(crate) fn jmt_root(pairs: &Vec<(Vec<u8>, Vec<u8>)>) -> (r: Option<Vec<u8>>)
    requires
        distinct_keys(pairs@),
    ensures
        r is None <==> jmt_root_fails(pairs_map(pairs@)),
        r matches Some(h) ==> h@ == jmt_root_of(pairs_map(pairs@)) && h@.len() == 32,
{
    let store = jmt::mock::MockTreeStore::default();
    let tree = jmt::Sha256Jmt::new(&store);
    let leaves = pairs.iter().map(|(k, v)| (jmt::KeyHash::with::<sha2::Sha256>(k), Some(v.clone())));
    tree.put_value_set(leaves, 0).ok().map(|(root, _)| root.0.to_vec())
}


/// The protobuf encoding of the ICS-23 commitment proof that the SHA-256
/// Jellyfish Merkle tree over `content` gives for `key`: an existence proof
/// where the key has a value, a non-existence proof otherwise.
pub uninterp spec fn ics23_proof_of(content: Map<Seq<u8>, Seq<u8>>, key: Seq<u8>) -> Seq<u8>;

/// Whether building the tree over `content` and proving `key` in it
/// reports an error (it does on an empty tree).
pub uninterp spec fn ics23_proof_fails(content: Map<Seq<u8>, Seq<u8>>, key: Seq<u8>) -> bool;

/// Relies on jmt's `JellyfishMerkleTree::get_with_ics23_proof` over an
/// in-memory tree store filled with the pairs at version 0 (with the key
/// preimages that non-existence proofs name), and on prost's
/// `Message::encode_to_vec` for the proof: the value under `key` and the
/// encoded proof, or `None` where the tree reports an error.
#[verifier::external_body]
pub(crate) fn jmt_get_with_proof(pairs: &Vec<(Vec<u8>, Vec<u8>)>, key: &Vec<u8>) -> (r: Option<(Option<Vec<u8>>, Vec<u8>)>)
    requires
        distinct_keys(pairs@),
    ensures
        r is None <==> ics23_proof_fails(pairs_map(pairs@), key@),
        r matches Some((v, proof)) ==> crate::log::opt_bytes(v) == pair_find(pairs@, key@) && proof@
            == ics23_proof_of(pairs_map(pairs@), key@),
{
    let store = jmt::mock::MockTreeStore::default();
    for (k, _) in pairs.iter() {
        store.put_key_preimage(jmt::KeyHash::with::<sha2::Sha256>(k), k);
    }
    let tree = jmt::Sha256Jmt::new(&store);
    let leaves = pairs.iter().map(|(k, v)| (jmt::KeyHash::with::<sha2::Sha256>(k), Some(v.clone())));
    let (_, batch) = tree.put_value_set(leaves, 0).ok()?;
    store.write_tree_update_batch(batch).ok()?;
    let (value, proof) = tree.get_with_ics23_proof(key.clone(), 0).ok()?;
    Some((value, prost::Message::encode_to_vec(&proof)))
}

/// The protobuf encoding of the ICS-23 commitment proof that holds one
/// existence proof of `value` under `key`, with an empty path and the leaf
/// operation given by its hash, key prehash, value prehash and length codes
/// and its prefix.
pub uninterp spec fn ics23_exist_of(
    key: Seq<u8>,
    value: Seq<u8>,
    hash: i32,
    prehash_key: i32,
    prehash_value: i32,
    length: i32,
    prefix: Seq<u8>,
) -> Seq<u8>;

/// Relies on ics23's `CommitmentProof`, `ExistenceProof` and `LeafOp`
/// messages and prost's `Message::encode_to_vec`: builds the existence proof
/// of `value` under `key` with the given leaf operation and no inner steps,
/// and encodes it.
#[verifier::external_body]
pub(crate) fn ics23_existence_proof(
    key: &Vec<u8>,
    value: &Vec<u8>,
    hash: i32,
    prehash_key: i32,
    prehash_value: i32,
    length: i32,
    prefix: &Vec<u8>,
) -> (r: Vec<u8>)
    ensures
        r@ == ics23_exist_of(key@, value@, hash, prehash_key, prehash_value, length, prefix@),
{
    let leaf = ics23::LeafOp { hash, prehash_key, prehash_value, length, prefix: prefix.clone() };
    let exist = ics23::ExistenceProof { key: key.clone(), value: value.clone(), leaf: Some(leaf), path: Vec::new() };
    let proof = ics23::CommitmentProof { proof: Some(ics23::commitment_proof::Proof::Exist(exist)) };
    prost::Message::encode_to_vec(&proof)
}

/// Whether `sig` is a valid spend-authorization signature by the key `rk`
/// over `msg`.
pub uninterp spec fn spend_auth_valid(rk: Seq<u8>, msg: Seq<u8>, sig: Seq<u8>) -> bool;

/// Relies on decaf377_rdsa: `VerificationKey::<SpendAuth>::try_from` on the
/// 32 key bytes, `Signature::<SpendAuth>::try_from` on the 64 signature
/// bytes, then `VerificationKey::verify` over `msg`. A key or signature that
/// does not decode counts as an invalid signature.
#[verifier::external_body]
pub(crate) fn verify_spend_auth(rk: &Vec<u8>, msg: &Vec<u8>, sig: &Vec<u8>) -> (r: bool)
    ensures
        r == spend_auth_valid(rk@, msg@, sig@),
{
    let vk = match decaf377_rdsa::VerificationKey::<decaf377_rdsa::SpendAuth>::try_from(rk.as_slice()) {
        Ok(vk) => vk,
        Err(_) => return false,
    };
    match decaf377_rdsa::Signature::<decaf377_rdsa::SpendAuth>::try_from(sig.as_slice()) {
        Ok(s) => vk.verify(msg.as_slice(), &s).is_ok(),
        Err(_) => false,
    }
}


/// Relies on jmt's `KeyHash::with::<sha2::Sha256>`, which hashes the key
/// bytes with the `Digest` of SHA-256: the tree address of a key.
#[verifier::external_body]
pub(crate) fn jmt_key_hash(key: &Vec<u8>) -> (r: Vec<u8>)
    ensures
        r@ == sha256_of(key@),
        r@.len() == 32,
{
    jmt::KeyHash::with::<sha2::Sha256>(key.as_slice()).0.to_vec()
}

} // verus!
