use vstd::prelude::*;
use crate::hashing::{
    ics23_exist_of, ics23_existence_proof, ics23_proof_fails, ics23_proof_of, jmt_root_fails, jmt_get_with_proof, jmt_root, jmt_root_of, pair_find, pairs_map, sha256, sha256_of,
};
use crate::log::{
    append_log, content, copy_bytes, copy_opt, lemma_lookup_append, lemma_pair_find_index, lemma_pair_find_some,
    live_pairs, log_lookup, read,
    view_log, opt_bytes, Write, WriteView,
};

verus! {

/// The version before the first commit: `-1` modulo 2^64, so that the first
/// commit writes version zero.
pub const PRE_GENESIS_VERSION: u64 = 0xffff_ffff_ffff_ffff;

/// How many of the latest committed versions stay readable through
/// [`Storage::snapshot`].
pub const SNAPSHOT_CACHE_SIZE: u64 = 10;

/// The version a commit on top of `v` writes: `v + 1`, wrapping the
/// pre-genesis version to zero.
pub open spec fn next_version(v: u64) -> u64 {
    if v == PRE_GENESIS_VERSION {
        0
    } else {
        (v + 1) as u64
    }
}

/// The domain separator of the app hash: the ASCII bytes of "PenumbraAppHash".
pub open spec fn apphash_domsep() -> Seq<u8> {
    seq![80u8, 101u8, 110u8, 117u8, 109u8, 98u8, 114u8, 97u8, 65u8, 112u8, 112u8, 72u8, 97u8, 115u8, 104u8]
}

/// The app hash of a tree root: `SHA256("PenumbraAppHash" || root)`.
pub open spec fn app_hash_of(root: Seq<u8>) -> Seq<u8> {
    sha256_of(apphash_domsep() + root)
}

/// The consensus commitment to a store's committed content.
pub struct AppHash(pub Vec<u8>);

impl AppHash {
    /// The app hash of a tree root.
    pub fn from_root(root: &Vec<u8>) -> (r: AppHash)
        ensures
            r.0@ == app_hash_of(root@),
            r.0@.len() == 32,
    {
        let mut data: Vec<u8> = vec![80u8, 101u8, 110u8, 117u8, 109u8, 98u8, 114u8, 97u8, 65u8, 112u8, 112u8, 72u8, 97u8, 115u8, 104u8];
        let mut i: usize = 0;
        while i < root.len()
            invariant
                0 <= i <= root@.len(),
                data@ =~= apphash_domsep() + root@.subrange(0, i as int),
            decreases root@.len() - i,
        {
            data.push(root[i]);
            i = i + 1;
        }
        assert(root@.subrange(0, root@.len() as int) =~= root@);
        AppHash(sha256(&data))
    }
}

/// The proof that goes with a value read at a version: the tree's ICS-23
/// proof for the key, against `root`, and `root` itself, which the app hash
/// commits to as `SHA256("PenumbraAppHash" || root)`.
pub struct ProofToAppHash {
    pub tree_proof: Vec<u8>,
    pub root: Vec<u8>,
}

/// Whether `app_hash` commits to the tree root `root`.
pub fn verify_root_binding(root: &Vec<u8>, app_hash: &Vec<u8>) -> (r: bool)
    ensures
        r == (app_hash_of(root@) == app_hash@),
{
    let h = AppHash::from_root(root);
    crate::log::bytes_eq(&h.0, app_hash)
}

/// The code of the SHA-256 hash operation in ICS-23 proof specs.
pub const HASH_OP_SHA256: i32 = 1;

/// The code of "no hash" in ICS-23 proof specs.
pub const HASH_OP_NO_HASH: i32 = 0;

/// The code of "no length prefix" in ICS-23 proof specs.
pub const LENGTH_OP_NO_PREFIX: i32 = 0;

/// The leaf operation of the proof step that binds a tree root to the app
/// hash: the leaf hash is `SHA256(key || value)`, with no prehashing, no
/// length prefix and no prefix, so that with the key "PenumbraAppHash" and
/// the root as value it is the app hash.
pub struct LeafSpec {
    pub hash: i32,
    pub prehash_key: i32,
    pub prehash_value: i32,
    pub length: i32,
    pub prefix: Vec<u8>,
}

/// The leaf operation of the app-hash proof step.
pub fn apphash_leaf_spec() -> (r: LeafSpec)
    ensures
        r.hash == HASH_OP_SHA256,
        r.prehash_key == HASH_OP_NO_HASH,
        r.prehash_value == HASH_OP_NO_HASH,
        r.length == LENGTH_OP_NO_PREFIX,
        r.prefix@ == Seq::<u8>::empty(),
{
    LeafSpec {
        hash: HASH_OP_SHA256,
        prehash_key: HASH_OP_NO_HASH,
        prehash_value: HASH_OP_NO_HASH,
        length: LENGTH_OP_NO_PREFIX,
        prefix: Vec::new(),
    }
}

/// The encoded proof step that binds `root` to the app hash.
pub open spec fn apphash_step_of(root: Seq<u8>) -> Seq<u8> {
    ics23_exist_of(
        apphash_domsep(),
        root,
        HASH_OP_SHA256,
        HASH_OP_NO_HASH,
        HASH_OP_NO_HASH,
        LENGTH_OP_NO_PREFIX,
        Seq::empty(),
    )
}

/// An immutable view of the store at one version.
pub struct Snapshot {
    version: u64,
    log: Vec<Write>,
    nonverifiable: Vec<Write>,
    root: Option<Vec<u8>>,
    preimages: Vec<(Vec<u8>, Vec<u8>)>,
}

/// A reverse index from key hashes to keys is exact for a content: each
/// entry pairs the hash of a key with that key, which has a value, and every
/// key with a value has an entry.
pub open spec fn index_ok(entries: Seq<(Seq<u8>, Seq<u8>)>, c: Map<Seq<u8>, Seq<u8>>) -> bool {
    &&& forall|i: int|
        0 <= i < entries.len() ==> (#[trigger] entries[i]).0 == sha256_of(entries[i].1) && c.contains_key(
            entries[i].1,
        )
    &&& forall|k: Seq<u8>| #[trigger] c.contains_key(k) ==> exists|i: int| 0 <= i < entries.len() && (#[trigger] entries[i]).1 == k
}

/// The (key hash, key) entries of a reverse index.
pub open spec fn entries_view(v: Seq<(Vec<u8>, Vec<u8>)>) -> Seq<(Seq<u8>, Seq<u8>)> {
    v.map_values(|p: (Vec<u8>, Vec<u8>)| (p.0@, p.1@))
}

/// The reverse index of the live keys of `pairs`: each key's hash, with the key.
fn build_preimages(pairs: &Vec<(Vec<u8>, Vec<u8>)>) -> (r: Vec<(Vec<u8>, Vec<u8>)>)
    ensures
        r@.len() == pairs@.len(),
        forall|i: int|
            0 <= i < pairs@.len() ==> (#[trigger] entries_view(r@)[i]) == (sha256_of(pairs@[i].0@), pairs@[i].0@),
{
    let mut r: Vec<(Vec<u8>, Vec<u8>)> = Vec::new();
    let mut i: usize = 0;
    while i < pairs.len()
        invariant
            0 <= i <= pairs@.len(),
            r@.len() == i,
            forall|j: int| 0 <= j < i ==> (#[trigger] entries_view(r@)[j]) == (sha256_of(pairs@[j].0@), pairs@[j].0@),
        decreases pairs@.len() - i,
    {
        let h = crate::keys::key_hash(&pairs[i].0);
        let k = copy_bytes(&pairs[i].0);
        let ghost before = r@;
        let ghost hv = h@;
        let ghost kv = k@;
        r.push((h, k));
        assert forall|j: int| 0 <= j < i + 1 implies (#[trigger] entries_view(r@)[j]) == (sha256_of(pairs@[j].0@), pairs@[j].0@) by {
            if j < i {
                assert(r@[j] == before[j]);
                assert(entries_view(before)[j] == (sha256_of(pairs@[j].0@), pairs@[j].0@));
            } else {
                assert(r@[j].0@ == hv && r@[j].1@ == kv);
            }
        }
        i = i + 1;
    }
    r
}

impl Snapshot {
    /// The version this snapshot reads at.
    pub closed spec fn spec_version(&self) -> u64 {
        self.version
    }

    /// The verifiable writes that make up this snapshot, oldest first.
    pub closed spec fn writes(&self) -> Seq<WriteView> {
        view_log(self.log@)
    }

    /// The unauthenticated writes that make up this snapshot, oldest first.
    pub closed spec fn nonverifiable_writes(&self) -> Seq<WriteView> {
        view_log(self.nonverifiable@)
    }

    /// The tree root of this snapshot; `None` before the first commit.
    pub closed spec fn spec_root(&self) -> Option<Seq<u8>> {
        opt_bytes(self.root)
    }

    /// The reverse index of this snapshot's keys, as (key hash, key) entries.
    pub closed spec fn preimage_entries(&self) -> Seq<(Seq<u8>, Seq<u8>)> {
        entries_view(self.preimages@)
    }

    /// A root, where there is one, commits to the snapshot's content, and
    /// the reverse index is exact.
    pub open spec fn wf(&self) -> bool {
        &&& self.spec_root() matches Some(r) ==> r == jmt_root_of(content(self.writes()))
        &&& index_ok(self.preimage_entries(), content(self.writes()))
    }

    /// The key whose hash is `hash`, among the keys that have a value here.
    pub fn preimage(&self, hash: &Vec<u8>) -> (r: Option<Vec<u8>>)
        requires
            self.wf(),
        ensures
            r matches Some(k) ==> sha256_of(k@) == hash@ && content(self.writes()).contains_key(k@),
            r is None ==> forall|k: Seq<u8>| #[trigger] content(self.writes()).contains_key(k) ==> sha256_of(k) != hash@,
    {
        let mut i: usize = 0;
        while i < self.preimages.len()
            invariant
                self.wf(),
                0 <= i <= self.preimages@.len(),
                forall|j: int| 0 <= j < i ==> (#[trigger] self.preimage_entries()[j]).0 != hash@,
            decreases self.preimages@.len() - i,
        {
            assert(self.preimage_entries()[i as int] == (self.preimages@[i as int].0@, self.preimages@[i as int].1@));
            if crate::log::bytes_eq(&self.preimages[i].0, hash) {
                return Some(copy_bytes(&self.preimages[i].1));
            }
            i = i + 1;
        }
        None
    }

    /// The snapshot of an empty store, before any commit.
    pub fn pre_genesis() -> (r: Snapshot)
        ensures
            r.spec_version() == PRE_GENESIS_VERSION,
            r.writes() == Seq::<WriteView>::empty(),
            r.nonverifiable_writes() == Seq::<WriteView>::empty(),
            r.spec_root() is None,
            r.wf(),
    {
        let r = Snapshot {
            version: PRE_GENESIS_VERSION,
            log: Vec::new(),
            nonverifiable: Vec::new(),
            root: None,
            preimages: Vec::new(),
        };
        assert forall|k: Seq<u8>| !(#[trigger] content(r.writes()).contains_key(k)) by {
            assert(view_log(r.log@) =~= Seq::<WriteView>::empty());
        }
        assert(view_log(r.log@) =~= Seq::<WriteView>::empty());
        assert(view_log(r.nonverifiable@) =~= Seq::<WriteView>::empty());
        r
    }

    /// The version this snapshot reads at.
    pub fn version(&self) -> (r: u64)
        ensures
            r == self.spec_version(),
    {
        self.version
    }

    /// The value under `key` at this version.
    pub fn get(&self, key: &Vec<u8>) -> (r: Option<Vec<u8>>)
        ensures
            opt_bytes(r) == read(self.writes(), key@),
    {
        match log_lookup(&self.log, key) {
            Some(o) => o,
            None => None,
        }
    }

    /// The value under `key` at this version, with the proof of its presence
    /// or absence against this version's root, and that root. `None` before
    /// the first commit, and where the tree reports an error.
    pub fn get_with_proof(&self, key: &Vec<u8>) -> (r: Option<(Option<Vec<u8>>, ProofToAppHash)>)
        requires
            self.wf(),
        ensures
            self.spec_root() is None ==> r is None,
            self.spec_root() is Some ==> (r is None <==> ics23_proof_fails(content(self.writes()), key@)),
            r matches Some((v, p)) ==> {
                &&& opt_bytes(v) == read(self.writes(), key@)
                &&& p.tree_proof@ == ics23_proof_of(content(self.writes()), key@)
                &&& self.spec_root() == Some(p.root@)
            },
    {
        let root = match &self.root {
            None => {
                return None;
            },
            Some(root) => copy_bytes(root),
        };
        let pairs = live_pairs(&self.log);
        match jmt_get_with_proof(&pairs, key) {
            None => None,
            Some((v, tree_proof)) => {
                proof {
                    let c = content(self.writes());
                    assert(pairs_map(pairs@).contains_key(key@) == (pair_find(pairs@, key@) is Some));
                    assert(c.contains_key(key@) == (read(self.writes(), key@) is Some));
                    if pair_find(pairs@, key@) is Some {
                        assert(pairs_map(pairs@)[key@] == pair_find(pairs@, key@)->Some_0);
                        assert(c[key@] == read(self.writes(), key@)->Some_0);
                    }
                }
                Some((v, ProofToAppHash { tree_proof, root }))
            },
        }
    }

    /// The value under `key` at this version with a proof up to the app hash:
    /// the tree's proof of the key's presence or absence against the root,
    /// then the proof step that binds the root under "PenumbraAppHash".
    /// `None` before the first commit, and where the tree reports an error.
    pub fn get_with_proof_to_apphash(&self, key: &Vec<u8>) -> (r: Option<(Option<Vec<u8>>, Vec<Vec<u8>>)>)
        requires
            self.wf(),
        ensures
            self.spec_root() is None ==> r is None,
            self.spec_root() is Some ==> (r is None <==> ics23_proof_fails(content(self.writes()), key@)),
            r matches Some((v, ps)) ==> {
                &&& opt_bytes(v) == read(self.writes(), key@)
                &&& ps@.len() == 2
                &&& ps@[0]@ == ics23_proof_of(content(self.writes()), key@)
                &&& ps@[1]@ == apphash_step_of(self.spec_root()->Some_0)
            },
    {
        match self.get_with_proof(key) {
            None => None,
            Some((v, p)) => {
                let leaf = apphash_leaf_spec();
                let domsep: Vec<u8> = vec![80u8, 101u8, 110u8, 117u8, 109u8, 98u8, 114u8, 97u8, 65u8, 112u8, 112u8, 72u8, 97u8, 115u8, 104u8];
                assert(domsep@ =~= apphash_domsep());
                assert(leaf.prefix@ =~= Seq::<u8>::empty());
                let step = ics23_existence_proof(
                    &domsep,
                    &p.root,
                    leaf.hash,
                    leaf.prehash_key,
                    leaf.prehash_value,
                    leaf.length,
                    &leaf.prefix,
                );
                let mut ps: Vec<Vec<u8>> = Vec::new();
                ps.push(p.tree_proof);
                ps.push(step);
                Some((v, ps))
            },
        }
    }

    /// The unauthenticated value under `key` at this version.
    pub fn nonverifiable_get(&self, key: &Vec<u8>) -> (r: Option<Vec<u8>>)
        ensures
            opt_bytes(r) == read(self.nonverifiable_writes(), key@),
    {
        match log_lookup(&self.nonverifiable, key) {
            Some(o) => o,
            None => None,
        }
    }

    /// The tree root at this version.
    pub fn root_hash(&self) -> (r: Option<Vec<u8>>)
        ensures
            opt_bytes(r) == self.spec_root(),
    {
        copy_opt(&self.root)
    }

    /// The app hash at this version; `None` before the first commit.
    pub fn app_hash(&self) -> (r: Option<AppHash>)
        ensures
            match r {
                Some(h) => self.spec_root() matches Some(root) && h.0@ == app_hash_of(root),
                None => self.spec_root() is None,
            },
    {
        match &self.root {
            Some(root) => Some(AppHash::from_root(root)),
            None => None,
        }
    }

    /// A copy of this snapshot.
    pub fn copy(&self) -> (r: Snapshot)
        ensures
            r.spec_version() == self.spec_version(),
            r.writes() == self.writes(),
            r.nonverifiable_writes() == self.nonverifiable_writes(),
            r.spec_root() == self.spec_root(),
            r.preimage_entries() == self.preimage_entries(),
    {
        let mut preimages: Vec<(Vec<u8>, Vec<u8>)> = Vec::new();
        let mut i: usize = 0;
        while i < self.preimages.len()
            invariant
                0 <= i <= self.preimages@.len(),
                entries_view(preimages@) =~= entries_view(self.preimages@).subrange(0, i as int),
            decreases self.preimages@.len() - i,
        {
            let ghost before = preimages@;
            preimages.push((copy_bytes(&self.preimages[i].0), copy_bytes(&self.preimages[i].1)));
            assert(entries_view(preimages@) =~= entries_view(before).push(entries_view(self.preimages@)[i as int]));
            i = i + 1;
        }
        assert(entries_view(self.preimages@).subrange(0, self.preimages@.len() as int) =~= entries_view(self.preimages@));
        let mut log: Vec<Write> = Vec::new();
        append_log(&mut log, &self.log);
        let mut nonverifiable: Vec<Write> = Vec::new();
        append_log(&mut nonverifiable, &self.nonverifiable);
        assert(view_log(Seq::<Write>::empty()) + self.writes() =~= self.writes());
        assert(view_log(Seq::<Write>::empty()) + self.nonverifiable_writes() =~= self.nonverifiable_writes());
        Snapshot { version: self.version, log, nonverifiable, root: copy_opt(&self.root), preimages }
    }
}


/// One level of pending writes: the writes made since the checkpoint that
/// opened it.
pub struct Layer {
    writes: Vec<Write>,
    nonverifiable: Vec<Write>,
}

/// The verifiable writes of a stack of layers, outermost first.
pub open spec fn flat_writes(layers: Seq<Layer>) -> Seq<WriteView>
    decreases layers.len(),
{
    if layers.len() == 0 {
        Seq::empty()
    } else {
        flat_writes(layers.drop_last()) + layer_writes(layers.last())
    }
}

/// The unauthenticated writes of a stack of layers, outermost first.
pub open spec fn flat_nonverifiable(layers: Seq<Layer>) -> Seq<WriteView>
    decreases layers.len(),
{
    if layers.len() == 0 {
        Seq::empty()
    } else {
        flat_nonverifiable(layers.drop_last()) + layer_nonverifiable(layers.last())
    }
}

/// The verifiable writes of one layer.
pub closed spec fn layer_writes(l: Layer) -> Seq<WriteView> {
    view_log(l.writes@)
}

/// The unauthenticated writes of one layer.
pub closed spec fn layer_nonverifiable(l: Layer) -> Seq<WriteView> {
    view_log(l.nonverifiable@)
}

/// Pending writes on top of a snapshot, kept as a stack of checkpoints.
/// Reads see the innermost checkpoint first, then the outer ones, then the
/// snapshot.
pub struct StateDelta {
    base: Snapshot,
    layers: Vec<Layer>,
}

impl StateDelta {
    /// The snapshot the writes are made on.
    pub closed spec fn base_snapshot(&self) -> Snapshot {
        self.base
    }

    /// Every pending verifiable write, in the order it was made.
    pub closed spec fn pending(&self) -> Seq<WriteView> {
        flat_writes(self.layers@)
    }

    /// Every pending unauthenticated write, in the order it was made.
    pub closed spec fn pending_nonverifiable(&self) -> Seq<WriteView> {
        flat_nonverifiable(self.layers@)
    }

    /// The verifiable writes made since the innermost open checkpoint.
    pub closed spec fn top_writes(&self) -> Seq<WriteView> {
        layer_writes(self.layers@.last())
    }

    /// The unauthenticated writes made since the innermost open checkpoint.
    pub closed spec fn top_nonverifiable(&self) -> Seq<WriteView> {
        layer_nonverifiable(self.layers@.last())
    }

    /// The number of open levels: one, plus one per open checkpoint.
    pub closed spec fn depth(&self) -> nat {
        self.layers@.len()
    }

    /// The value that reads through this delta see under `k`.
    pub open spec fn read_spec(&self, k: Seq<u8>) -> Option<Seq<u8>> {
        read(self.base_snapshot().writes() + self.pending(), k)
    }

    /// The unauthenticated value that reads through this delta see under `k`.
    pub open spec fn nonverifiable_read_spec(&self, k: Seq<u8>) -> Option<Seq<u8>> {
        read(self.base_snapshot().nonverifiable_writes() + self.pending_nonverifiable(), k)
    }

    /// An empty delta on top of `base`.
    pub fn new(base: Snapshot) -> (r: StateDelta)
        ensures
            r.base_snapshot() == base,
            r.pending() == Seq::<WriteView>::empty(),
            r.pending_nonverifiable() == Seq::<WriteView>::empty(),
            r.depth() == 1,
    {
        let mut layers: Vec<Layer> = Vec::new();
        layers.push(Layer { writes: Vec::new(), nonverifiable: Vec::new() });
        let r = StateDelta { base, layers };
        assert(r.layers@.drop_last() =~= Seq::<Layer>::empty());
        assert(layer_writes(r.layers@.last()) =~= Seq::<WriteView>::empty());
        assert(layer_nonverifiable(r.layers@.last()) =~= Seq::<WriteView>::empty());
        assert(flat_writes(Seq::<Layer>::empty()) == Seq::<WriteView>::empty());
        assert(flat_nonverifiable(Seq::<Layer>::empty()) == Seq::<WriteView>::empty());
        assert(r.pending() =~= Seq::<WriteView>::empty());
        assert(r.pending_nonverifiable() =~= Seq::<WriteView>::empty());
        r
    }

    /// The version of the snapshot the writes are made on.
    pub fn base_version(&self) -> (r: u64)
        ensures
            r == self.base_snapshot().spec_version(),
    {
        self.base.version
    }

    fn push_write(&mut self, w: Write, verifiable: bool)
        requires
            old(self).depth() >= 1,
        ensures
            final(self).base_snapshot() == old(self).base_snapshot(),
            final(self).depth() == old(self).depth(),
            verifiable ==> final(self).pending() == old(self).pending().push(w@)
                && final(self).top_writes() == old(self).top_writes().push(w@)
                && final(self).pending_nonverifiable() == old(self).pending_nonverifiable()
                && final(self).top_nonverifiable() == old(self).top_nonverifiable(),
            !verifiable ==> final(self).pending_nonverifiable() == old(self).pending_nonverifiable().push(w@)
                && final(self).top_nonverifiable() == old(self).top_nonverifiable().push(w@)
                && final(self).pending() == old(self).pending()
                && final(self).top_writes() == old(self).top_writes(),
    {
        let ghost l0 = self.layers@;
        let top = self.layers.pop();
        match top {
            Some(top) => {
                let mut top = top;
                let ghost t0 = top;
                if verifiable {
                    top.writes.push(w);
                    assert(view_log(top.writes@) =~= view_log(t0.writes@).push(w@));
                } else {
                    top.nonverifiable.push(w);
                    assert(view_log(top.nonverifiable@) =~= view_log(t0.nonverifiable@).push(w@));
                }
                self.layers.push(top);
                assert(self.layers@.drop_last() =~= l0.drop_last());
            },
            None => {},
        }
    }

    /// The value that reads through this delta see under `key`.
    pub fn get(&self, key: &Vec<u8>) -> (r: Option<Vec<u8>>)
        ensures
            opt_bytes(r) == self.read_spec(key@),
    {
        let mut i: usize = self.layers.len();
        assert(self.layers@.subrange(0, i as int) =~= self.layers@);
        while i > 0
            invariant
                0 <= i <= self.layers@.len(),
                lookup_in(self.base.writes(), self.layers@, key@) == lookup_in(
                    self.base.writes(),
                    self.layers@.subrange(0, i as int),
                    key@,
                ),
            decreases i,
        {
            let ghost p = self.layers@.subrange(0, i as int);
            assert(p.drop_last() =~= self.layers@.subrange(0, i - 1));
            proof {
                lemma_lookup_append(self.base.writes() + flat_writes(p.drop_last()), layer_writes(p.last()), key@);
                assert(self.base.writes() + flat_writes(p) =~= self.base.writes() + flat_writes(p.drop_last()) + layer_writes(p.last()));
            }
            match log_lookup(&self.layers[i - 1].writes, key) {
                Some(o) => {
                    return o;
                },
                None => {},
            }
            i = i - 1;
        }
        assert(self.layers@.subrange(0, 0) =~= Seq::<Layer>::empty());
        assert(self.base.writes() + flat_writes(Seq::<Layer>::empty()) =~= self.base.writes());
        self.base.get(key)
    }

    /// Writes `value` under `key`.
    pub fn put(&mut self, key: Vec<u8>, value: Vec<u8>)
        requires
            old(self).depth() >= 1,
        ensures
            final(self).base_snapshot() == old(self).base_snapshot(),
            final(self).depth() == old(self).depth(),
            final(self).pending() == old(self).pending().push((key@, Some(value@))),
            final(self).top_writes() == old(self).top_writes().push((key@, Some(value@))),
            final(self).pending_nonverifiable() == old(self).pending_nonverifiable(),
            final(self).top_nonverifiable() == old(self).top_nonverifiable(),
    {
        self.push_write(Write { key, value: Some(value) }, true);
    }

    /// Deletes whatever is under `key`.
    pub fn delete(&mut self, key: Vec<u8>)
        requires
            old(self).depth() >= 1,
        ensures
            final(self).base_snapshot() == old(self).base_snapshot(),
            final(self).depth() == old(self).depth(),
            final(self).pending() == old(self).pending().push((key@, None)),
            final(self).top_writes() == old(self).top_writes().push((key@, None)),
            final(self).pending_nonverifiable() == old(self).pending_nonverifiable(),
            final(self).top_nonverifiable() == old(self).top_nonverifiable(),
    {
        self.push_write(Write { key, value: None }, true);
    }

    /// Writes `value` under `key` in the unauthenticated key space.
    pub fn nonverifiable_put(&mut self, key: Vec<u8>, value: Vec<u8>)
        requires
            old(self).depth() >= 1,
        ensures
            final(self).base_snapshot() == old(self).base_snapshot(),
            final(self).depth() == old(self).depth(),
            final(self).pending_nonverifiable() == old(self).pending_nonverifiable().push((key@, Some(value@))),
            final(self).top_nonverifiable() == old(self).top_nonverifiable().push((key@, Some(value@))),
            final(self).pending() == old(self).pending(),
            final(self).top_writes() == old(self).top_writes(),
    {
        self.push_write(Write { key, value: Some(value) }, false);
    }

    /// The unauthenticated value that reads through this delta see under `key`.
    pub fn nonverifiable_get(&self, key: &Vec<u8>) -> (r: Option<Vec<u8>>)
        ensures
            opt_bytes(r) == self.nonverifiable_read_spec(key@),
    {
        let mut i: usize = self.layers.len();
        assert(self.layers@.subrange(0, i as int) =~= self.layers@);
        while i > 0
            invariant
                0 <= i <= self.layers@.len(),
                crate::log::lookup(self.base.nonverifiable_writes() + flat_nonverifiable(self.layers@), key@)
                    == crate::log::lookup(
                    self.base.nonverifiable_writes() + flat_nonverifiable(self.layers@.subrange(0, i as int)),
                    key@,
                ),
            decreases i,
        {
            let ghost p = self.layers@.subrange(0, i as int);
            assert(p.drop_last() =~= self.layers@.subrange(0, i - 1));
            proof {
                lemma_lookup_append(
                    self.base.nonverifiable_writes() + flat_nonverifiable(p.drop_last()),
                    layer_nonverifiable(p.last()),
                    key@,
                );
                assert(self.base.nonverifiable_writes() + flat_nonverifiable(p) =~= self.base.nonverifiable_writes()
                    + flat_nonverifiable(p.drop_last()) + layer_nonverifiable(p.last()));
            }
            match log_lookup(&self.layers[i - 1].nonverifiable, key) {
                Some(o) => {
                    return o;
                },
                None => {},
            }
            i = i - 1;
        }
        assert(self.layers@.subrange(0, 0) =~= Seq::<Layer>::empty());
        assert(self.base.nonverifiable_writes() + flat_nonverifiable(Seq::<Layer>::empty())
            =~= self.base.nonverifiable_writes());
        self.base.nonverifiable_get(key)
    }

    /// Opens a checkpoint: later writes can be dropped together, or kept.
    pub fn begin_checkpoint(&mut self)
        ensures
            final(self).base_snapshot() == old(self).base_snapshot(),
            final(self).depth() == old(self).depth() + 1,
            final(self).pending() == old(self).pending(),
            final(self).pending_nonverifiable() == old(self).pending_nonverifiable(),
            final(self).top_writes() == Seq::<WriteView>::empty(),
            final(self).top_nonverifiable() == Seq::<WriteView>::empty(),
    {
        let ghost l0 = self.layers@;
        self.layers.push(Layer { writes: Vec::new(), nonverifiable: Vec::new() });
        assert(self.layers@.drop_last() =~= l0);
        assert(layer_writes(self.layers@.last()) =~= Seq::<WriteView>::empty());
        assert(layer_nonverifiable(self.layers@.last()) =~= Seq::<WriteView>::empty());
        assert(flat_writes(self.layers@) =~= flat_writes(l0));
        assert(flat_nonverifiable(self.layers@) =~= flat_nonverifiable(l0));
    }

    /// Closes the innermost checkpoint and keeps its writes: they now belong
    /// to the level below, as if they had been made there directly.
    pub fn apply_checkpoint(&mut self)
        requires
            old(self).depth() >= 2,
        ensures
            final(self).base_snapshot() == old(self).base_snapshot(),
            final(self).depth() == old(self).depth() - 1,
            final(self).pending() == old(self).pending(),
            final(self).pending_nonverifiable() == old(self).pending_nonverifiable(),
    {
        let ghost l0 = self.layers@;
        let top = self.layers.pop();
        let parent = self.layers.pop();
        match (top, parent) {
            (Some(top), Some(parent)) => {
                let mut parent = parent;
                let ghost p0 = parent;
                append_log(&mut parent.writes, &top.writes);
                append_log(&mut parent.nonverifiable, &top.nonverifiable);
                self.layers.push(parent);
                assert(l0.drop_last().drop_last() =~= self.layers@.drop_last());
                assert(top == l0.last());
                assert(p0 == l0.drop_last().last());
                assert(flat_writes(l0) == flat_writes(l0.drop_last()) + layer_writes(l0.last()));
                assert(flat_writes(l0.drop_last()) == flat_writes(l0.drop_last().drop_last()) + layer_writes(
                    l0.drop_last().last(),
                ));
                assert(flat_nonverifiable(l0) == flat_nonverifiable(l0.drop_last()) + layer_nonverifiable(l0.last()));
                assert(flat_nonverifiable(l0.drop_last()) == flat_nonverifiable(l0.drop_last().drop_last())
                    + layer_nonverifiable(l0.drop_last().last()));
                assert(flat_writes(l0) =~= flat_writes(l0.drop_last().drop_last()) + layer_writes(p0)
                    + layer_writes(top));
                assert(flat_writes(self.layers@) =~= flat_writes(l0));
                assert(flat_nonverifiable(l0) =~= flat_nonverifiable(l0.drop_last().drop_last())
                    + layer_nonverifiable(p0) + layer_nonverifiable(top));
                assert(flat_nonverifiable(self.layers@) =~= flat_nonverifiable(l0));
            },
            _ => {},
        }
    }

    /// Closes the innermost checkpoint and drops the writes made since it
    /// was opened.
    pub fn discard_checkpoint(&mut self)
        requires
            old(self).depth() >= 2,
        ensures
            final(self).base_snapshot() == old(self).base_snapshot(),
            final(self).depth() == old(self).depth() - 1,
            old(self).pending() == final(self).pending() + old(self).top_writes(),
            old(self).pending_nonverifiable() == final(self).pending_nonverifiable() + old(
                self,
            ).top_nonverifiable(),
    {
        let ghost l0 = self.layers@;
        let _ = self.layers.pop();
        assert(self.layers@ =~= l0.drop_last());
    }

    /// The snapshot and every pending write, outermost checkpoint first.
    pub fn flatten(self) -> (r: (Snapshot, Vec<Write>, Vec<Write>))
        ensures
            r.0 == self.base_snapshot(),
            view_log(r.1@) == self.pending(),
            view_log(r.2@) == self.pending_nonverifiable(),
    {
        let StateDelta { base, layers } = self;
        let mut writes: Vec<Write> = Vec::new();
        let mut nonverifiable: Vec<Write> = Vec::new();
        let mut i: usize = 0;
        assert(view_log(writes@) =~= flat_writes(layers@.subrange(0, 0)));
        assert(view_log(nonverifiable@) =~= flat_nonverifiable(layers@.subrange(0, 0)));
        while i < layers.len()
            invariant
                0 <= i <= layers@.len(),
                view_log(writes@) == flat_writes(layers@.subrange(0, i as int)),
                view_log(nonverifiable@) == flat_nonverifiable(layers@.subrange(0, i as int)),
            decreases layers@.len() - i,
        {
            append_log(&mut writes, &layers[i].writes);
            append_log(&mut nonverifiable, &layers[i].nonverifiable);
            assert(layers@.subrange(0, i + 1).drop_last() =~= layers@.subrange(0, i as int));
            i = i + 1;
        }
        assert(layers@.subrange(0, layers@.len() as int) =~= layers@);
        (base, writes, nonverifiable)
    }
}

/// The latest write of `k` through a stack of layers on top of `base`.
pub open spec fn lookup_in(base: Seq<WriteView>, layers: Seq<Layer>, k: Seq<u8>) -> Option<Option<Seq<u8>>> {
    crate::log::lookup(base + flat_writes(layers), k)
}


/// Why a commit was refused.
#[derive(Debug, PartialEq, Eq, Structural)]
pub enum StorageError {
    /// The delta was made on a version other than the latest.
    VersionConflict { expected: u64, found: u64 },
    /// The tree reported an error while computing the new root.
    TreeFailure,
    /// Every version below the pre-genesis sentinel has been written.
    VersionOverflow,
}

/// The versioned, authenticated store: one snapshot per committed version.
pub struct Storage {
    history: Vec<Snapshot>,
}

impl Storage {
    /// The committed snapshots; the one at index `v` is version `v`.
    pub closed spec fn versions(&self) -> Seq<Snapshot> {
        self.history@
    }

    /// The store is well formed: at most 2^64 - 1 versions, so that the
    /// sentinel version is never written, and the invariant holds.
    pub open spec fn wf(&self) -> bool {
        &&& self.versions().len() <= PRE_GENESIS_VERSION
        &&& self.inv()
    }

    /// Versions are numbered by position, each root commits to its content,
    /// and each snapshot is well formed.
    pub closed spec fn inv(&self) -> bool {
        &&& self.history@.len() <= PRE_GENESIS_VERSION
        &&& forall|i: int|
            0 <= i < self.history@.len() ==> {
                &&& (#[trigger] self.history@[i]).spec_version() == i
                &&& self.history@[i].spec_root() == Some(jmt_root_of(content(self.history@[i].writes())))
                &&& self.history@[i].wf()
            }
    }

    /// The latest committed version, or the pre-genesis version.
    pub open spec fn latest_version_spec(&self) -> u64 {
        if self.versions().len() == 0 {
            PRE_GENESIS_VERSION
        } else {
            (self.versions().len() - 1) as u64
        }
    }

    /// The writes that make up the latest version.
    pub open spec fn latest_writes(&self) -> Seq<WriteView> {
        if self.versions().len() == 0 {
            Seq::empty()
        } else {
            self.versions().last().writes()
        }
    }

    /// The unauthenticated writes that make up the latest version.
    pub open spec fn latest_nonverifiable(&self) -> Seq<WriteView> {
        if self.versions().len() == 0 {
            Seq::empty()
        } else {
            self.versions().last().nonverifiable_writes()
        }
    }

    /// The key/value content of the latest version.
    pub open spec fn latest_content(&self) -> Map<Seq<u8>, Seq<u8>> {
        content(self.latest_writes())
    }

    /// Whether [`Storage::snapshot`] serves `version`: one of the latest
    /// committed versions, or the pre-genesis version of an empty store.
    pub open spec fn cached(&self, version: u64) -> bool {
        if self.versions().len() == 0 {
            version == PRE_GENESIS_VERSION
        } else {
            version < self.versions().len() && self.versions().len() - version <= SNAPSHOT_CACHE_SIZE
        }
    }

    /// An empty store.
    pub fn new() -> (r: Storage)
        ensures
            r.wf(),
            r.versions().len() == 0,
            r.latest_version_spec() == PRE_GENESIS_VERSION,
    {
        Storage { history: Vec::new() }
    }

    /// The latest committed version; the pre-genesis version before any commit.
    pub fn latest_version(&self) -> (r: u64)
        requires
            self.wf(),
        ensures
            r == self.latest_version_spec(),
    {
        if self.history.len() == 0 {
            PRE_GENESIS_VERSION
        } else {
            (self.history.len() - 1) as u64
        }
    }

    /// A snapshot of the latest version.
    pub fn latest_snapshot(&self) -> (r: Snapshot)
        requires
            self.wf(),
        ensures
            r.spec_version() == self.latest_version_spec(),
            r.writes() == self.latest_writes(),
            r.nonverifiable_writes() == self.latest_nonverifiable(),
            r.wf(),
            self.versions().len() > 0 ==> r.spec_root() == Some(jmt_root_of(self.latest_content())),
    {
        if self.history.len() == 0 {
            Snapshot::pre_genesis()
        } else {
            let r = self.history[self.history.len() - 1].copy();
            assert(self.history@[self.history@.len() - 1].spec_version() == self.history@.len() - 1);
            r
        }
    }

    /// A snapshot of `version`, where it is among the latest ones; `None`
    /// on a miss, which the caller recovers from by other means.
    pub fn snapshot(&self, version: u64) -> (r: Option<Snapshot>)
        requires
            self.wf(),
        ensures
            r is Some <==> self.cached(version),
            r matches Some(s) ==> s.spec_version() == version && s.wf() && (self.versions().len() > 0
                ==> s.writes() == self.versions()[version as int].writes()
                && s.nonverifiable_writes() == self.versions()[version as int].nonverifiable_writes()),
            r matches Some(s) ==> (self.versions().len() == 0 ==> s.writes() == Seq::<WriteView>::empty()),
    {
        let n = self.history.len();
        if n == 0 {
            if version == PRE_GENESIS_VERSION {
                Some(Snapshot::pre_genesis())
            } else {
                None
            }
        } else if version < n as u64 && n as u64 - version <= SNAPSHOT_CACHE_SIZE {
            let s = self.history[version as usize].copy();
            assert(self.history@[version as int].spec_version() == version);
            Some(s)
        } else {
            None
        }
    }

    /// Commits the delta as the next version and returns the new tree root.
    /// The delta must have been made on the latest version.
    pub fn commit(&mut self, delta: StateDelta) -> (r: Result<Vec<u8>, StorageError>)
        requires
            old(self).wf(),
        ensures
            final(self).wf(),
            delta.base_snapshot().spec_version() != old(self).latest_version_spec() ==> r == Err::<
                Vec<u8>,
                StorageError,
            >(
                StorageError::VersionConflict {
                    expected: old(self).latest_version_spec(),
                    found: delta.base_snapshot().spec_version(),
                },
            ),
            delta.base_snapshot().spec_version() == old(self).latest_version_spec() && old(
                self,
            ).latest_version_spec() == PRE_GENESIS_VERSION - 1 ==> r == Err::<Vec<u8>, StorageError>(
                StorageError::VersionOverflow,
            ),
            delta.base_snapshot().spec_version() == old(self).latest_version_spec() && old(
                self,
            ).latest_version_spec() != PRE_GENESIS_VERSION - 1 ==> (r is Ok || r == Err::<
                Vec<u8>,
                StorageError,
            >(StorageError::TreeFailure)) && (r == Err::<Vec<u8>, StorageError>(StorageError::TreeFailure)
                <==> jmt_root_fails(content(old(self).latest_writes() + delta.pending()))),
            r is Err ==> final(self).versions() == old(self).versions(),
            r matches Ok(root) ==> {
                &&& final(self).versions().len() == old(self).versions().len() + 1
                &&& final(self).versions().subrange(0, old(self).versions().len() as int) == old(
                    self,
                ).versions()
                &&& final(self).latest_version_spec() == next_version(old(self).latest_version_spec())
                &&& final(self).latest_writes() == old(self).latest_writes() + delta.pending()
                &&& final(self).latest_nonverifiable() == old(self).latest_nonverifiable()
                    + delta.pending_nonverifiable()
                &&& root@ == jmt_root_of(final(self).latest_content())
            },
    {
        let old_version = self.latest_version();
        if delta.base_version() != old_version {
            return Err(StorageError::VersionConflict { expected: old_version, found: delta.base_version() });
        }
        if old_version == PRE_GENESIS_VERSION - 1 {
            return Err(StorageError::VersionOverflow);
        }
        let new_version: u64 = if old_version == PRE_GENESIS_VERSION {
            0
        } else {
            old_version + 1
        };
        let (_base, writes, nonverifiable) = delta.flatten();
        let latest = self.latest_snapshot();
        let mut log = latest.log;
        let mut nv_log = latest.nonverifiable;
        append_log(&mut log, &writes);
        append_log(&mut nv_log, &nonverifiable);
        let root = jmt_root(&live_pairs(&log));
        self.commit_inner(log, nv_log, root)
    }

    /// Publishes the next version, made of the verifiable writes `log` and
    /// the unauthenticated writes `nonverifiable`, under the tree root that
    /// hashing its content gave; `None` where the tree reported an error,
    /// which leaves the store as it was.
    fn commit_inner(&mut self, log: Vec<Write>, nonverifiable: Vec<Write>, root: Option<Vec<u8>>) -> (r: Result<Vec<u8>, StorageError>)
        requires
            old(self).wf(),
            old(self).latest_version_spec() != PRE_GENESIS_VERSION - 1,
            root matches Some(h) ==> h@ == jmt_root_of(content(view_log(log@))),
        ensures
            final(self).wf(),
            match root {
                None => r == Err::<Vec<u8>, StorageError>(StorageError::TreeFailure) && final(self).versions()
                    == old(self).versions(),
                Some(h) => {
                    &&& r matches Ok(x) && x@ == h@
                    &&& final(self).versions().len() == old(self).versions().len() + 1
                    &&& final(self).versions().subrange(0, old(self).versions().len() as int) == old(
                        self,
                    ).versions()
                    &&& final(self).latest_version_spec() == next_version(old(self).latest_version_spec())
                    &&& final(self).latest_writes() == view_log(log@)
                    &&& final(self).latest_nonverifiable() == view_log(nonverifiable@)
                },
            },
    {
        let old_version = self.latest_version();
        let new_version: u64 = if old_version == PRE_GENESIS_VERSION {
            0
        } else {
            old_version + 1
        };
        match root {
            None => Err(StorageError::TreeFailure),
            Some(root) => {
                let pairs = live_pairs(&log);
                let preimages = build_preimages(&pairs);
                let ghost c = content(view_log(log@));
                proof {
                    let e = entries_view(preimages@);
                    assert forall|i: int| 0 <= i < e.len() implies (#[trigger] e[i]).0 == sha256_of(e[i].1)
                        && c.contains_key(e[i].1) by {
                        lemma_pair_find_some(pairs@, i);
                    }
                    assert forall|k: Seq<u8>| #[trigger] c.contains_key(k) implies exists|i: int|
                        0 <= i < e.len() && (#[trigger] e[i]).1 == k by {
                        assert(pairs_map(pairs@).contains_key(k));
                        lemma_pair_find_index(pairs@, k);
                        let i = choose|i: int| 0 <= i < pairs@.len() && (#[trigger] pairs@[i]).0@ == k;
                        assert(e[i].1 == k);
                    }
                }
                let snap = Snapshot {
                    version: new_version,
                    log,
                    nonverifiable,
                    root: Some(copy_bytes(&root)),
                    preimages,
                };
                let ghost h0 = self.history@;
                self.history.push(snap);
                assert(self.history@.subrange(0, h0.len() as int) =~= h0);
                assert forall|i: int| 0 <= i < self.history@.len() implies {
                    &&& (#[trigger] self.history@[i]).spec_version() == i
                    &&& self.history@[i].spec_root() == Some(jmt_root_of(content(self.history@[i].writes())))
                } by {
                    if i < h0.len() {
                        assert(self.history@[i] == h0[i]);
                    }
                }
                Ok(root)
            },
        }
    }
}


/// Reads after a commit: a key the delta wrote reads as its latest pending
/// write, any other key as it read before.
pub proof fn lemma_commit_read(before: Seq<WriteView>, pending: Seq<WriteView>, k: Seq<u8>)
    ensures
        read(before + pending, k) == (if crate::log::lookup(pending, k) is Some {
            crate::log::lookup(pending, k)->Some_0
        } else {
            read(before, k)
        }),
{
    lemma_lookup_append(before, pending, k);
}

/// A key put with value `v` as the delta's latest write of it reads `Some(v)`
/// from the version that commits the delta.
pub proof fn lemma_put_commit_read(
    before: Storage,
    delta: StateDelta,
    after: Storage,
    earlier: Seq<WriteView>,
    later: Seq<WriteView>,
    k: Seq<u8>,
    v: Seq<u8>,
)
    requires
        delta.pending() == earlier.push((k, Some(v))) + later,
        crate::log::lookup(later, k) is None,
        after.latest_writes() == before.latest_writes() + delta.pending(),
    ensures
        read(after.latest_writes(), k) == Some(v),
{
    lemma_lookup_append(earlier.push((k, Some(v))), later, k);
    assert(earlier.push((k, Some(v))).drop_last() =~= earlier);
    lemma_commit_read(before.latest_writes(), delta.pending(), k);
}

/// A key deleted as the delta's latest write of it reads `None` from the
/// version that commits the delta.
pub proof fn lemma_delete_commit_read(
    before: Storage,
    delta: StateDelta,
    after: Storage,
    earlier: Seq<WriteView>,
    later: Seq<WriteView>,
    k: Seq<u8>,
)
    requires
        delta.pending() == earlier.push((k, None)) + later,
        crate::log::lookup(later, k) is None,
        after.latest_writes() == before.latest_writes() + delta.pending(),
    ensures
        read(after.latest_writes(), k) is None,
{
    lemma_lookup_append(earlier.push((k, None)), later, k);
    lemma_commit_read(before.latest_writes(), delta.pending(), k);
}

/// The app hash is a function of the committed content alone: two stores
/// that held the same content and commit the same writes hold the same
/// content after, under the same tree root and the same app hash.
pub proof fn lemma_app_hash_pure(
    a0: Storage,
    da: StateDelta,
    a1: Storage,
    b0: Storage,
    db: StateDelta,
    b1: Storage,
)
    requires
        a1.wf(),
        b1.wf(),
        a1.versions().len() > 0,
        b1.versions().len() > 0,
        a0.latest_content() == b0.latest_content(),
        da.pending() == db.pending(),
        a1.latest_writes() == a0.latest_writes() + da.pending(),
        b1.latest_writes() == b0.latest_writes() + db.pending(),
    ensures
        a1.latest_content() == b1.latest_content(),
        a1.versions().last().spec_root() == b1.versions().last().spec_root(),
        app_hash_of(a1.versions().last().spec_root()->Some_0) == app_hash_of(
            b1.versions().last().spec_root()->Some_0,
        ),
{
    assert forall|k: Seq<u8>| read(a1.latest_writes(), k) == read(b1.latest_writes(), k) by {
        lemma_commit_read(a0.latest_writes(), da.pending(), k);
        lemma_commit_read(b0.latest_writes(), db.pending(), k);
        assert(a0.latest_content().contains_key(k) == b0.latest_content().contains_key(k));
        if a0.latest_content().contains_key(k) {
            assert(a0.latest_content()[k] == b0.latest_content()[k]);
        }
    }
    assert(a1.latest_content() =~= b1.latest_content());
    let ia = a1.versions().len() - 1;
    let ib = b1.versions().len() - 1;
    assert(a1.history@[ia].spec_root() == Some(jmt_root_of(content(a1.history@[ia].writes()))));
    assert(b1.history@[ib].spec_root() == Some(jmt_root_of(content(b1.history@[ib].writes()))));
}

} // verus!
