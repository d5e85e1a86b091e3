use vstd::prelude::*;
use crate::hashing::{jmt_key_hash, sha256_of};

verus! {

/// The tree address of a logical key: the SHA-256 hash of its bytes.
pub fn key_hash(key: &Vec<u8>) -> (r: Vec<u8>)
    ensures
        r@ == sha256_of(key@),
        r@.len() == 32,
{
    jmt_key_hash(key)
}

/// The eight big-endian bytes of `x`, so that byte order sorts versions.
pub open spec fn u64_be(x: u64) -> Seq<u8> {
    seq![
        (x >> 56u64) as u8,
        (x >> 48u64) as u8,
        (x >> 40u64) as u8,
        (x >> 32u64) as u8,
        (x >> 24u64) as u8,
        (x >> 16u64) as u8,
        (x >> 8u64) as u8,
        x as u8,
    ]
}

/// The number whose big-endian bytes are `b0` to `b7`.
pub open spec fn be_u64(b0: u8, b1: u8, b2: u8, b3: u8, b4: u8, b5: u8, b6: u8, b7: u8) -> u64 {
    ((b0 as u64) << 56u64) | ((b1 as u64) << 48u64) | ((b2 as u64) << 40u64) | ((b3 as u64) << 32u64) | ((b4 as u64)
        << 24u64) | ((b5 as u64) << 16u64) | ((b6 as u64) << 8u64) | (b7 as u64)
}

/// Why a stored key did not decode.
#[derive(Clone, Copy, Debug, PartialEq, Eq, Structural)]
pub enum KeyError {
    /// A versioned key hash is exactly 40 bytes long.
    InvalidSize,
}

/// A key hash at one version: the key under which the store keeps the
/// value that the key had at that version.
pub struct VersionedKeyHash {
    pub key_hash: Vec<u8>,
    pub version: u64,
}

impl VersionedKeyHash {
    /// The key hash `key_hash` at `version`.
    pub fn new(version: u64, key_hash: Vec<u8>) -> (r: VersionedKeyHash)
        ensures
            r.version == version,
            r.key_hash@ == key_hash@,
    {
        VersionedKeyHash { key_hash, version }
    }

    /// The stored form: the key hash, then the version in big-endian bytes.
    pub fn encode(&self) -> (r: Vec<u8>)
        ensures
            r@ == self.key_hash@ + u64_be(self.version),
    {
        let mut buf = crate::log::copy_bytes(&self.key_hash);
        let v = self.version;
        let ghost k = buf@;
        buf.push((v >> 56u64) as u8);
        buf.push((v >> 48u64) as u8);
        buf.push((v >> 40u64) as u8);
        buf.push((v >> 32u64) as u8);
        buf.push((v >> 24u64) as u8);
        buf.push((v >> 16u64) as u8);
        buf.push((v >> 8u64) as u8);
        buf.push(v as u8);
        assert(buf@ =~= k + u64_be(v));
        buf
    }

    /// Reads the stored form back: a 32-byte key hash and a big-endian
    /// version; any other length is refused.
    pub fn decode(buf: &Vec<u8>) -> (r: Result<VersionedKeyHash, KeyError>)
        ensures
            buf@.len() != 40 ==> r == Err::<VersionedKeyHash, KeyError>(KeyError::InvalidSize),
            buf@.len() == 40 ==> (r matches Ok(v) && v.key_hash@ == buf@.subrange(0, 32) && v.version == be_u64(
                buf@[32],
                buf@[33],
                buf@[34],
                buf@[35],
                buf@[36],
                buf@[37],
                buf@[38],
                buf@[39],
            )),
    {
        if buf.len() != 40 {
            return Err(KeyError::InvalidSize);
        }
        let mut key_hash: Vec<u8> = Vec::new();
        let mut i: usize = 0;
        while i < 32
            invariant
                buf@.len() == 40,
                0 <= i <= 32,
                key_hash@ =~= buf@.subrange(0, i as int),
            decreases 32 - i,
        {
            key_hash.push(buf[i]);
            i = i + 1;
        }
        let version: u64 = ((buf[32] as u64) << 56u64) | ((buf[33] as u64) << 48u64) | ((buf[34] as u64) << 40u64) | ((
        buf[35] as u64) << 32u64) | ((buf[36] as u64) << 24u64) | ((buf[37] as u64) << 16u64) | ((buf[38] as u64)
            << 8u64) | (buf[39] as u64);
        Ok(VersionedKeyHash { key_hash, version })
    }
}

/// Reading back the big-endian bytes of `x` gives `x`.
pub proof fn lemma_be_round_trip(x: u64)
    ensures
        be_u64(
            u64_be(x)[0],
            u64_be(x)[1],
            u64_be(x)[2],
            u64_be(x)[3],
            u64_be(x)[4],
            u64_be(x)[5],
            u64_be(x)[6],
            u64_be(x)[7],
        ) == x,
{
    assert(((((x >> 56u64) as u8) as u64) << 56u64) | ((((x >> 48u64) as u8) as u64) << 48u64) | ((((x >> 40u64)
        as u8) as u64) << 40u64) | ((((x >> 32u64) as u8) as u64) << 32u64) | ((((x >> 24u64) as u8) as u64) << 24u64)
        | ((((x >> 16u64) as u8) as u64) << 16u64) | ((((x >> 8u64) as u8) as u64) << 8u64) | ((x as u8) as u64)
        == x) by (bit_vector);
}

/// Round trip of versioned key hashes: the stored form of a 32-byte key hash
/// at any version decodes to that key hash and that version.
pub proof fn lemma_versioned_key_round_trip(key_hash: Seq<u8>, version: u64)
    requires
        key_hash.len() == 32,
    ensures
        ({
            let b = key_hash + u64_be(version);
            &&& b.len() == 40
            &&& b.subrange(0, 32) == key_hash
            &&& be_u64(b[32], b[33], b[34], b[35], b[36], b[37], b[38], b[39]) == version
        }),
{
    let b = key_hash + u64_be(version);
    assert(b.subrange(0, 32) =~= key_hash);
    lemma_be_round_trip(version);
    assert(b[32] == u64_be(version)[0] && b[33] == u64_be(version)[1] && b[34] == u64_be(version)[2] && b[35]
        == u64_be(version)[3] && b[36] == u64_be(version)[4] && b[37] == u64_be(version)[5] && b[38] == u64_be(
        version,
    )[6] && b[39] == u64_be(version)[7]);
}

/// Versions order as their stored bytes do: the first byte that differs
/// decides, so a larger version has a larger first differing byte.
pub proof fn lemma_be_order(x: u64, y: u64)
    requires
        x < y,
    ensures
        exists|i: int| 0 <= i < 8 && u64_be(x)[i] < u64_be(y)[i] && forall|j: int| 0 <= j < i ==> u64_be(x)[j] == u64_be(y)[j],
{
    let a = u64_be(x);
    let b = u64_be(y);
    if a[0] != b[0] {
        assert(((x >> 56u64) as u8) < ((y >> 56u64) as u8)) by (bit_vector)
            requires x < y, (x >> 56u64) as u8 != (y >> 56u64) as u8;
        assert(a[0] < b[0]);
    } else if a[1] != b[1] {
        assert(((x >> 48u64) as u8) < ((y >> 48u64) as u8)) by (bit_vector)
            requires x < y, (x >> 56u64) as u8 == (y >> 56u64) as u8, (x >> 48u64) as u8 != (y >> 48u64) as u8;
        assert(a[1] < b[1]);
    } else {
        lemma_be_order_low(x, y);
    }
}

proof fn lemma_be_order_low(x: u64, y: u64)
    requires
        x < y,
        (x >> 56u64) as u8 == (y >> 56u64) as u8,
        (x >> 48u64) as u8 == (y >> 48u64) as u8,
    ensures
        exists|i: int| 0 <= i < 8 && u64_be(x)[i] < u64_be(y)[i] && forall|j: int| 0 <= j < i ==> u64_be(x)[j] == u64_be(y)[j],
{
    let a = u64_be(x);
    let b = u64_be(y);
    if a[2] != b[2] {
        assert(((x >> 40u64) as u8) < ((y >> 40u64) as u8)) by (bit_vector)
            requires x < y, (x >> 56u64) as u8 == (y >> 56u64) as u8, (x >> 48u64) as u8 == (y >> 48u64) as u8,
                (x >> 40u64) as u8 != (y >> 40u64) as u8;
        assert(a[2] < b[2]);
    } else if a[3] != b[3] {
        assert(((x >> 32u64) as u8) < ((y >> 32u64) as u8)) by (bit_vector)
            requires x < y, (x >> 56u64) as u8 == (y >> 56u64) as u8, (x >> 48u64) as u8 == (y >> 48u64) as u8,
                (x >> 40u64) as u8 == (y >> 40u64) as u8, (x >> 32u64) as u8 != (y >> 32u64) as u8;
        assert(a[3] < b[3]);
    } else if a[4] != b[4] {
        assert(((x >> 24u64) as u8) < ((y >> 24u64) as u8)) by (bit_vector)
            requires x < y, (x >> 56u64) as u8 == (y >> 56u64) as u8, (x >> 48u64) as u8 == (y >> 48u64) as u8,
                (x >> 40u64) as u8 == (y >> 40u64) as u8, (x >> 32u64) as u8 == (y >> 32u64) as u8,
                (x >> 24u64) as u8 != (y >> 24u64) as u8;
        assert(a[4] < b[4]);
    } else if a[5] != b[5] {
        assert(((x >> 16u64) as u8) < ((y >> 16u64) as u8)) by (bit_vector)
            requires x < y, (x >> 56u64) as u8 == (y >> 56u64) as u8, (x >> 48u64) as u8 == (y >> 48u64) as u8,
                (x >> 40u64) as u8 == (y >> 40u64) as u8, (x >> 32u64) as u8 == (y >> 32u64) as u8,
                (x >> 24u64) as u8 == (y >> 24u64) as u8, (x >> 16u64) as u8 != (y >> 16u64) as u8;
        assert(a[5] < b[5]);
    } else if a[6] != b[6] {
        assert(((x >> 8u64) as u8) < ((y >> 8u64) as u8)) by (bit_vector)
            requires x < y, (x >> 56u64) as u8 == (y >> 56u64) as u8, (x >> 48u64) as u8 == (y >> 48u64) as u8,
                (x >> 40u64) as u8 == (y >> 40u64) as u8, (x >> 32u64) as u8 == (y >> 32u64) as u8,
                (x >> 24u64) as u8 == (y >> 24u64) as u8, (x >> 16u64) as u8 == (y >> 16u64) as u8,
                (x >> 8u64) as u8 != (y >> 8u64) as u8;
        assert(a[6] < b[6]);
    } else {
        assert((x as u8) < (y as u8)) by (bit_vector)
            requires x < y, (x >> 56u64) as u8 == (y >> 56u64) as u8, (x >> 48u64) as u8 == (y >> 48u64) as u8,
                (x >> 40u64) as u8 == (y >> 40u64) as u8, (x >> 32u64) as u8 == (y >> 32u64) as u8,
                (x >> 24u64) as u8 == (y >> 24u64) as u8, (x >> 16u64) as u8 == (y >> 16u64) as u8,
                (x >> 8u64) as u8 == (y >> 8u64) as u8;
        assert(a[7] < b[7]);
    }
}

} // verus!
