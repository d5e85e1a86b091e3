use vstd::prelude::*;
use crate::hashing::{distinct_keys, pair_find, pairs_map};

verus! {

/// One write of an ordered write log: `value` is `None` for a deletion.
pub struct Write {
    pub key: Vec<u8>,
    pub value: Option<Vec<u8>>,
}

/// The bytes an optional value holds.
pub open spec fn opt_bytes(o: Option<Vec<u8>>) -> Option<Seq<u8>> {
    match o {
        Some(v) => Some(v@),
        None => None,
    }
}

/// A write as bytes: its key, and its value or `None` for a deletion.
pub type WriteView = (Seq<u8>, Option<Seq<u8>>);

impl View for Write {
    type V = WriteView;

    open spec fn view(&self) -> WriteView {
        (self.key@, opt_bytes(self.value))
    }
}

/// A log as bytes, write by write.
pub open spec fn view_log(log: Seq<Write>) -> Seq<WriteView> {
    log.map_values(|w: Write| w@)
}

/// The latest write of `k` in `log`: `None` where `log` never touches `k`,
/// `Some(None)` where its latest write of `k` is a deletion.
pub open spec fn lookup(log: Seq<WriteView>, k: Seq<u8>) -> Option<Option<Seq<u8>>>
    decreases log.len(),
{
    if log.len() == 0 {
        None
    } else if log.last().0 == k {
        Some(log.last().1)
    } else {
        lookup(log.drop_last(), k)
    }
}

/// The value that `log` leaves under `k`.
pub open spec fn read(log: Seq<WriteView>, k: Seq<u8>) -> Option<Seq<u8>> {
    match lookup(log, k) {
        Some(o) => o,
        None => None,
    }
}

/// Every key that `log` leaves with a value, and that value.
pub open spec fn content(log: Seq<WriteView>) -> Map<Seq<u8>, Seq<u8>> {
    Map::new(|k: Seq<u8>| read(log, k) is Some, |k: Seq<u8>| read(log, k)->Some_0)
}

/// A later log shadows an earlier one: the latest write of a key in `a + b`
/// is its latest write in `b`, or else in `a`.
pub proof fn lemma_lookup_append(a: Seq<WriteView>, b: Seq<WriteView>, k: Seq<u8>)
    ensures
        lookup(a + b, k) == (if lookup(b, k) is Some {
            lookup(b, k)
        } else {
            lookup(a, k)
        }),
    decreases b.len(),
{
    if b.len() == 0 {
        assert(a + b =~= a);
    } else {
        assert((a + b).drop_last() =~= a + b.drop_last());
        assert((a + b).last() == b.last());
        lemma_lookup_append(a, b.drop_last(), k);
    }
}

/// Byte-string equality.
pub fn bytes_eq(a: &Vec<u8>, b: &Vec<u8>) -> (r: bool)
    ensures
        r == (a@ == b@),
{
    if a.len() != b.len() {
        return false;
    }
    let mut i: usize = 0;
    while i < a.len()
        invariant
            a@.len() == b@.len(),
            0 <= i <= a@.len(),
            forall|j: int| 0 <= j < i ==> a@[j] == b@[j],
        decreases a@.len() - i,
    {
        if a[i] != b[i] {
            return false;
        }
        i = i + 1;
    }
    assert(a@ =~= b@);
    true
}

/// A copy of a byte string.
pub fn copy_bytes(a: &Vec<u8>) -> (r: Vec<u8>)
    ensures
        r@ == a@,
{
    let mut r: Vec<u8> = Vec::new();
    let mut i: usize = 0;
    while i < a.len()
        invariant
            0 <= i <= a@.len(),
            r@ =~= a@.subrange(0, i as int),
        decreases a@.len() - i,
    {
        r.push(a[i]);
        i = i + 1;
    }
    assert(a@.subrange(0, a@.len() as int) =~= a@);
    r
}

/// A copy of an optional byte string.
pub fn copy_opt(o: &Option<Vec<u8>>) -> (r: Option<Vec<u8>>)
    ensures
        opt_bytes(r) == opt_bytes(*o),
{
    match o {
        Some(v) => Some(copy_bytes(v)),
        None => None,
    }
}

/// A copy of a write.
pub fn copy_write(w: &Write) -> (r: Write)
    ensures
        r@ == w@,
{
    Write { key: copy_bytes(&w.key), value: copy_opt(&w.value) }
}

/// A copy of a log, appended to `dst`.
pub fn append_log(dst: &mut Vec<Write>, src: &Vec<Write>)
    ensures
        view_log(final(dst)@) == view_log(old(dst)@) + view_log(src@),
{
    let ghost d0 = view_log(dst@);
    let mut i: usize = 0;
    while i < src.len()
        invariant
            0 <= i <= src@.len(),
            view_log(dst@) =~= d0 + view_log(src@).subrange(0, i as int),
        decreases src@.len() - i,
    {
        let w = copy_write(&src[i]);
        let ghost before = dst@;
        dst.push(w);
        assert(view_log(dst@) =~= view_log(before).push(src@[i as int]@));
        assert(view_log(src@).subrange(0, i + 1) =~= view_log(src@).subrange(0, i as int).push(
            src@[i as int]@,
        ));
        i = i + 1;
    }
    assert(view_log(src@).subrange(0, src@.len() as int) =~= view_log(src@));
}

/// The latest write of `key` in `log`, copied out.
pub fn log_lookup(log: &Vec<Write>, key: &Vec<u8>) -> (r: Option<Option<Vec<u8>>>)
    ensures
        match r {
            Some(o) => lookup(view_log(log@), key@) == Some(opt_bytes(o)),
            None => lookup(view_log(log@), key@) is None,
        },
{
    let mut i: usize = log.len();
    assert(view_log(log@).subrange(0, i as int) =~= view_log(log@));
    while i > 0
        invariant
            0 <= i <= log@.len(),
            lookup(view_log(log@), key@) == lookup(view_log(log@).subrange(0, i as int), key@),
        decreases i,
    {
        let ghost p = view_log(log@).subrange(0, i as int);
        assert(p.drop_last() =~= view_log(log@).subrange(0, i - 1));
        if bytes_eq(&log[i - 1].key, key) {
            return Some(copy_opt(&log[i - 1].value));
        }
        i = i - 1;
    }
    None
}


/// A key that occurs in a list of pairs has a value there.
pub proof fn lemma_pair_find_some(pairs: Seq<(Vec<u8>, Vec<u8>)>, i: int)
    requires
        0 <= i < pairs.len(),
    ensures
        pair_find(pairs, pairs[i].0@) is Some,
    decreases pairs.len(),
{
    if i < pairs.len() - 1 && pairs.last().0@ != pairs[i].0@ {
        lemma_pair_find_some(pairs.drop_last(), i);
    }
}

/// Whether `key` is among `keys`.
fn contains_key(keys: &Vec<Vec<u8>>, key: &Vec<u8>) -> (r: bool)
    ensures
        r == exists|j: int| 0 <= j < keys@.len() && (#[trigger] keys@[j])@ == key@,
{
    let mut i: usize = 0;
    while i < keys.len()
        invariant
            0 <= i <= keys@.len(),
            forall|j: int| 0 <= j < i ==> (#[trigger] keys@[j])@ != key@,
        decreases keys@.len() - i,
    {
        if bytes_eq(&keys[i], key) {
            return true;
        }
        i = i + 1;
    }
    false
}

/// The live key/value pairs that `log` leaves, one per key.
pub fn live_pairs(log: &Vec<Write>) -> (r: Vec<(Vec<u8>, Vec<u8>)>)
    ensures
        distinct_keys(r@),
        pairs_map(r@) == content(view_log(log@)),
{
    let mut pairs: Vec<(Vec<u8>, Vec<u8>)> = Vec::new();
    let mut seen: Vec<Vec<u8>> = Vec::new();
    let mut i: usize = log.len();
    while i > 0
        invariant
            0 <= i <= log@.len(),
            distinct_keys(pairs@),
            forall|k: Seq<u8>|
                (exists|j: int| 0 <= j < seen@.len() && (#[trigger] seen@[j])@ == k) <==> lookup(
                    view_log(log@).subrange(i as int, log@.len() as int),
                    k,
                ) is Some,
            forall|k: Seq<u8>|
                #[trigger] pair_find(pairs@, k) == read(view_log(log@).subrange(i as int, log@.len() as int), k),
        decreases i,
    {
        let ghost suf = view_log(log@).subrange(i as int, log@.len() as int);
        let ghost nsuf = view_log(log@).subrange(i - 1, log@.len() as int);
        let ghost w = log@[i - 1]@;
        assert(nsuf =~= seq![w] + suf);
        assert forall|k: Seq<u8>| #[trigger] lookup(nsuf, k) == (if lookup(suf, k) is Some {
            lookup(suf, k)
        } else if w.0 == k {
            Some(w.1)
        } else {
            None
        }) by {
            lemma_lookup_append(seq![w], suf, k);
            assert(seq![w].drop_last() =~= Seq::<WriteView>::empty());
            assert(seq![w].last() == w);
            assert(lookup(Seq::<WriteView>::empty(), k) is None);
        }
        let known = contains_key(&seen, &log[i - 1].key);
        if !known {
            let ghost p0 = pairs@;
            let ghost s0 = seen@;
            match &log[i - 1].value {
                Some(v) => {
                    assert forall|j: int| 0 <= j < pairs@.len() implies (#[trigger] pairs@[j]).0@
                        != w.0 by {
                        lemma_pair_find_some(pairs@, j);
                    }
                    pairs.push((copy_bytes(&log[i - 1].key), copy_bytes(v)));
                    assert(pairs@.drop_last() =~= p0);
                },
                None => {},
            }
            seen.push(copy_bytes(&log[i - 1].key));
            assert forall|k: Seq<u8>|
                (exists|j: int| 0 <= j < seen@.len() && (#[trigger] seen@[j])@ == k) <==> lookup(
                    nsuf,
                    k,
                ) is Some by {
                if k == w.0 {
                    assert(seen@[s0.len() as int]@ == k);
                }
                if lookup(nsuf, k) is Some && k != w.0 {
                    assert(lookup(suf, k) is Some);
                    let j = choose|j: int| 0 <= j < s0.len() && (#[trigger] s0[j])@ == k;
                    assert(seen@[j] == s0[j]);
                }
                if exists|j: int| 0 <= j < seen@.len() && (#[trigger] seen@[j])@ == k {
                    let j = choose|j: int| 0 <= j < seen@.len() && (#[trigger] seen@[j])@ == k;
                    if j < s0.len() {
                        assert(s0[j] == seen@[j]);
                    }
                }
            }
        }
        assert forall|k: Seq<u8>| #[trigger] pair_find(pairs@, k) == read(nsuf, k) by {
            if pairs@.len() > 0 {
                assert(pair_find(pairs@, k) == (if pairs@.last().0@ == k {
                    Some(pairs@.last().1@)
                } else {
                    pair_find(pairs@.drop_last(), k)
                }));
            }
        }
        i = i - 1;
    }
    assert(view_log(log@).subrange(0, log@.len() as int) =~= view_log(log@));
    assert(pairs_map(pairs@) =~= content(view_log(log@)));
    pairs
}


/// A key with a value in a list of pairs occurs in it.
pub proof fn lemma_pair_find_index(pairs: Seq<(Vec<u8>, Vec<u8>)>, k: Seq<u8>)
    requires
        pair_find(pairs, k) is Some,
    ensures
        exists|i: int| 0 <= i < pairs.len() && (#[trigger] pairs[i]).0@ == k,
    decreases pairs.len(),
{
    if pairs.last().0@ == k {
        assert(pairs[pairs.len() - 1].0@ == k);
    } else {
        lemma_pair_find_index(pairs.drop_last(), k);
        let i = choose|i: int| 0 <= i < pairs.drop_last().len() && (#[trigger] pairs.drop_last()[i]).0@ == k;
        assert(pairs[i] == pairs.drop_last()[i]);
    }
}

} // verus!
