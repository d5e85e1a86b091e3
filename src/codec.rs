use vstd::prelude::*;
use crate::ibc::{LightClientState, MsgChannelOpenConfirm, MsgChannelOpenInit, MsgCreateClient, Ordering};
use crate::log::copy_bytes;
use crate::transaction::{
    Action, BatchSwapOutputData, DelegatorVote, Ics20Withdrawal, Output, OutputBody, Spend, SpendBody, Swap,
    SwapClaim, TradingPair, Vote, Clue, DetectionData, MemoData, Transaction, TransactionBody,
    TransactionParameters,
};

verus! {

/// One field of an encoded record: a number, or a byte string.
pub enum Field {
    Num(u64),
    Bytes(Vec<u8>),
}

/// A field as plain values.
pub enum FieldView {
    Num(u64),
    Bytes(Seq<u8>),
}

impl View for Field {
    type V = FieldView;

    open spec fn view(&self) -> FieldView {
        match self {
            Field::Num(x) => FieldView::Num(*x),
            Field::Bytes(b) => FieldView::Bytes(b@),
        }
    }
}

/// The fields of a list, as plain values.
pub open spec fn fields_view(fs: Seq<Field>) -> Seq<FieldView> {
    fs.map_values(|f: Field| f@)
}

/// The eight little-endian bytes of `x`.
pub open spec fn u64_le(x: u64) -> Seq<u8> {
    seq![
        x as u8,
        (x >> 8u64) as u8,
        (x >> 16u64) as u8,
        (x >> 24u64) as u8,
        (x >> 32u64) as u8,
        (x >> 40u64) as u8,
        (x >> 48u64) as u8,
        (x >> 56u64) as u8,
    ]
}

/// The number whose little-endian bytes are `b0` to `b7`.
pub open spec fn le_u64(b0: u8, b1: u8, b2: u8, b3: u8, b4: u8, b5: u8, b6: u8, b7: u8) -> u64 {
    (b0 as u64) | ((b1 as u64) << 8u64) | ((b2 as u64) << 16u64) | ((b3 as u64) << 24u64) | ((b4 as u64)
        << 32u64) | ((b5 as u64) << 40u64) | ((b6 as u64) << 48u64) | ((b7 as u64) << 56u64)
}

/// Reading back the bytes of `x` gives `x`.
pub proof fn lemma_le_round_trip(x: u64)
    ensures
        le_u64(
            u64_le(x)[0],
            u64_le(x)[1],
            u64_le(x)[2],
            u64_le(x)[3],
            u64_le(x)[4],
            u64_le(x)[5],
            u64_le(x)[6],
            u64_le(x)[7],
        ) == x,
{
    assert(((x as u8) as u64) | ((((x >> 8u64) as u8) as u64) << 8u64) | ((((x >> 16u64) as u8) as u64)
        << 16u64) | ((((x >> 24u64) as u8) as u64) << 24u64) | ((((x >> 32u64) as u8) as u64) << 32u64)
        | ((((x >> 40u64) as u8) as u64) << 40u64) | ((((x >> 48u64) as u8) as u64) << 48u64) | ((((x
        >> 56u64) as u8) as u64) << 56u64) == x) by (bit_vector);
}

/// The bytes of one field: a kind byte (0 for a number, 1 for a byte
/// string), eight little-endian bytes of the number or of the length, then
/// the string's bytes.
pub open spec fn enc_field(f: FieldView) -> Seq<u8> {
    match f {
        FieldView::Num(x) => seq![0u8] + u64_le(x),
        FieldView::Bytes(b) => seq![1u8] + u64_le(b.len() as u64) + b,
    }
}

/// A field that fits the encoding: a byte string shorter than 2^64.
pub open spec fn field_ok(f: FieldView) -> bool {
    match f {
        FieldView::Num(_) => true,
        FieldView::Bytes(b) => b.len() <= u64::MAX,
    }
}

/// The bytes of a list of fields, one after the other.
pub open spec fn enc_fields(fs: Seq<FieldView>) -> Seq<u8>
    decreases fs.len(),
{
    if fs.len() == 0 {
        Seq::empty()
    } else {
        enc_field(fs[0]) + enc_fields(fs.drop_first())
    }
}

/// The first field of `b` and the number of bytes it takes.
pub open spec fn dec_field(b: Seq<u8>) -> Option<(FieldView, nat)> {
    if b.len() < 9 {
        None
    } else {
        let x = le_u64(b[1], b[2], b[3], b[4], b[5], b[6], b[7], b[8]);
        if b[0] == 0 {
            Some((FieldView::Num(x), 9nat))
        } else if b[0] == 1 && 9 + x <= b.len() {
            Some((FieldView::Bytes(b.subrange(9, 9 + x)), (9 + x) as nat))
        } else {
            None
        }
    }
}

/// The fields of `b`, where `b` is a list of whole fields.
pub open spec fn dec_fields(b: Seq<u8>) -> Option<Seq<FieldView>>
    decreases b.len(),
{
    if b.len() == 0 {
        Some(Seq::empty())
    } else {
        match dec_field(b) {
            None => None,
            Some((f, n)) => if n == 0 {
                None
            } else {
                match dec_fields(b.subrange(n as int, b.len() as int)) {
                    None => None,
                    Some(rest) => Some(seq![f] + rest),
                }
            },
        }
    }
}

/// One field followed by anything decodes to that field.
pub proof fn lemma_field_round_trip(f: FieldView, rest: Seq<u8>)
    requires
        field_ok(f),
    ensures
        dec_field(enc_field(f) + rest) == Some((f, enc_field(f).len())),
        enc_field(f).len() > 0,
{
    let b = enc_field(f) + rest;
    match f {
        FieldView::Num(x) => {
            lemma_le_round_trip(x);
            assert(b[1] == u64_le(x)[0] && b[2] == u64_le(x)[1] && b[3] == u64_le(x)[2] && b[4] == u64_le(x)[3]
                && b[5] == u64_le(x)[4] && b[6] == u64_le(x)[5] && b[7] == u64_le(x)[6] && b[8] == u64_le(
                x,
            )[7]);
        },
        FieldView::Bytes(s) => {
            let n = s.len() as u64;
            lemma_le_round_trip(n);
            assert(b[1] == u64_le(n)[0] && b[2] == u64_le(n)[1] && b[3] == u64_le(n)[2] && b[4] == u64_le(n)[3]
                && b[5] == u64_le(n)[4] && b[6] == u64_le(n)[5] && b[7] == u64_le(n)[6] && b[8] == u64_le(
                n,
            )[7]);
            assert(b.subrange(9, 9 + s.len() as int) =~= s);
        },
    }
}

/// Encoding a list of fields and decoding the bytes gives the list back.
pub proof fn lemma_fields_round_trip(fs: Seq<FieldView>)
    requires
        forall|i: int| 0 <= i < fs.len() ==> field_ok(#[trigger] fs[i]),
    ensures
        dec_fields(enc_fields(fs)) == Some(fs),
    decreases fs.len(),
{
    if fs.len() > 0 {
        let rest = enc_fields(fs.drop_first());
        assert(field_ok(fs[0]));
        lemma_field_round_trip(fs[0], rest);
        assert forall|i: int| 0 <= i < fs.drop_first().len() implies field_ok(#[trigger] fs.drop_first()[i]) by {
            assert(field_ok(fs[i + 1]));
        }
        lemma_fields_round_trip(fs.drop_first());
        let b = enc_fields(fs);
        let n = enc_field(fs[0]).len();
        assert(b.subrange(n as int, b.len() as int) =~= rest);
        assert(seq![fs[0]] + fs.drop_first() =~= fs);
    } else {
        assert(enc_fields(fs) =~= Seq::<u8>::empty());
    }
}

/// The concatenation of two lists of fields encodes to the concatenation of
/// their bytes.
pub proof fn lemma_enc_fields_append(a: Seq<FieldView>, b: Seq<FieldView>)
    ensures
        enc_fields(a + b) == enc_fields(a) + enc_fields(b),
    decreases a.len(),
{
    if a.len() == 0 {
        assert(a + b =~= b);
        assert(enc_fields(a) + enc_fields(b) =~= enc_fields(b));
    } else {
        assert((a + b).drop_first() =~= a.drop_first() + b);
        assert((a + b)[0] == a[0]);
        lemma_enc_fields_append(a.drop_first(), b);
        assert(enc_fields(a + b) =~= enc_fields(a) + enc_fields(b));
    }
}

/// Appends the bytes of `x` to `out`.
fn push_u64(out: &mut Vec<u8>, x: u64)
    ensures
        final(out)@ == old(out)@ + u64_le(x),
{
    out.push(x as u8);
    out.push((x >> 8u64) as u8);
    out.push((x >> 16u64) as u8);
    out.push((x >> 24u64) as u8);
    out.push((x >> 32u64) as u8);
    out.push((x >> 40u64) as u8);
    out.push((x >> 48u64) as u8);
    out.push((x >> 56u64) as u8);
    assert(out@ =~= old(out)@ + u64_le(x));
}

/// The bytes of a list of fields.
pub fn encode_fields(fs: &Vec<Field>) -> (r: Vec<u8>)
    ensures
        r@ == enc_fields(fields_view(fs@)),
{
    let mut out: Vec<u8> = Vec::new();
    let mut i: usize = 0;
    while i < fs.len()
        invariant
            0 <= i <= fs@.len(),
            out@ == enc_fields(fields_view(fs@).subrange(0, i as int)),
        decreases fs@.len() - i,
    {
        let ghost before = out@;
        match &fs[i] {
            Field::Num(x) => {
                out.push(0u8);
                push_u64(&mut out, *x);
            },
            Field::Bytes(b) => {
                out.push(1u8);
                push_u64(&mut out, b.len() as u64);
                let mut j: usize = 0;
                let ghost mid = out@;
                while j < b.len()
                    invariant
                        0 <= j <= b@.len(),
                        out@ == mid + b@.subrange(0, j as int),
                    decreases b@.len() - j,
                {
                    out.push(b[j]);
                    assert(b@.subrange(0, j + 1) =~= b@.subrange(0, j as int).push(b@[j as int]));
                    j = j + 1;
                }
                assert(b@.subrange(0, b@.len() as int) =~= b@);
            },
        }
        assert(out@ =~= before + enc_field(fs@[i as int]@));
        proof {
            let v = fields_view(fs@);
            assert(v.subrange(0, i + 1) =~= v.subrange(0, i as int) + seq![v[i as int]]);
            lemma_enc_fields_append(v.subrange(0, i as int), seq![v[i as int]]);
            assert(seq![v[i as int]].drop_first() =~= Seq::<FieldView>::empty());
            assert(enc_fields(seq![v[i as int]]) =~= enc_field(v[i as int]) + enc_fields(Seq::<FieldView>::empty()));
        }
        i = i + 1;
    }
    assert(fields_view(fs@).subrange(0, fs@.len() as int) =~= fields_view(fs@));
    out
}

/// The fields that `buf` encodes, or `None` where it is not a list of whole
/// fields.
pub fn decode_fields(buf: &Vec<u8>) -> (r: Option<Vec<Field>>)
    ensures
        match r {
            Some(fs) => dec_fields(buf@) == Some(fields_view(fs@)),
            None => dec_fields(buf@) is None,
        },
{
    let mut out: Vec<Field> = Vec::new();
    let mut pos: usize = 0;
    let n = buf.len();
    assert(buf@.subrange(0, n as int) =~= buf@);
    proof {
        if let Some(rest) = dec_fields(buf@) {
            assert(fields_view(out@) + rest =~= rest);
        }
    }
    while pos < n
        invariant
            n == buf@.len(),
            0 <= pos <= n,
            dec_fields(buf@) == (match dec_fields(buf@.subrange(pos as int, n as int)) {
                Some(rest) => Some(fields_view(out@) + rest),
                None => None::<Seq<FieldView>>,
            }),
        decreases n - pos,
    {
        let ghost suf = buf@.subrange(pos as int, n as int);
        if n - pos < 9 {
            return None;
        }
        let kind = buf[pos];
        let x: u64 = (buf[pos + 1] as u64) | ((buf[pos + 2] as u64) << 8u64) | ((buf[pos + 3] as u64) << 16u64)
            | ((buf[pos + 4] as u64) << 24u64) | ((buf[pos + 5] as u64) << 32u64) | ((buf[pos + 6] as u64)
            << 40u64) | ((buf[pos + 7] as u64) << 48u64) | ((buf[pos + 8] as u64) << 56u64);
        assert(x == le_u64(suf[1], suf[2], suf[3], suf[4], suf[5], suf[6], suf[7], suf[8]));
        let ghost before = out@;
        let used: usize;
        if kind == 0 {
            out.push(Field::Num(x));
            used = 9;
        } else if kind == 1 && (x as u128) <= ((n - pos - 9) as u128) {
            let len = x as usize;
            let mut b: Vec<u8> = Vec::new();
            let mut j: usize = 0;
            while j < len
                invariant
                    n == buf@.len(),
                    pos + 9 + len <= n,
                    0 <= j <= len,
                    b@ =~= buf@.subrange(pos + 9, pos + 9 + j),
                decreases len - j,
            {
                b.push(buf[pos + 9 + j]);
                j = j + 1;
            }
            assert(b@ =~= suf.subrange(9, 9 + x));
            out.push(Field::Bytes(b));
            used = 9 + len;
        } else {
            return None;
        }
        assert(fields_view(out@) =~= fields_view(before) + seq![dec_field(suf)->Some_0.0]);
        assert(buf@.subrange((pos + used) as int, n as int) =~= suf.subrange(used as int, suf.len() as int));
        pos = pos + used;
    }
    assert(buf@.subrange(pos as int, n as int) =~= Seq::<u8>::empty());
    assert(fields_view(out@) + Seq::<FieldView>::empty() =~= fields_view(out@));
    Some(out)
}


/// The code of a vote.
pub open spec fn vote_code(v: Vote) -> u64 {
    match v {
        Vote::Yes => 0,
        Vote::No => 1,
        Vote::Abstain => 2,
    }
}

fn vote_to_code(v: Vote) -> (r: u64)
    ensures
        r == vote_code(v),
{
    match v {
        Vote::Yes => 0,
        Vote::No => 1,
        Vote::Abstain => 2,
    }
}

fn vote_from_code(x: u64) -> (r: Option<Vote>)
    ensures
        r matches Some(v) ==> vote_code(v) == x,
        x <= 2 ==> r is Some,
{
    if x == 0 {
        Some(Vote::Yes)
    } else if x == 1 {
        Some(Vote::No)
    } else if x == 2 {
        Some(Vote::Abstain)
    } else {
        None
    }
}

/// The code of a channel ordering.
pub open spec fn ordering_code(o: Ordering) -> u64 {
    match o {
        Ordering::Unordered => 0,
        Ordering::Ordered => 1,
    }
}

fn ordering_to_code(o: Ordering) -> (r: u64)
    ensures
        r == ordering_code(o),
{
    match o {
        Ordering::Unordered => 0,
        Ordering::Ordered => 1,
    }
}

fn ordering_from_code(x: u64) -> (r: Option<Ordering>)
    ensures
        r matches Some(o) ==> ordering_code(o) == x,
        x <= 1 ==> r is Some,
{
    if x == 0 {
        Some(Ordering::Unordered)
    } else if x == 1 {
        Some(Ordering::Ordered)
    } else {
        None
    }
}

/// The kind code of a light-client state: 0 for Tendermint, 1 otherwise.
pub open spec fn client_kind(c: LightClientState) -> u64 {
    match c {
        LightClientState::Tendermint { .. } => 0,
        LightClientState::Other => 1,
    }
}

/// The height of a Tendermint light-client state; zero otherwise.
pub open spec fn client_height(c: LightClientState) -> u64 {
    match c {
        LightClientState::Tendermint { height } => height,
        LightClientState::Other => 0,
    }
}

fn client_to_kind(c: LightClientState) -> (r: u64)
    ensures
        r == client_kind(c),
{
    match c {
        LightClientState::Tendermint { .. } => 0,
        LightClientState::Other => 1,
    }
}

fn client_to_height(c: LightClientState) -> (r: u64)
    ensures
        r == client_height(c),
{
    match c {
        LightClientState::Tendermint { height } => height,
        LightClientState::Other => 0,
    }
}

fn client_from_fields(kind: u64, height: u64) -> (r: Option<LightClientState>)
    ensures
        r matches Some(c) ==> client_kind(c) == kind && client_height(c) == height,
        kind == 0 ==> r is Some,
        kind == 1 && height == 0 ==> r is Some,
{
    if kind == 0 {
        Some(LightClientState::Tendermint { height })
    } else if kind == 1 && height == 0 {
        Some(LightClientState::Other)
    } else {
        None
    }
}

/// One number field per connection hop.
pub open spec fn hop_fields(hops: Seq<u64>) -> Seq<FieldView> {
    hops.map_values(|h: u64| FieldView::Num(h))
}

/// Whether every field is a number.
pub open spec fn all_nums(fs: Seq<FieldView>) -> bool {
    forall|i: int| 0 <= i < fs.len() ==> #[trigger] fs[i] is Num
}

fn push_hops(r: &mut Vec<Field>, hops: &Vec<u64>)
    ensures
        fields_view(final(r)@) == fields_view(old(r)@) + hop_fields(hops@),
{
    let ghost r0 = fields_view(r@);
    let mut i: usize = 0;
    while i < hops.len()
        invariant
            0 <= i <= hops@.len(),
            fields_view(r@) =~= r0 + hop_fields(hops@.subrange(0, i as int)),
        decreases hops@.len() - i,
    {
        let ghost before = r@;
        r.push(Field::Num(hops[i]));
        assert(fields_view(r@) =~= fields_view(before).push(FieldView::Num(hops@[i as int])));
        assert(hop_fields(hops@.subrange(0, i + 1)) =~= hop_fields(hops@.subrange(0, i as int)).push(
            FieldView::Num(hops@[i as int]),
        ));
        i = i + 1;
    }
    assert(hops@.subrange(0, hops@.len() as int) =~= hops@);
}

fn hops_from_fields(fs: &Vec<Field>, start: usize) -> (r: Option<Vec<u64>>)
    requires
        start <= fs@.len(),
    ensures
        r matches Some(h) ==> hop_fields(h@) == fields_view(fs@).subrange(start as int, fs@.len() as int),
        all_nums(fields_view(fs@).subrange(start as int, fs@.len() as int)) ==> r is Some,
{
    let mut hops: Vec<u64> = Vec::new();
    let mut i: usize = start;
    while i < fs.len()
        invariant
            start <= i <= fs@.len(),
            hop_fields(hops@) =~= fields_view(fs@).subrange(start as int, i as int),
        decreases fs@.len() - i,
    {
        match &fs[i] {
            Field::Num(x) => {
                let ghost before = hops@;
                hops.push(*x);
                assert(hop_fields(hops@) =~= hop_fields(before).push(FieldView::Num(*x)));
            },
            Field::Bytes(_) => {
                proof {
                    let s = fields_view(fs@).subrange(start as int, fs@.len() as int);
                    assert(!(s[i - start] is Num));
                }
                return None;
            },
        }
        i = i + 1;
    }
    Some(hops)
}

fn get_num(fs: &Vec<Field>, i: usize) -> (r: Option<u64>)
    requires
        i < fs@.len(),
    ensures
        r == (match fs@[i as int]@ {
            FieldView::Num(x) => Some(x),
            FieldView::Bytes(_) => None,
        }),
{
    match &fs[i] {
        Field::Num(x) => Some(*x),
        Field::Bytes(_) => None,
    }
}

fn get_bytes(fs: &Vec<Field>, i: usize) -> (r: Option<Vec<u8>>)
    requires
        i < fs@.len(),
    ensures
        match r {
            Some(b) => fs@[i as int]@ == FieldView::Bytes(b@),
            None => fs@[i as int]@ is Num,
        },
{
    match &fs[i] {
        Field::Num(_) => None,
        Field::Bytes(b) => Some(copy_bytes(b)),
    }
}

/// The fields of an action: a tag for its kind, then its own fields in
/// declaration order.
pub open spec fn action_fields(a: Action) -> Seq<FieldView> {
    match a {
        Action::Spend(sp) => seq![
            FieldView::Num(0),
            FieldView::Bytes(sp.body.balance_commitment@),
            FieldView::Bytes(sp.body.nullifier@),
            FieldView::Bytes(sp.body.rk@),
            FieldView::Bytes(sp.auth_sig@),
            FieldView::Bytes(sp.proof@),
        ],
        Action::Output(o) => seq![
            FieldView::Num(1),
            FieldView::Bytes(o.body.note_commitment@),
            FieldView::Bytes(o.body.balance_commitment@),
            FieldView::Bytes(o.body.wrapped_memo_key@),
            FieldView::Bytes(o.body.ovk_wrapped_key@),
            FieldView::Bytes(o.proof@),
        ],
        Action::Swap(w) => seq![
            FieldView::Num(2),
            FieldView::Num(w.trading_pair.asset_1),
            FieldView::Num(w.trading_pair.asset_2),
            FieldView::Bytes(w.swap_commitment@),
            FieldView::Bytes(w.proof@),
        ],
        Action::SwapClaim(c) => seq![
            FieldView::Num(3),
            FieldView::Bytes(c.nullifier@),
            FieldView::Num(c.output_data.height),
            FieldView::Num(c.output_data.trading_pair.asset_1),
            FieldView::Num(c.output_data.trading_pair.asset_2),
            FieldView::Num(c.output_data.delta_1),
            FieldView::Num(c.output_data.delta_2),
            FieldView::Num(c.output_data.lambda_1),
            FieldView::Num(c.output_data.lambda_2),
            FieldView::Num(c.output_data.unfilled_1),
            FieldView::Num(c.output_data.unfilled_2),
            FieldView::Num(c.epoch_duration),
            FieldView::Bytes(c.output_1_commitment@),
            FieldView::Bytes(c.output_2_commitment@),
            FieldView::Bytes(c.proof@),
        ],
        Action::DelegatorVote(d) => seq![
            FieldView::Num(4),
            FieldView::Num(d.proposal),
            FieldView::Num(vote_code(d.vote)),
            FieldView::Num(d.start_position),
            FieldView::Num(d.delegation_asset),
            FieldView::Num(d.value_amount),
            FieldView::Num(d.unbonded_amount),
            FieldView::Bytes(d.nullifier@),
            FieldView::Bytes(d.rk@),
            FieldView::Bytes(d.auth_sig@),
            FieldView::Bytes(d.proof@),
        ],
        Action::Ics20Withdrawal(x) => seq![
            FieldView::Num(5),
            FieldView::Num(x.amount),
            FieldView::Num(x.asset),
            FieldView::Bytes(x.destination_chain_address@),
            FieldView::Bytes(x.return_address@),
            FieldView::Num(x.timeout_height),
            FieldView::Num(x.timeout_time),
            FieldView::Bytes(x.source_port@),
            FieldView::Num(x.source_channel),
        ],
        Action::ChannelOpenConfirm(m) => seq![
            FieldView::Num(7),
            FieldView::Bytes(m.port_id_on_b@),
            FieldView::Num(m.chan_id_on_b),
            FieldView::Bytes(m.proof_chan_end_on_a@),
            FieldView::Num(m.proof_height_on_a),
        ],
        Action::CreateClient(m) => seq![
            FieldView::Num(8),
            FieldView::Num(client_kind(m.client_state)),
            FieldView::Num(client_height(m.client_state)),
            FieldView::Num(client_kind(m.consensus_state)),
            FieldView::Num(client_height(m.consensus_state)),
        ],
        Action::ChannelOpenInit(m) => seq![
            FieldView::Num(6),
            FieldView::Bytes(m.port_id_on_a@),
            FieldView::Bytes(m.port_id_on_b@),
            FieldView::Num(ordering_code(m.ordering)),
            FieldView::Bytes(m.version_proposal@),
        ] + hop_fields(m.connection_hops_on_a@),
    }
}

/// Whether `fs` has the tag and field kinds of some action.
pub open spec fn action_shape_ok(fs: Seq<FieldView>) -> bool {
    fs.len() >= 1 && fs[0] is Num && {
        let t = fs[0]->Num_0;
        if t == 0 {
            fs.len() == 6 && fs[1] is Bytes && fs[2] is Bytes && fs[3] is Bytes && fs[4] is Bytes
                && fs[5] is Bytes
        } else if t == 1 {
            fs.len() == 6 && fs[1] is Bytes && fs[2] is Bytes && fs[3] is Bytes && fs[4] is Bytes
                && fs[5] is Bytes
        } else if t == 2 {
            fs.len() == 5 && fs[1] is Num && fs[2] is Num && fs[3] is Bytes && fs[4] is Bytes
        } else if t == 3 {
            fs.len() == 15 && fs[1] is Bytes && fs[2] is Num && fs[3] is Num && fs[4] is Num && fs[5] is Num
                && fs[6] is Num && fs[7] is Num && fs[8] is Num && fs[9] is Num && fs[10] is Num
                && fs[11] is Num && fs[12] is Bytes && fs[13] is Bytes && fs[14] is Bytes
        } else if t == 4 {
            fs.len() == 11 && fs[1] is Num && fs[2] is Num && fs[2]->Num_0 <= 2 && fs[3] is Num
                && fs[4] is Num && fs[5] is Num && fs[6] is Num && fs[7] is Bytes && fs[8] is Bytes
                && fs[9] is Bytes && fs[10] is Bytes
        } else if t == 5 {
            fs.len() == 9 && fs[1] is Num && fs[2] is Num && fs[3] is Bytes && fs[4] is Bytes && fs[5] is Num
                && fs[6] is Num && fs[7] is Bytes && fs[8] is Num
        } else if t == 7 {
            fs.len() == 5 && fs[1] is Bytes && fs[2] is Num && fs[3] is Bytes && fs[4] is Num
        } else if t == 8 {
            fs.len() == 5 && fs[1] is Num && fs[2] is Num
                && (fs[1]->Num_0 == 0 || (fs[1]->Num_0 == 1 && fs[2]->Num_0 == 0)) && fs[3] is Num
                && fs[4] is Num && (fs[3]->Num_0 == 0 || (fs[3]->Num_0 == 1 && fs[4]->Num_0 == 0))
        } else if t == 6 {
            fs.len() >= 5 && fs[1] is Bytes && fs[2] is Bytes && fs[3] is Num && fs[3]->Num_0 <= 1 && fs[4] is Bytes
                && all_nums(fs.subrange(5, fs.len() as int))
        } else {
            false
        }
    }
}

/// The fields of an action.
pub fn action_to_fields(a: &Action) -> (r: Vec<Field>)
    ensures
        fields_view(r@) == action_fields(*a),
{
    let r = match a {
        Action::Spend(sp) => vec![
            Field::Num(0),
            Field::Bytes(copy_bytes(&sp.body.balance_commitment)),
            Field::Bytes(copy_bytes(&sp.body.nullifier)),
            Field::Bytes(copy_bytes(&sp.body.rk)),
            Field::Bytes(copy_bytes(&sp.auth_sig)),
            Field::Bytes(copy_bytes(&sp.proof)),
        ],
        Action::Output(o) => vec![
            Field::Num(1),
            Field::Bytes(copy_bytes(&o.body.note_commitment)),
            Field::Bytes(copy_bytes(&o.body.balance_commitment)),
            Field::Bytes(copy_bytes(&o.body.wrapped_memo_key)),
            Field::Bytes(copy_bytes(&o.body.ovk_wrapped_key)),
            Field::Bytes(copy_bytes(&o.proof)),
        ],
        Action::Swap(w) => vec![
            Field::Num(2),
            Field::Num(w.trading_pair.asset_1),
            Field::Num(w.trading_pair.asset_2),
            Field::Bytes(copy_bytes(&w.swap_commitment)),
            Field::Bytes(copy_bytes(&w.proof)),
        ],
        Action::SwapClaim(c) => vec![
            Field::Num(3),
            Field::Bytes(copy_bytes(&c.nullifier)),
            Field::Num(c.output_data.height),
            Field::Num(c.output_data.trading_pair.asset_1),
            Field::Num(c.output_data.trading_pair.asset_2),
            Field::Num(c.output_data.delta_1),
            Field::Num(c.output_data.delta_2),
            Field::Num(c.output_data.lambda_1),
            Field::Num(c.output_data.lambda_2),
            Field::Num(c.output_data.unfilled_1),
            Field::Num(c.output_data.unfilled_2),
            Field::Num(c.epoch_duration),
            Field::Bytes(copy_bytes(&c.output_1_commitment)),
            Field::Bytes(copy_bytes(&c.output_2_commitment)),
            Field::Bytes(copy_bytes(&c.proof)),
        ],
        Action::DelegatorVote(d) => vec![
            Field::Num(4),
            Field::Num(d.proposal),
            Field::Num(vote_to_code(d.vote)),
            Field::Num(d.start_position),
            Field::Num(d.delegation_asset),
            Field::Num(d.value_amount),
            Field::Num(d.unbonded_amount),
            Field::Bytes(copy_bytes(&d.nullifier)),
            Field::Bytes(copy_bytes(&d.rk)),
            Field::Bytes(copy_bytes(&d.auth_sig)),
            Field::Bytes(copy_bytes(&d.proof)),
        ],
        Action::Ics20Withdrawal(x) => vec![
            Field::Num(5),
            Field::Num(x.amount),
            Field::Num(x.asset),
            Field::Bytes(copy_bytes(&x.destination_chain_address)),
            Field::Bytes(copy_bytes(&x.return_address)),
            Field::Num(x.timeout_height),
            Field::Num(x.timeout_time),
            Field::Bytes(copy_bytes(&x.source_port)),
            Field::Num(x.source_channel),
        ],
        Action::ChannelOpenConfirm(m) => vec![
            Field::Num(7),
            Field::Bytes(copy_bytes(&m.port_id_on_b)),
            Field::Num(m.chan_id_on_b),
            Field::Bytes(copy_bytes(&m.proof_chan_end_on_a)),
            Field::Num(m.proof_height_on_a),
        ],
        Action::CreateClient(m) => vec![
            Field::Num(8),
            Field::Num(client_to_kind(m.client_state)),
            Field::Num(client_to_height(m.client_state)),
            Field::Num(client_to_kind(m.consensus_state)),
            Field::Num(client_to_height(m.consensus_state)),
        ],
        Action::ChannelOpenInit(m) => {
            let mut r = vec![
                Field::Num(6),
                Field::Bytes(copy_bytes(&m.port_id_on_a)),
                Field::Bytes(copy_bytes(&m.port_id_on_b)),
                Field::Num(ordering_to_code(m.ordering)),
                Field::Bytes(copy_bytes(&m.version_proposal)),
            ];
            push_hops(&mut r, &m.connection_hops_on_a);
            r
        },
    };
    assert(fields_view(r@) =~= action_fields(*a));
    r
}

/// The action whose fields `fs` are, where they have the shape of one.
pub fn action_from_fields(fs: &Vec<Field>) -> (r: Option<Action>)
    ensures
        r matches Some(a) ==> action_fields(a) == fields_view(fs@),
        action_shape_ok(fields_view(fs@)) ==> r is Some,
{
    if fs.len() == 0 {
        return None;
    }
    let t = match get_num(fs, 0) {
        Some(t) => t,
        None => {
            return None;
        },
    };
    if t == 0 {
        if fs.len() != 6 {
            return None;
        }
        let f1 = match get_bytes(fs, 1) {
            Some(b) => b,
            None => {
                return None;
            },
        };
        let f2 = match get_bytes(fs, 2) {
            Some(b) => b,
            None => {
                return None;
            },
        };
        let f3 = match get_bytes(fs, 3) {
            Some(b) => b,
            None => {
                return None;
            },
        };
        let f4 = match get_bytes(fs, 4) {
            Some(b) => b,
            None => {
                return None;
            },
        };
        let f5 = match get_bytes(fs, 5) {
            Some(b) => b,
            None => {
                return None;
            },
        };
        let a = Action::Spend(
            Spend {
                body: SpendBody { balance_commitment: f1, nullifier: f2, rk: f3 },
                auth_sig: f4,
                proof: f5,
            },
        );
        assert(action_fields(a) =~= fields_view(fs@));
        return Some(a);
    }
    if t == 1 {
        if fs.len() != 6 {
            return None;
        }
        let f1 = match get_bytes(fs, 1) {
            Some(b) => b,
            None => {
                return None;
            },
        };
        let f2 = match get_bytes(fs, 2) {
            Some(b) => b,
            None => {
                return None;
            },
        };
        let f3 = match get_bytes(fs, 3) {
            Some(b) => b,
            None => {
                return None;
            },
        };
        let f4 = match get_bytes(fs, 4) {
            Some(b) => b,
            None => {
                return None;
            },
        };
        let f5 = match get_bytes(fs, 5) {
            Some(b) => b,
            None => {
                return None;
            },
        };
        let a = Action::Output(
            Output {
                body: OutputBody {
                          note_commitment: f1,
                          balance_commitment: f2,
                          wrapped_memo_key: f3,
                          ovk_wrapped_key: f4,
                      },
                proof: f5,
            },
        );
        assert(action_fields(a) =~= fields_view(fs@));
        return Some(a);
    }
    if t == 2 {
        if fs.len() != 5 {
            return None;
        }
        let f1 = match get_num(fs, 1) {
            Some(x) => x,
            None => {
                return None;
            },
        };
        let f2 = match get_num(fs, 2) {
            Some(x) => x,
            None => {
                return None;
            },
        };
        let f3 = match get_bytes(fs, 3) {
            Some(b) => b,
            None => {
                return None;
            },
        };
        let f4 = match get_bytes(fs, 4) {
            Some(b) => b,
            None => {
                return None;
            },
        };
        let a = Action::Swap(
            Swap { trading_pair: TradingPair { asset_1: f1, asset_2: f2 }, swap_commitment: f3, proof: f4 },
        );
        assert(action_fields(a) =~= fields_view(fs@));
        return Some(a);
    }
    if t == 3 {
        if fs.len() != 15 {
            return None;
        }
        let f1 = match get_bytes(fs, 1) {
            Some(b) => b,
            None => {
                return None;
            },
        };
        let f2 = match get_num(fs, 2) {
            Some(x) => x,
            None => {
                return None;
            },
        };
        let f3 = match get_num(fs, 3) {
            Some(x) => x,
            None => {
                return None;
            },
        };
        let f4 = match get_num(fs, 4) {
            Some(x) => x,
            None => {
                return None;
            },
        };
        let f5 = match get_num(fs, 5) {
            Some(x) => x,
            None => {
                return None;
            },
        };
        let f6 = match get_num(fs, 6) {
            Some(x) => x,
            None => {
                return None;
            },
        };
        let f7 = match get_num(fs, 7) {
            Some(x) => x,
            None => {
                return None;
            },
        };
        let f8 = match get_num(fs, 8) {
            Some(x) => x,
            None => {
                return None;
            },
        };
        let f9 = match get_num(fs, 9) {
            Some(x) => x,
            None => {
                return None;
            },
        };
        let f10 = match get_num(fs, 10) {
            Some(x) => x,
            None => {
                return None;
            },
        };
        let f11 = match get_num(fs, 11) {
            Some(x) => x,
            None => {
                return None;
            },
        };
        let f12 = match get_bytes(fs, 12) {
            Some(b) => b,
            None => {
                return None;
            },
        };
        let f13 = match get_bytes(fs, 13) {
            Some(b) => b,
            None => {
                return None;
            },
        };
        let f14 = match get_bytes(fs, 14) {
            Some(b) => b,
            None => {
                return None;
            },
        };
        let a = Action::SwapClaim(
            SwapClaim {
                nullifier: f1,
                output_data: BatchSwapOutputData {
                    height: f2,
                    trading_pair: TradingPair { asset_1: f3, asset_2: f4 },
                    delta_1: f5,
                    delta_2: f6,
                    lambda_1: f7,
                    lambda_2: f8,
                    unfilled_1: f9,
                    unfilled_2: f10,
                },
                epoch_duration: f11,
                output_1_commitment: f12,
                output_2_commitment: f13,
                proof: f14,
            },
        );
        assert(action_fields(a) =~= fields_view(fs@));
        return Some(a);
    }
    if t == 4 {
        if fs.len() != 11 {
            return None;
        }
        let f1 = match get_num(fs, 1) {
            Some(x) => x,
            None => {
                return None;
            },
        };
        let f2 = match get_num(fs, 2) {
            Some(x) => match vote_from_code(x) {
                Some(v) => v,
                None => {
                    return None;
                },
            },
            None => {
                return None;
            },
        };
        let f3 = match get_num(fs, 3) {
            Some(x) => x,
            None => {
                return None;
            },
        };
        let f4 = match get_num(fs, 4) {
            Some(x) => x,
            None => {
                return None;
            },
        };
        let f5 = match get_num(fs, 5) {
            Some(x) => x,
            None => {
                return None;
            },
        };
        let f6 = match get_num(fs, 6) {
            Some(x) => x,
            None => {
                return None;
            },
        };
        let f7 = match get_bytes(fs, 7) {
            Some(b) => b,
            None => {
                return None;
            },
        };
        let f8 = match get_bytes(fs, 8) {
            Some(b) => b,
            None => {
                return None;
            },
        };
        let f9 = match get_bytes(fs, 9) {
            Some(b) => b,
            None => {
                return None;
            },
        };
        let f10 = match get_bytes(fs, 10) {
            Some(b) => b,
            None => {
                return None;
            },
        };
        let a = Action::DelegatorVote(
            DelegatorVote {
                proposal: f1,
                vote: f2,
                start_position: f3,
                delegation_asset: f4,
                value_amount: f5,
                unbonded_amount: f6,
                nullifier: f7,
                rk: f8,
                auth_sig: f9,
                proof: f10,
            },
        );
        assert(action_fields(a) =~= fields_view(fs@));
        return Some(a);
    }
    if t == 5 {
        if fs.len() != 9 {
            return None;
        }
        let f1 = match get_num(fs, 1) {
            Some(x) => x,
            None => {
                return None;
            },
        };
        let f2 = match get_num(fs, 2) {
            Some(x) => x,
            None => {
                return None;
            },
        };
        let f3 = match get_bytes(fs, 3) {
            Some(b) => b,
            None => {
                return None;
            },
        };
        let f4 = match get_bytes(fs, 4) {
            Some(b) => b,
            None => {
                return None;
            },
        };
        let f5 = match get_num(fs, 5) {
            Some(x) => x,
            None => {
                return None;
            },
        };
        let f6 = match get_num(fs, 6) {
            Some(x) => x,
            None => {
                return None;
            },
        };
        let f7 = match get_bytes(fs, 7) {
            Some(b) => b,
            None => {
                return None;
            },
        };
        let f8 = match get_num(fs, 8) {
            Some(x) => x,
            None => {
                return None;
            },
        };
        let a = Action::Ics20Withdrawal(
            Ics20Withdrawal {
                amount: f1,
                asset: f2,
                destination_chain_address: f3,
                return_address: f4,
                timeout_height: f5,
                timeout_time: f6,
                source_port: f7,
                source_channel: f8,
            },
        );
        assert(action_fields(a) =~= fields_view(fs@));
        return Some(a);
    }
    if t == 7 {
        if fs.len() != 5 {
            return None;
        }
        let f1 = match get_bytes(fs, 1) {
            Some(b) => b,
            None => {
                return None;
            },
        };
        let f2 = match get_num(fs, 2) {
            Some(x) => x,
            None => {
                return None;
            },
        };
        let f3 = match get_bytes(fs, 3) {
            Some(b) => b,
            None => {
                return None;
            },
        };
        let f4 = match get_num(fs, 4) {
            Some(x) => x,
            None => {
                return None;
            },
        };
        let a = Action::ChannelOpenConfirm(
            MsgChannelOpenConfirm {
                port_id_on_b: f1,
                chan_id_on_b: f2,
                proof_chan_end_on_a: f3,
                proof_height_on_a: f4,
            },
        );
        assert(action_fields(a) =~= fields_view(fs@));
        return Some(a);
    }
    if t == 8 {
        if fs.len() != 5 {
            return None;
        }
        let f1 = match get_num(fs, 1) {
            Some(x) => x,
            None => {
                return None;
            },
        };
        let h1 = match get_num(fs, 2) {
            Some(x) => x,
            None => {
                return None;
            },
        };
        let f1 = match client_from_fields(f1, h1) {
            Some(c) => c,
            None => {
                return None;
            },
        };
        let f3 = match get_num(fs, 3) {
            Some(x) => x,
            None => {
                return None;
            },
        };
        let h3 = match get_num(fs, 4) {
            Some(x) => x,
            None => {
                return None;
            },
        };
        let f3 = match client_from_fields(f3, h3) {
            Some(c) => c,
            None => {
                return None;
            },
        };
        let a = Action::CreateClient(MsgCreateClient { client_state: f1, consensus_state: f3 });
        assert(action_fields(a) =~= fields_view(fs@));
        return Some(a);
    }
    if t == 6 {
        if fs.len() < 5 {
            return None;
        }
        let f1 = match get_bytes(fs, 1) {
            Some(b) => b,
            None => {
                return None;
            },
        };
        let f2 = match get_bytes(fs, 2) {
            Some(b) => b,
            None => {
                return None;
            },
        };
        let f3 = match get_num(fs, 3) {
            Some(x) => match ordering_from_code(x) {
                Some(o) => o,
                None => {
                    return None;
                },
            },
            None => {
                return None;
            },
        };
        let f4 = match get_bytes(fs, 4) {
            Some(b) => b,
            None => {
                return None;
            },
        };
        let hops = match hops_from_fields(fs, 5) {
            Some(h) => h,
            None => {
                return None;
            },
        };
        let a = Action::ChannelOpenInit(
            MsgChannelOpenInit {
                port_id_on_a: f1,
                connection_hops_on_a: hops,
                port_id_on_b: f2,
                ordering: f3,
                version_proposal: f4,
            },
        );
        assert(action_fields(a) =~= fields_view(fs@));
        return Some(a);
    }
    None
}

/// The fields of every action have the shape of an action.
pub proof fn lemma_action_shape(a: Action)
    ensures
        action_shape_ok(action_fields(a)),
{
    match a {
        Action::Spend(_) => {},
        Action::Output(_) => {},
        Action::Swap(_) => {},
        Action::SwapClaim(_) => {},
        Action::DelegatorVote(_) => {},
        Action::Ics20Withdrawal(_) => {},
        Action::ChannelOpenConfirm(_) => {},
        Action::CreateClient(_) => {},
        Action::ChannelOpenInit(m) => {
            let h = hop_fields(m.connection_hops_on_a@);
            let fs = action_fields(a);
            assert(fs.subrange(5, fs.len() as int) =~= h);
        },
    }
}


/// Whether two actions are of the same kind and agree on every field, byte strings
/// compared by their bytes.
pub open spec fn same_action(a: Action, b: Action) -> bool {
    match (a, b) {
        (Action::Spend(x), Action::Spend(y)) => {
            x.body.balance_commitment@ == y.body.balance_commitment@ && x.body.nullifier@ == y.body.nullifier@
                && x.body.rk@ == y.body.rk@ && x.auth_sig@ == y.auth_sig@ && x.proof@ == y.proof@
        },
        (Action::Output(x), Action::Output(y)) => {
            x.body.note_commitment@ == y.body.note_commitment@
                && x.body.balance_commitment@ == y.body.balance_commitment@
                && x.body.wrapped_memo_key@ == y.body.wrapped_memo_key@
                && x.body.ovk_wrapped_key@ == y.body.ovk_wrapped_key@ && x.proof@ == y.proof@
        },
        (Action::Swap(x), Action::Swap(y)) => {
            x.trading_pair.asset_1 == y.trading_pair.asset_1
                && x.trading_pair.asset_2 == y.trading_pair.asset_2
                && x.swap_commitment@ == y.swap_commitment@ && x.proof@ == y.proof@
        },
        (Action::SwapClaim(x), Action::SwapClaim(y)) => {
            x.nullifier@ == y.nullifier@ && x.output_data.height == y.output_data.height
                && x.output_data.trading_pair.asset_1 == y.output_data.trading_pair.asset_1
                && x.output_data.trading_pair.asset_2 == y.output_data.trading_pair.asset_2
                && x.output_data.delta_1 == y.output_data.delta_1
                && x.output_data.delta_2 == y.output_data.delta_2
                && x.output_data.lambda_1 == y.output_data.lambda_1
                && x.output_data.lambda_2 == y.output_data.lambda_2
                && x.output_data.unfilled_1 == y.output_data.unfilled_1
                && x.output_data.unfilled_2 == y.output_data.unfilled_2
                && x.epoch_duration == y.epoch_duration && x.output_1_commitment@ == y.output_1_commitment@
                && x.output_2_commitment@ == y.output_2_commitment@ && x.proof@ == y.proof@
        },
        (Action::DelegatorVote(x), Action::DelegatorVote(y)) => {
            x.proposal == y.proposal && x.vote == y.vote && x.start_position == y.start_position
                && x.delegation_asset == y.delegation_asset && x.value_amount == y.value_amount
                && x.unbonded_amount == y.unbonded_amount && x.nullifier@ == y.nullifier@ && x.rk@ == y.rk@
                && x.auth_sig@ == y.auth_sig@ && x.proof@ == y.proof@
        },
        (Action::Ics20Withdrawal(x), Action::Ics20Withdrawal(y)) => {
            x.amount == y.amount && x.asset == y.asset
                && x.destination_chain_address@ == y.destination_chain_address@
                && x.return_address@ == y.return_address@ && x.timeout_height == y.timeout_height
                && x.timeout_time == y.timeout_time && x.source_port@ == y.source_port@
                && x.source_channel == y.source_channel
        },
        (Action::ChannelOpenConfirm(x), Action::ChannelOpenConfirm(y)) => {
            x.port_id_on_b@ == y.port_id_on_b@ && x.chan_id_on_b == y.chan_id_on_b
                && x.proof_chan_end_on_a@ == y.proof_chan_end_on_a@
                && x.proof_height_on_a == y.proof_height_on_a
        },
        (Action::CreateClient(x), Action::CreateClient(y)) => {
            x.client_state == y.client_state && x.consensus_state == y.consensus_state
        },
        (Action::ChannelOpenInit(x), Action::ChannelOpenInit(y)) => {
            x.port_id_on_a@ == y.port_id_on_a@ && x.port_id_on_b@ == y.port_id_on_b@
                && x.ordering == y.ordering && x.version_proposal@ == y.version_proposal@
                && x.connection_hops_on_a@ == y.connection_hops_on_a@
        },
        _ => false,
    }
}


/// Actions with the same fields are the same action: each field of an action
/// is one of its fields, so `action_fields` loses nothing.
pub proof fn lemma_action_fields_injective(a: Action, b: Action)
    requires
        action_fields(a) == action_fields(b),
    ensures
        same_action(a, b),
{
    let fa = action_fields(a);
    let fb = action_fields(b);
    assert(fa[0] == fb[0]);
    match (a, b) {
        (Action::ChannelOpenInit(x), Action::ChannelOpenInit(y)) => {
            let hx = hop_fields(x.connection_hops_on_a@);
            let hy = hop_fields(y.connection_hops_on_a@);
            assert(fa.subrange(5, fa.len() as int) =~= hx);
            assert(fb.subrange(5, fb.len() as int) =~= hy);
            assert(hx == hy);
            assert forall|i: int| 0 <= i < hx.len() implies x.connection_hops_on_a@[i] == y.connection_hops_on_a@[i] by {
                assert(hx[i] == hy[i]);
            }
            assert(x.connection_hops_on_a@ =~= y.connection_hops_on_a@);
            assert(fa[1] == fb[1] && fa[2] == fb[2] && fa[3] == fb[3] && fa[4] == fb[4]);
        },
        (Action::CreateClient(x), Action::CreateClient(y)) => {
            assert(fa[1] == fb[1] && fa[2] == fb[2] && fa[3] == fb[3] && fa[4] == fb[4]);
        },
        (Action::DelegatorVote(x), Action::DelegatorVote(y)) => {
            assert(fa[1] == fb[1] && fa[2] == fb[2] && fa[3] == fb[3] && fa[4] == fb[4] && fa[5] == fb[5]
                && fa[6] == fb[6] && fa[7] == fb[7] && fa[8] == fb[8] && fa[9] == fb[9] && fa[10] == fb[10]);
        },
        (Action::Spend(x), Action::Spend(y)) => {
            assert(fa[1] == fb[1] && fa[2] == fb[2] && fa[3] == fb[3] && fa[4] == fb[4] && fa[5] == fb[5]);
        },
        (Action::Output(x), Action::Output(y)) => {
            assert(fa[1] == fb[1] && fa[2] == fb[2] && fa[3] == fb[3] && fa[4] == fb[4] && fa[5] == fb[5]);
        },
        (Action::Swap(x), Action::Swap(y)) => {
            assert(fa[1] == fb[1] && fa[2] == fb[2] && fa[3] == fb[3] && fa[4] == fb[4]);
        },
        (Action::SwapClaim(x), Action::SwapClaim(y)) => {
            assert(fa[1] == fb[1] && fa[2] == fb[2] && fa[3] == fb[3] && fa[4] == fb[4] && fa[5] == fb[5]
                && fa[6] == fb[6] && fa[7] == fb[7] && fa[8] == fb[8] && fa[9] == fb[9] && fa[10] == fb[10]
                && fa[11] == fb[11] && fa[12] == fb[12] && fa[13] == fb[13] && fa[14] == fb[14]);
        },
        (Action::Ics20Withdrawal(x), Action::Ics20Withdrawal(y)) => {
            assert(fa[1] == fb[1] && fa[2] == fb[2] && fa[3] == fb[3] && fa[4] == fb[4] && fa[5] == fb[5]
                && fa[6] == fb[6] && fa[7] == fb[7] && fa[8] == fb[8]);
        },
        (Action::ChannelOpenConfirm(x), Action::ChannelOpenConfirm(y)) => {
            assert(fa[1] == fb[1] && fa[2] == fb[2] && fa[3] == fb[3] && fa[4] == fb[4]);
        },
        _ => {},
    }
}

/// An action whose byte strings all fit the encoding.
pub open spec fn action_fits(a: Action) -> bool {
    forall|i: int| 0 <= i < action_fields(a).len() ==> field_ok(#[trigger] action_fields(a)[i])
}

/// The bytes of an action.
pub open spec fn action_bytes(a: Action) -> Seq<u8> {
    enc_fields(action_fields(a))
}

/// Round trip of actions, for every kind: the bytes of an action decode to
/// the fields of that action, which have the shape of an action, so that
/// [`decode_action`] rebuilds an action with the same fields.
pub proof fn lemma_action_round_trip(a: Action)
    requires
        action_fits(a),
    ensures
        dec_fields(action_bytes(a)) == Some(action_fields(a)),
        action_shape_ok(action_fields(a)),
{
    lemma_fields_round_trip(action_fields(a));
    lemma_action_shape(a);
}

/// The bytes of an action.
pub fn encode_action(a: &Action) -> (r: Vec<u8>)
    ensures
        r@ == action_bytes(*a),
{
    encode_fields(&action_to_fields(a))
}

/// The action that `buf` encodes.
pub fn decode_action(buf: &Vec<u8>) -> (r: Option<Action>)
    ensures
        r matches Some(a) ==> dec_fields(buf@) == Some(action_fields(a)),
        (dec_fields(buf@) matches Some(fs) && action_shape_ok(fs)) ==> r is Some,
{
    match decode_fields(buf) {
        None => None,
        Some(fs) => action_from_fields(&fs),
    }
}

/// The memo of a transaction as a kind code (0: none, 1: no ciphertext,
/// 2: a ciphertext) and its bytes.
pub open spec fn memo_fields(m: Option<MemoData>) -> Seq<FieldView> {
    match m {
        None => seq![FieldView::Num(0), FieldView::Bytes(Seq::empty())],
        Some(d) => match d.encrypted_memo {
            None => seq![FieldView::Num(1), FieldView::Bytes(Seq::empty())],
            Some(b) => seq![FieldView::Num(2), FieldView::Bytes(b@)],
        },
    }
}

/// The detection data of a transaction as a presence code and one byte per
/// clue precision.
pub open spec fn detection_fields(d: Option<DetectionData>) -> Seq<FieldView> {
    match d {
        None => seq![FieldView::Num(0), FieldView::Bytes(Seq::empty())],
        Some(d) => seq![FieldView::Num(1), FieldView::Bytes(d.fmd_clues@.map_values(|c: Clue| c.precision_bits))],
    }
}

/// The fields of a transaction: binding signature, anchor, expiry height,
/// chain id, fee, memo, detection data, then one field per action holding
/// the action's bytes.
pub open spec fn tx_fields(tx: Transaction) -> Seq<FieldView> {
    seq![
        FieldView::Bytes(tx.binding_sig@),
        FieldView::Bytes(tx.anchor@),
        FieldView::Num(tx.body.transaction_parameters.expiry_height),
        FieldView::Bytes(tx.body.transaction_parameters.chain_id@),
        FieldView::Num(tx.body.fee),
    ] + memo_fields(tx.body.memo_data) + detection_fields(tx.body.detection_data) + tx.body.actions@.map_values(
        |a: Action| FieldView::Bytes(action_bytes(a)),
    )
}

/// Whether a field holds the bytes of an action.
pub open spec fn is_action_field(f: FieldView) -> bool {
    f is Bytes && (dec_fields(f->Bytes_0) matches Some(fs) && action_shape_ok(fs))
}

/// Whether `fs` has the shape of the fields of a transaction.
pub open spec fn tx_shape_ok(fs: Seq<FieldView>) -> bool {
    &&& fs.len() >= 9
    &&& fs[0] is Bytes && fs[1] is Bytes && fs[2] is Num && fs[3] is Bytes && fs[4] is Num
    &&& fs[5] is Num && fs[6] is Bytes && (fs[5]->Num_0 == 2 || (fs[5]->Num_0 <= 1 && fs[6]->Bytes_0.len() == 0))
    &&& fs[7] is Num && fs[8] is Bytes && (fs[7]->Num_0 == 1 || (fs[7]->Num_0 == 0 && fs[8]->Bytes_0.len() == 0))
    &&& forall|i: int| 9 <= i < fs.len() ==> is_action_field(#[trigger] fs[i])
}

/// A transaction whose byte strings, its actions' included, all fit the
/// encoding.
pub open spec fn tx_fits(tx: Transaction) -> bool {
    &&& forall|i: int| 0 <= i < tx_fields(tx).len() ==> field_ok(#[trigger] tx_fields(tx)[i])
    &&& forall|i: int| 0 <= i < tx.body.actions@.len() ==> action_fits(#[trigger] tx.body.actions@[i])
}

/// The bytes of a transaction.
pub open spec fn tx_bytes(tx: Transaction) -> Seq<u8> {
    enc_fields(tx_fields(tx))
}

/// Round trip of transactions: the bytes of a transaction decode to its
/// fields, which have the shape of a transaction, so that
/// [`decode_transaction`] rebuilds a transaction with the same fields, its
/// actions' fields included.
pub proof fn lemma_transaction_round_trip(tx: Transaction)
    requires
        tx_fits(tx),
    ensures
        dec_fields(tx_bytes(tx)) == Some(tx_fields(tx)),
        tx_shape_ok(tx_fields(tx)),
{
    lemma_fields_round_trip(tx_fields(tx));
    lemma_tx_header_shape(tx);
    lemma_tx_action_fields(tx);
}

/// The fixed fields of a transaction have the shape that decoding expects.
proof fn lemma_tx_header_shape(tx: Transaction)
    ensures
        tx_fields(tx).len() >= 9,
        tx_fields(tx)[0] is Bytes && tx_fields(tx)[1] is Bytes && tx_fields(tx)[2] is Num && tx_fields(tx)[3] is Bytes
            && tx_fields(tx)[4] is Num,
        tx_fields(tx)[5] is Num && tx_fields(tx)[6] is Bytes && (tx_fields(tx)[5]->Num_0 == 2 || (tx_fields(
            tx,
        )[5]->Num_0 <= 1 && tx_fields(tx)[6]->Bytes_0.len() == 0)),
        tx_fields(tx)[7] is Num && tx_fields(tx)[8] is Bytes && (tx_fields(tx)[7]->Num_0 == 1 || (tx_fields(
            tx,
        )[7]->Num_0 == 0 && tx_fields(tx)[8]->Bytes_0.len() == 0)),
{
    let fs = tx_fields(tx);
    let m = memo_fields(tx.body.memo_data);
    let d = detection_fields(tx.body.detection_data);
    assert(fs[5] == m[0] && fs[6] == m[1] && fs[7] == d[0] && fs[8] == d[1]);
}

/// Every field after the fixed ones holds the bytes of an action.
proof fn lemma_tx_action_fields(tx: Transaction)
    requires
        tx_fits(tx),
    ensures
        forall|i: int| 9 <= i < tx_fields(tx).len() ==> is_action_field(#[trigger] tx_fields(tx)[i]),
{
    let fs = tx_fields(tx);
    let acts = tx.body.actions@;
    assert forall|i: int| 9 <= i < fs.len() implies is_action_field(#[trigger] fs[i]) by {
        assert(fs[i] == FieldView::Bytes(action_bytes(acts[i - 9])));
        assert(action_fits(acts[i - 9]));
        lemma_action_round_trip(acts[i - 9]);
    }
}


/// The bytes of a number read from eight bytes are those eight bytes.
pub proof fn lemma_le_bytes(b0: u8, b1: u8, b2: u8, b3: u8, b4: u8, b5: u8, b6: u8, b7: u8)
    ensures
        u64_le(le_u64(b0, b1, b2, b3, b4, b5, b6, b7)) == seq![b0, b1, b2, b3, b4, b5, b6, b7],
{
    let x = le_u64(b0, b1, b2, b3, b4, b5, b6, b7);
    assert(x as u8 == b0 && (x >> 8u64) as u8 == b1 && (x >> 16u64) as u8 == b2 && (x >> 24u64) as u8 == b3
        && (x >> 32u64) as u8 == b4 && (x >> 40u64) as u8 == b5 && (x >> 48u64) as u8 == b6 && (x >> 56u64) as u8
        == b7) by (bit_vector)
        requires
            x == (b0 as u64) | ((b1 as u64) << 8u64) | ((b2 as u64) << 16u64) | ((b3 as u64) << 24u64) | ((b4 as u64)
                << 32u64) | ((b5 as u64) << 40u64) | ((b6 as u64) << 48u64) | ((b7 as u64) << 56u64),
    ;
    assert(u64_le(x) =~= seq![b0, b1, b2, b3, b4, b5, b6, b7]);
}

/// Decoding one field is exact: the field decoded from the front of `b`
/// encodes back to the bytes it took.
pub proof fn lemma_dec_field_enc(b: Seq<u8>)
    requires
        dec_field(b) is Some,
    ensures
        enc_field(dec_field(b)->Some_0.0) == b.subrange(0, dec_field(b)->Some_0.1 as int),
{
    let (f, n) = dec_field(b)->Some_0;
    lemma_le_bytes(b[1], b[2], b[3], b[4], b[5], b[6], b[7], b[8]);
    let x = le_u64(b[1], b[2], b[3], b[4], b[5], b[6], b[7], b[8]);
    assert(seq![b[1], b[2], b[3], b[4], b[5], b[6], b[7], b[8]] =~= b.subrange(1, 9));
    if b[0] == 0 {
        assert(enc_field(f) =~= b.subrange(0, 9));
    } else {
        assert(b.subrange(9, 9 + x) =~= f->Bytes_0);
        assert(enc_field(f) =~= b.subrange(0, n as int));
    }
}

/// Decoding is exact: fields decoded from `b` encode back to `b`.
#[verifier::spinoff_prover]
pub proof fn lemma_dec_enc(b: Seq<u8>)
    requires
        dec_fields(b) is Some,
    ensures
        enc_fields(dec_fields(b)->Some_0) == b,
    decreases b.len(),
{
    if b.len() > 0 {
        let (f, n) = dec_field(b)->Some_0;
        lemma_dec_field_enc(b);
        let rest = b.subrange(n as int, b.len() as int);
        lemma_dec_enc(rest);
        let fs = dec_fields(b)->Some_0;
        assert(fs[0] == f);
        assert(fs.drop_first() =~= dec_fields(rest)->Some_0);
        assert(b =~= b.subrange(0, n as int) + rest);
    } else {
        assert(dec_fields(b)->Some_0 =~= Seq::<FieldView>::empty());
    }
}


/// The bytes of a transaction.
pub fn encode_transaction(tx: &Transaction) -> (r: Vec<u8>)
    ensures
        r@ == tx_bytes(*tx),
{
    let body = &tx.body;
    let mut fs: Vec<Field> = vec![
        Field::Bytes(copy_bytes(&tx.binding_sig)),
        Field::Bytes(copy_bytes(&tx.anchor)),
        Field::Num(body.transaction_parameters.expiry_height),
        Field::Bytes(copy_bytes(&body.transaction_parameters.chain_id)),
        Field::Num(body.fee),
    ];
    match &body.memo_data {
        None => {
            fs.push(Field::Num(0));
            fs.push(Field::Bytes(Vec::new()));
        },
        Some(d) => match &d.encrypted_memo {
            None => {
                fs.push(Field::Num(1));
                fs.push(Field::Bytes(Vec::new()));
            },
            Some(b) => {
                fs.push(Field::Num(2));
                fs.push(Field::Bytes(copy_bytes(b)));
            },
        },
    }
    match &body.detection_data {
        None => {
            fs.push(Field::Num(0));
            fs.push(Field::Bytes(Vec::new()));
        },
        Some(d) => {
            let mut clues: Vec<u8> = Vec::new();
            let mut i: usize = 0;
            while i < d.fmd_clues.len()
                invariant
                    0 <= i <= d.fmd_clues@.len(),
                    clues@ =~= d.fmd_clues@.map_values(|c: Clue| c.precision_bits).subrange(0, i as int),
                decreases d.fmd_clues@.len() - i,
            {
                clues.push(d.fmd_clues[i].precision_bits);
                i = i + 1;
            }
            assert(d.fmd_clues@.map_values(|c: Clue| c.precision_bits).subrange(0, d.fmd_clues@.len() as int)
                =~= d.fmd_clues@.map_values(|c: Clue| c.precision_bits));
            fs.push(Field::Num(1));
            fs.push(Field::Bytes(clues));
        },
    }
    let ghost head = fields_view(fs@);
    let acts = &body.actions;
    let mut k: usize = 0;
    while k < acts.len()
        invariant
            acts@ == tx.body.actions@,
            0 <= k <= acts@.len(),
            fields_view(fs@) =~= head + acts@.subrange(0, k as int).map_values(
                |a: Action| FieldView::Bytes(action_bytes(a)),
            ),
        decreases acts@.len() - k,
    {
        let ghost before = fs@;
        fs.push(Field::Bytes(encode_action(&acts[k])));
        assert(fields_view(fs@) =~= fields_view(before).push(FieldView::Bytes(action_bytes(acts@[k as int]))));
        let ghost as_field = |a: Action| FieldView::Bytes(action_bytes(a));
        assert(acts@.subrange(0, k + 1).map_values(as_field) =~= acts@.subrange(0, k as int).map_values(as_field).push(
            FieldView::Bytes(action_bytes(acts@[k as int])),
        ));
        k = k + 1;
    }
    assert(acts@.subrange(0, acts@.len() as int) =~= acts@);
    assert(fields_view(fs@) =~= tx_fields(*tx));
    encode_fields(&fs)
}

/// The transaction that `buf` encodes.
pub fn decode_transaction(buf: &Vec<u8>) -> (r: Option<Transaction>)
    ensures
        r matches Some(t) ==> dec_fields(buf@) == Some(tx_fields(t)),
        (dec_fields(buf@) matches Some(fs) && tx_shape_ok(fs)) ==> r is Some,
{
    let fs = match decode_fields(buf) {
        None => {
            return None;
        },
        Some(fs) => fs,
    };
    let ghost v = fields_view(fs@);
    if fs.len() < 9 {
        return None;
    }
    let binding_sig = match get_bytes(&fs, 0) {
        Some(b) => b,
        None => {
            return None;
        },
    };
    let anchor = match get_bytes(&fs, 1) {
        Some(b) => b,
        None => {
            return None;
        },
    };
    let expiry_height = match get_num(&fs, 2) {
        Some(x) => x,
        None => {
            return None;
        },
    };
    let chain_id = match get_bytes(&fs, 3) {
        Some(b) => b,
        None => {
            return None;
        },
    };
    let fee = match get_num(&fs, 4) {
        Some(x) => x,
        None => {
            return None;
        },
    };
    let memo_kind = match get_num(&fs, 5) {
        Some(x) => x,
        None => {
            return None;
        },
    };
    let memo_bytes = match get_bytes(&fs, 6) {
        Some(b) => b,
        None => {
            return None;
        },
    };
    let memo_data = if memo_kind == 2 {
        Some(MemoData { encrypted_memo: Some(memo_bytes) })
    } else if memo_kind == 1 && memo_bytes.len() == 0 {
        assert(memo_bytes@ =~= Seq::<u8>::empty());
        Some(MemoData { encrypted_memo: None })
    } else if memo_kind == 0 && memo_bytes.len() == 0 {
        assert(memo_bytes@ =~= Seq::<u8>::empty());
        None
    } else {
        return None;
    };
    assert(memo_fields(memo_data) =~= v.subrange(5, 7));
    let detection_kind = match get_num(&fs, 7) {
        Some(x) => x,
        None => {
            return None;
        },
    };
    let clue_bytes = match get_bytes(&fs, 8) {
        Some(b) => b,
        None => {
            return None;
        },
    };
    let detection_data = if detection_kind == 1 {
        let mut clues: Vec<Clue> = Vec::new();
        let mut i: usize = 0;
        while i < clue_bytes.len()
            invariant
                0 <= i <= clue_bytes@.len(),
                clues@.map_values(|c: Clue| c.precision_bits) =~= clue_bytes@.subrange(0, i as int),
                v == fields_view(fs@),
                dec_fields(buf@) == Some(v),
                fs@.len() >= 9,
                memo_fields(memo_data) == v.subrange(5, 7),
                v[7] == FieldView::Num(detection_kind) && v[8] == FieldView::Bytes(clue_bytes@),
                v[0] == FieldView::Bytes(binding_sig@) && v[1] == FieldView::Bytes(anchor@) && v[2]
                    == FieldView::Num(expiry_height) && v[3] == FieldView::Bytes(chain_id@) && v[4]
                    == FieldView::Num(fee),
            decreases clue_bytes@.len() - i,
        {
            let ghost before = clues@;
            clues.push(Clue { precision_bits: clue_bytes[i] });
            assert(clues@.map_values(|c: Clue| c.precision_bits) =~= before.map_values(|c: Clue| c.precision_bits).push(
                clue_bytes@[i as int],
            ));
            i = i + 1;
        }
        assert(clue_bytes@.subrange(0, clue_bytes@.len() as int) =~= clue_bytes@);
        Some(DetectionData { fmd_clues: clues })
    } else if detection_kind == 0 && clue_bytes.len() == 0 {
        assert(clue_bytes@ =~= Seq::<u8>::empty());
        None
    } else {
        return None;
    };
    assert(detection_fields(detection_data) =~= v.subrange(7, 9));
    let mut actions: Vec<Action> = Vec::new();
    let mut k: usize = 9;
    while k < fs.len()
        invariant
            v == fields_view(fs@),
            dec_fields(buf@) == Some(v),
            9 <= k <= fs@.len(),
            actions@.map_values(|a: Action| FieldView::Bytes(action_bytes(a))) =~= v.subrange(9, k as int),
            tx_shape_ok(v) ==> forall|i: int| 9 <= i < v.len() ==> is_action_field(#[trigger] v[i]),
            memo_fields(memo_data) == v.subrange(5, 7),
            detection_fields(detection_data) == v.subrange(7, 9),
            v[0] == FieldView::Bytes(binding_sig@) && v[1] == FieldView::Bytes(anchor@) && v[2] == FieldView::Num(
                expiry_height,
            ) && v[3] == FieldView::Bytes(chain_id@) && v[4] == FieldView::Num(fee),
        decreases fs@.len() - k,
    {
        let b = match get_bytes(&fs, k) {
            Some(b) => b,
            None => {
                proof {
                    if tx_shape_ok(v) {
                        assert(is_action_field(v[k as int]));
                    }
                }
                return None;
            },
        };
        let a = match decode_action(&b) {
            Some(a) => a,
            None => {
                proof {
                    if tx_shape_ok(v) {
                        assert(is_action_field(v[k as int]));
                    }
                }
                return None;
            },
        };
        proof {
            lemma_dec_enc(b@);
        }
        let ghost before = actions@;
        actions.push(a);
        assert(actions@.map_values(|a: Action| FieldView::Bytes(action_bytes(a))) =~= before.map_values(
            |a: Action| FieldView::Bytes(action_bytes(a)),
        ).push(FieldView::Bytes(b@)));
        assert(v.subrange(9, k + 1) =~= v.subrange(9, k as int).push(v[k as int]));
        k = k + 1;
    }
    let t = Transaction {
        body: TransactionBody {
            actions,
            transaction_parameters: TransactionParameters { expiry_height, chain_id },
            fee,
            detection_data,
            memo_data,
        },
        binding_sig,
        anchor,
    };
    assert(memo_fields(t.body.memo_data) =~= v.subrange(5, 7));
    assert(detection_fields(t.body.detection_data) =~= v.subrange(7, 9));
    assert(t.body.actions@.map_values(|a: Action| FieldView::Bytes(action_bytes(a))) =~= v.subrange(9, v.len() as int));
    assert(v.subrange(0, 5) =~= seq![
        FieldView::Bytes(t.binding_sig@),
        FieldView::Bytes(t.anchor@),
        FieldView::Num(t.body.transaction_parameters.expiry_height),
        FieldView::Bytes(t.body.transaction_parameters.chain_id@),
        FieldView::Num(t.body.fee),
    ]);
    assert(v =~= v.subrange(0, 5) + v.subrange(5, 7) + v.subrange(7, 9) + v.subrange(9, v.len() as int));
    assert(tx_fields(t) =~= v);
    Some(t)
}

} // verus!

verus! {

/// Whether two transactions agree on every part: signature, anchor,
/// parameters, fee, memo and detection data by their bytes, and action by
/// action.
pub open spec fn same_transaction(t: Transaction, x: Transaction) -> bool {
    &&& t.binding_sig@ == x.binding_sig@
    &&& t.anchor@ == x.anchor@
    &&& t.body.transaction_parameters.expiry_height == x.body.transaction_parameters.expiry_height
    &&& t.body.transaction_parameters.chain_id@ == x.body.transaction_parameters.chain_id@
    &&& t.body.fee == x.body.fee
    &&& memo_fields(t.body.memo_data) == memo_fields(x.body.memo_data)
    &&& detection_fields(t.body.detection_data) == detection_fields(x.body.detection_data)
    &&& t.body.actions@.len() == x.body.actions@.len()
    &&& forall|i: int|
        0 <= i < t.body.actions@.len() ==> same_action(#[trigger] t.body.actions@[i], x.body.actions@[i])
}

/// Transactions with the same fields are the same transaction, where their
/// byte strings fit the encoding: with [`lemma_transaction_round_trip`],
/// decoding the bytes of a transaction gives that transaction back.
pub proof fn lemma_tx_fields_injective(t: Transaction, x: Transaction)
    requires
        tx_fits(t),
        tx_fits(x),
        tx_fields(t) == tx_fields(x),
    ensures
        same_transaction(t, x),
{
    let ft = tx_fields(t);
    let fx = tx_fields(x);
    let ht = seq![
        FieldView::Bytes(t.binding_sig@),
        FieldView::Bytes(t.anchor@),
        FieldView::Num(t.body.transaction_parameters.expiry_height),
        FieldView::Bytes(t.body.transaction_parameters.chain_id@),
        FieldView::Num(t.body.fee),
    ];
    let hx = seq![
        FieldView::Bytes(x.binding_sig@),
        FieldView::Bytes(x.anchor@),
        FieldView::Num(x.body.transaction_parameters.expiry_height),
        FieldView::Bytes(x.body.transaction_parameters.chain_id@),
        FieldView::Num(x.body.fee),
    ];
    assert(ft.subrange(0, 5) =~= ht);
    assert(fx.subrange(0, 5) =~= hx);
    assert(ht[0] == hx[0] && ht[1] == hx[1] && ht[2] == hx[2] && ht[3] == hx[3] && ht[4] == hx[4]);
    assert(ft.len() == 9 + t.body.actions@.len());
    assert(fx.len() == 9 + x.body.actions@.len());
    assert(memo_fields(t.body.memo_data) == ft.subrange(5, 7));
    assert(ft.subrange(5, 7) =~= memo_fields(t.body.memo_data));
    assert(fx.subrange(5, 7) =~= memo_fields(x.body.memo_data));
    assert(ft.subrange(7, 9) =~= detection_fields(t.body.detection_data));
    assert(fx.subrange(7, 9) =~= detection_fields(x.body.detection_data));
    assert forall|i: int| 0 <= i < t.body.actions@.len() implies same_action(
        #[trigger] t.body.actions@[i],
        x.body.actions@[i],
    ) by {
        let a = t.body.actions@[i];
        let b = x.body.actions@[i];
        assert(ft[9 + i] == FieldView::Bytes(action_bytes(a)));
        assert(fx[9 + i] == FieldView::Bytes(action_bytes(b)));
        lemma_action_round_trip(a);
        lemma_action_round_trip(b);
        lemma_action_fields_injective(a, b);
    }
}

} // verus!
