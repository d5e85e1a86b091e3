use vstd::prelude::*;
use crate::log::{bytes_eq, copy_bytes};

verus! {

/// The ASCII bytes of the one port this chain serves, "transfer".
pub open spec fn transfer_port() -> Seq<u8> {
    seq![116u8, 114u8, 97u8, 110u8, 115u8, 102u8, 101u8, 114u8]
}

/// Whether `port` is the "transfer" port.
pub fn is_transfer_port(port: &Vec<u8>) -> (r: bool)
    ensures
        r == (port@ == transfer_port()),
{
    let t: Vec<u8> = vec![116u8, 114u8, 97u8, 110u8, 115u8, 102u8, 101u8, 114u8];
    assert(t@ =~= transfer_port());
    bytes_eq(port, &t)
}

/// The handshake state of a channel end.
#[derive(Clone, Copy, Debug, PartialEq, Eq, Structural)]
pub enum ChannelState {
    Init,
    TryOpen,
    Open,
    Closed,
}

/// The handshake state of a connection end.
#[derive(Clone, Copy, Debug, PartialEq, Eq, Structural)]
pub enum ConnectionState {
    Init,
    TryOpen,
    Open,
}

/// Packet ordering of a channel.
#[derive(Clone, Copy, Debug, PartialEq, Eq, Structural)]
pub enum Ordering {
    Unordered,
    Ordered,
}

/// A channel end as this chain stores it.
pub struct ChannelEnd {
    pub state: ChannelState,
    pub ordering: Ordering,
    pub counterparty_port: Vec<u8>,
    pub counterparty_channel: Option<u64>,
    pub connection_hops: Vec<u64>,
    pub version: Vec<u8>,
}

/// A channel end as plain values.
pub struct ChannelEndView {
    pub state: ChannelState,
    pub ordering: Ordering,
    pub counterparty_port: Seq<u8>,
    pub counterparty_channel: Option<u64>,
    pub connection_hops: Seq<u64>,
    pub version: Seq<u8>,
}

impl View for ChannelEnd {
    type V = ChannelEndView;

    open spec fn view(&self) -> ChannelEndView {
        ChannelEndView {
            state: self.state,
            ordering: self.ordering,
            counterparty_port: self.counterparty_port@,
            counterparty_channel: self.counterparty_channel,
            connection_hops: self.connection_hops@,
            version: self.version@,
        }
    }
}

/// A stored channel: its identifier number, its port, its end and its
/// next packet sequence numbers.
pub struct ChannelRecord {
    pub channel_id: u64,
    pub port: Vec<u8>,
    pub end: ChannelEnd,
    pub next_send: u64,
    pub next_recv: u64,
    pub next_ack: u64,
}

/// A stored channel as plain values.
pub struct ChannelRecordView {
    pub channel_id: u64,
    pub port: Seq<u8>,
    pub end: ChannelEndView,
    pub next_send: u64,
    pub next_recv: u64,
    pub next_ack: u64,
}

impl View for ChannelRecord {
    type V = ChannelRecordView;

    open spec fn view(&self) -> ChannelRecordView {
        ChannelRecordView {
            channel_id: self.channel_id,
            port: self.port@,
            end: self.end@,
            next_send: self.next_send,
            next_recv: self.next_recv,
            next_ack: self.next_ack,
        }
    }
}

/// A stored connection end.
#[derive(Clone, Copy, Debug, PartialEq, Eq, Structural)]
pub struct Connection {
    pub connection_id: u64,
    pub state: ConnectionState,
    pub counterparty_connection: Option<u64>,
}

/// A stored light client: its number and the latest height it verified.
#[derive(Clone, Copy, Debug, PartialEq, Eq, Structural)]
pub struct Client {
    pub client_id: u64,
    pub latest_height: u64,
}

/// A verified consensus state of a client, stored at a height.
#[derive(Clone, Copy, Debug, PartialEq, Eq, Structural)]
pub struct ConsensusRecord {
    pub client_id: u64,
    pub height: u64,
}

/// The IBC part of the chain state. Channels are kept as a log of puts: the
/// latest record of a channel is its current state.
pub struct IbcState {
    pub channels: Vec<ChannelRecord>,
    pub connections: Vec<Connection>,
    pub clients: Vec<Client>,
    pub consensus_states: Vec<ConsensusRecord>,
    pub channel_counter: u64,
    pub client_counter: u64,
}

/// The IBC state as plain values.
pub struct IbcView {
    pub channels: Seq<ChannelRecordView>,
    pub connections: Seq<Connection>,
    pub clients: Seq<Client>,
    pub consensus_states: Seq<ConsensusRecord>,
    pub channel_counter: u64,
    pub client_counter: u64,
}

impl View for IbcState {
    type V = IbcView;

    open spec fn view(&self) -> IbcView {
        IbcView {
            channels: self.channels@.map_values(|c: ChannelRecord| c@),
            connections: self.connections@,
            clients: self.clients@,
            consensus_states: self.consensus_states@,
            channel_counter: self.channel_counter,
            client_counter: self.client_counter,
        }
    }
}

/// The first stored connection with identifier `id`.
pub open spec fn connection_at(cs: Seq<Connection>, id: u64) -> Option<Connection>
    decreases cs.len(),
{
    if cs.len() == 0 {
        None
    } else if connection_at(cs.drop_last(), id) is Some {
        connection_at(cs.drop_last(), id)
    } else if cs.last().connection_id == id {
        Some(cs.last())
    } else {
        None
    }
}

/// Why an IBC message was refused.
#[derive(Clone, Copy, Debug, PartialEq, Eq, Structural)]
pub enum IbcError {
    /// A channel must have exactly one connection hop.
    ConnectionHops,
    ChannelNotFound,
    ChannelExists,
    ChannelWrongState,
    ConnectionNotFound,
    ConnectionNotOpen,
    MissingCounterpartyConnection,
    MissingCounterpartyChannel,
    /// The counterparty's state could not be proven.
    ProofFailed,
    InvalidPort,
    /// A client or consensus state that is not a Tendermint one.
    NotTendermint,
}

/// The latest record of channel `id` on `port`.
pub open spec fn record_at(chs: Seq<ChannelRecordView>, id: u64, port: Seq<u8>) -> Option<ChannelRecordView>
    decreases chs.len(),
{
    if chs.len() == 0 {
        None
    } else if chs.last().channel_id == id && chs.last().port == port {
        Some(chs.last())
    } else {
        record_at(chs.drop_last(), id, port)
    }
}

/// The latest record of channel `id` on `port`, copied out.
pub fn get_channel(st: &IbcState, id: u64, port: &Vec<u8>) -> (r: Option<ChannelRecord>)
    ensures
        match r {
            Some(c) => record_at(st@.channels, id, port@) == Some(c@),
            None => record_at(st@.channels, id, port@) is None,
        },
{
    let mut i: usize = st.channels.len();
    assert(st@.channels.subrange(0, i as int) =~= st@.channels);
    while i > 0
        invariant
            0 <= i <= st.channels@.len(),
            record_at(st@.channels, id, port@) == record_at(st@.channels.subrange(0, i as int), id, port@),
        decreases i,
    {
        assert(st@.channels.subrange(0, i as int).drop_last() =~= st@.channels.subrange(0, i - 1));
        let c = &st.channels[i - 1];
        if c.channel_id == id && bytes_eq(&c.port, port) {
            return Some(
                ChannelRecord {
                    channel_id: c.channel_id,
                    port: copy_bytes(&c.port),
                    end: copy_end(&c.end),
                    next_send: c.next_send,
                    next_recv: c.next_recv,
                    next_ack: c.next_ack,
                },
            );
        }
        i = i - 1;
    }
    None
}

/// A copy of a channel end.
pub fn copy_end(e: &ChannelEnd) -> (r: ChannelEnd)
    ensures
        r@ == e@,
{
    let mut hops: Vec<u64> = Vec::new();
    let mut i: usize = 0;
    while i < e.connection_hops.len()
        invariant
            0 <= i <= e.connection_hops@.len(),
            hops@ =~= e.connection_hops@.subrange(0, i as int),
        decreases e.connection_hops@.len() - i,
    {
        hops.push(e.connection_hops[i]);
        i = i + 1;
    }
    assert(e.connection_hops@.subrange(0, e.connection_hops@.len() as int) =~= e.connection_hops@);
    ChannelEnd {
        state: e.state,
        ordering: e.ordering,
        counterparty_port: copy_bytes(&e.counterparty_port),
        counterparty_channel: e.counterparty_channel,
        connection_hops: hops,
        version: copy_bytes(&e.version),
    }
}

/// The first stored connection with identifier `id`.
pub fn get_connection(st: &IbcState, id: u64) -> (r: Option<Connection>)
    ensures
        r == connection_at(st@.connections, id),
{
    let mut i: usize = 0;
    while i < st.connections.len()
        invariant
            0 <= i <= st.connections@.len(),
            connection_at(st.connections@.subrange(0, i as int), id) is None,
        decreases st.connections@.len() - i,
    {
        let ghost p = st.connections@.subrange(0, i + 1);
        assert(p.drop_last() =~= st.connections@.subrange(0, i as int));
        if st.connections[i].connection_id == id {
            proof { lemma_connection_prefix(st.connections@, i + 1, id); }
            return Some(st.connections[i]);
        }
        i = i + 1;
    }
    assert(st.connections@.subrange(0, st.connections@.len() as int) =~= st.connections@);
    None
}

/// A connection found in a prefix is the one found in the whole list.
pub proof fn lemma_connection_prefix(cs: Seq<Connection>, n: int, id: u64)
    requires
        0 <= n <= cs.len(),
        connection_at(cs.subrange(0, n), id) is Some,
    ensures
        connection_at(cs, id) == connection_at(cs.subrange(0, n), id),
    decreases cs.len() - n,
{
    if n < cs.len() {
        assert(cs.subrange(0, n + 1).drop_last() =~= cs.subrange(0, n));
        lemma_connection_prefix(cs, n + 1, id);
    } else {
        assert(cs.subrange(0, n) =~= cs);
    }
}


/// A request to open a channel end on this chain.
pub struct MsgChannelOpenInit {
    pub port_id_on_a: Vec<u8>,
    pub connection_hops_on_a: Vec<u64>,
    pub port_id_on_b: Vec<u8>,
    pub ordering: Ordering,
    pub version_proposal: Vec<u8>,
}

/// A request to confirm a channel end that is in `TryOpen`.
pub struct MsgChannelOpenConfirm {
    pub port_id_on_b: Vec<u8>,
    pub chan_id_on_b: u64,
    pub proof_chan_end_on_a: Vec<u8>,
    pub proof_height_on_a: u64,
}

/// The decoded kind of a light-client state carried in a message.
#[derive(Clone, Copy, Debug, PartialEq, Eq, Structural)]
pub enum LightClientState {
    /// A Tendermint client or consensus state, at the given height.
    Tendermint { height: u64 },
    /// Any other kind.
    Other,
}

/// A request to create a light client.
#[derive(Clone, Copy, Debug, PartialEq, Eq, Structural)]
pub struct MsgCreateClient {
    pub client_state: LightClientState,
    pub consensus_state: LightClientState,
}

/// Stateless check of a channel-open-init: exactly one connection hop.
pub fn channel_open_init_check_stateless(msg: &MsgChannelOpenInit) -> (r: Result<(), IbcError>)
    ensures
        r is Ok <==> msg.connection_hops_on_a@.len() == 1,
        r is Err ==> r == Err::<(), IbcError>(IbcError::ConnectionHops),
{
    if msg.connection_hops_on_a.len() != 1 {
        return Err(IbcError::ConnectionHops);
    }
    Ok(())
}

/// What a channel-open-init on `st` returns: the new channel's number, or
/// the first check that fails.
pub open spec fn open_init_outcome(st: IbcView, msg: MsgChannelOpenInit) -> Result<u64, IbcError> {
    if record_at(st.channels, st.channel_counter, msg.port_id_on_a@) is Some {
        Err(IbcError::ChannelExists)
    } else if connection_at(st.connections, msg.connection_hops_on_a@[0]) is None {
        Err(IbcError::ConnectionNotFound)
    } else if msg.port_id_on_a@ != transfer_port() {
        Err(IbcError::InvalidPort)
    } else {
        Ok(st.channel_counter)
    }
}

/// The channel record that a successful channel-open-init stores.
pub open spec fn open_init_record(st: IbcView, msg: MsgChannelOpenInit) -> ChannelRecordView {
    ChannelRecordView {
        channel_id: st.channel_counter,
        port: msg.port_id_on_a@,
        end: ChannelEndView {
            state: ChannelState::Init,
            ordering: msg.ordering,
            counterparty_port: msg.port_id_on_b@,
            counterparty_channel: None,
            connection_hops: msg.connection_hops_on_a@,
            version: msg.version_proposal@,
        },
        next_send: 1,
        next_recv: 1,
        next_ack: 1,
    }
}

/// The checks of a channel-open-init, without its effect.
pub fn channel_open_init_check(st: &IbcState, msg: &MsgChannelOpenInit) -> (r: Result<u64, IbcError>)
    requires
        msg.connection_hops_on_a@.len() >= 1,
    ensures
        r == open_init_outcome(st@, *msg),
{
    let channel_id = st.channel_counter;
    if get_channel(st, channel_id, &msg.port_id_on_a).is_some() {
        return Err(IbcError::ChannelExists);
    }
    if get_connection(st, msg.connection_hops_on_a[0]).is_none() {
        return Err(IbcError::ConnectionNotFound);
    }
    if !is_transfer_port(&msg.port_id_on_a) {
        return Err(IbcError::InvalidPort);
    }
    Ok(channel_id)
}

/// Opens a new channel end in `Init`, numbered by the channel counter, which
/// then advances.
pub fn channel_open_init(st: &mut IbcState, msg: &MsgChannelOpenInit) -> (r: Result<u64, IbcError>)
    requires
        msg.connection_hops_on_a@.len() >= 1,
        old(st).channel_counter < u64::MAX,
    ensures
        r == open_init_outcome(old(st)@, *msg),
        r is Err ==> final(st)@ == old(st)@,
        r is Ok ==> final(st)@ == (IbcView {
            channels: old(st)@.channels.push(open_init_record(old(st)@, *msg)),
            channel_counter: (old(st).channel_counter + 1) as u64,
            ..old(st)@
        }),
{
    let channel_id = match channel_open_init_check(st, msg) {
        Err(e) => {
            return Err(e);
        },
        Ok(id) => id,
    };
    let mut hops: Vec<u64> = Vec::new();
    let mut i: usize = 0;
    while i < msg.connection_hops_on_a.len()
        invariant
            0 <= i <= msg.connection_hops_on_a@.len(),
            hops@ =~= msg.connection_hops_on_a@.subrange(0, i as int),
        decreases msg.connection_hops_on_a@.len() - i,
    {
        hops.push(msg.connection_hops_on_a[i]);
        i = i + 1;
    }
    assert(msg.connection_hops_on_a@.subrange(0, msg.connection_hops_on_a@.len() as int)
        =~= msg.connection_hops_on_a@);
    let rec = ChannelRecord {
        channel_id,
        port: copy_bytes(&msg.port_id_on_a),
        end: ChannelEnd {
            state: ChannelState::Init,
            ordering: msg.ordering,
            counterparty_port: copy_bytes(&msg.port_id_on_b),
            counterparty_channel: None,
            connection_hops: hops,
            version: copy_bytes(&msg.version_proposal),
        },
        next_send: 1,
        next_recv: 1,
        next_ack: 1,
    };
    let ghost c0 = st.channels@;
    st.channels.push(rec);
    st.channel_counter = channel_id + 1;
    assert(st@.channels =~= c0.map_values(|c: ChannelRecord| c@).push(open_init_record(old(st)@, *msg)));
    Ok(channel_id)
}

/// What a channel-open-confirm on `st` returns, given whether the
/// counterparty's channel end was proven.
pub open spec fn open_confirm_outcome(st: IbcView, msg: MsgChannelOpenConfirm, proof_ok: bool) -> Result<(), IbcError> {
    match record_at(st.channels, msg.chan_id_on_b, msg.port_id_on_b@) {
        None => Err(IbcError::ChannelNotFound),
        Some(c) => if c.end.state != ChannelState::TryOpen {
            Err(IbcError::ChannelWrongState)
        } else if c.end.connection_hops.len() == 0 || connection_at(
            st.connections,
            c.end.connection_hops[0],
        ) is None {
            Err(IbcError::ConnectionNotFound)
        } else if connection_at(st.connections, c.end.connection_hops[0])->Some_0.state
            != ConnectionState::Open {
            Err(IbcError::ConnectionNotOpen)
        } else if connection_at(st.connections, c.end.connection_hops[0])->Some_0.counterparty_connection is None {
            Err(IbcError::MissingCounterpartyConnection)
        } else if c.end.counterparty_channel is None {
            Err(IbcError::MissingCounterpartyChannel)
        } else if !proof_ok {
            Err(IbcError::ProofFailed)
        } else if msg.port_id_on_b@ != transfer_port() {
            Err(IbcError::InvalidPort)
        } else {
            Ok(())
        },
    }
}

/// The checks of a channel-open-confirm, without its effect; on success,
/// the channel's current record.
pub fn channel_open_confirm_check(st: &IbcState, msg: &MsgChannelOpenConfirm, proof_ok: bool) -> (r: Result<ChannelRecord, IbcError>)
    ensures
        match r {
            Ok(c) => open_confirm_outcome(st@, *msg, proof_ok) is Ok && record_at(
                st@.channels,
                msg.chan_id_on_b,
                msg.port_id_on_b@,
            ) == Some(c@),
            Err(e) => open_confirm_outcome(st@, *msg, proof_ok) == Err::<(), IbcError>(e),
        },
{
    let found = get_channel(st, msg.chan_id_on_b, &msg.port_id_on_b);
    let c = match found {
        None => {
            return Err(IbcError::ChannelNotFound);
        },
        Some(c) => c,
    };
    if c.end.state != ChannelState::TryOpen {
        return Err(IbcError::ChannelWrongState);
    }
    if c.end.connection_hops.len() == 0 {
        return Err(IbcError::ConnectionNotFound);
    }
    let conn = match get_connection(st, c.end.connection_hops[0]) {
        None => {
            return Err(IbcError::ConnectionNotFound);
        },
        Some(conn) => conn,
    };
    if conn.state != ConnectionState::Open {
        return Err(IbcError::ConnectionNotOpen);
    }
    if conn.counterparty_connection.is_none() {
        return Err(IbcError::MissingCounterpartyConnection);
    }
    if c.end.counterparty_channel.is_none() {
        return Err(IbcError::MissingCounterpartyChannel);
    }
    if !proof_ok {
        return Err(IbcError::ProofFailed);
    }
    if !is_transfer_port(&msg.port_id_on_b) {
        return Err(IbcError::InvalidPort);
    }
    Ok(c)
}

/// Moves a channel end from `TryOpen` to `Open`. `proof_ok` is the outcome
/// of verifying, against the counterparty's committed state, the channel end
/// that [`expected_counterparty_end`] describes.
pub fn channel_open_confirm(st: &mut IbcState, msg: &MsgChannelOpenConfirm, proof_ok: bool) -> (r: Result<(), IbcError>)
    ensures
        r == open_confirm_outcome(old(st)@, *msg, proof_ok),
        r is Err ==> final(st)@ == old(st)@,
        r is Ok ==> {
            let c = record_at(old(st)@.channels, msg.chan_id_on_b, msg.port_id_on_b@)->Some_0;
            final(st)@ == (IbcView {
                channels: old(st)@.channels.push(
                    ChannelRecordView { end: ChannelEndView { state: ChannelState::Open, ..c.end }, ..c },
                ),
                ..old(st)@
            })
        },
{
    let mut c = match channel_open_confirm_check(st, msg, proof_ok) {
        Err(e) => {
            return Err(e);
        },
        Ok(c) => c,
    };
    c.end.state = ChannelState::Open;
    let ghost c0 = st.channels@;
    st.channels.push(c);
    assert(st@.channels =~= c0.map_values(|c: ChannelRecord| c@).push(c@));
    Ok(())
}

/// The channel end that the counterparty must be shown to hold for a
/// channel-open-confirm to go through; `None` where the confirm fails before
/// any proof is looked at.
pub fn expected_counterparty_end(st: &IbcState, msg: &MsgChannelOpenConfirm) -> (r: Option<ChannelEnd>)
    ensures
        r is Some <==> open_confirm_outcome(st@, *msg, false) == Err::<(), IbcError>(IbcError::ProofFailed),
        r matches Some(e) ==> {
            let c = record_at(st@.channels, msg.chan_id_on_b, msg.port_id_on_b@)->Some_0;
            let conn = connection_at(st@.connections, c.end.connection_hops[0])->Some_0;
            e@ == ChannelEndView {
                state: ChannelState::Open,
                ordering: c.end.ordering,
                counterparty_port: msg.port_id_on_b@,
                counterparty_channel: Some(msg.chan_id_on_b),
                connection_hops: seq![conn.counterparty_connection->Some_0],
                version: c.end.version,
            }
        },
{
    let c = match get_channel(st, msg.chan_id_on_b, &msg.port_id_on_b) {
        None => {
            return None;
        },
        Some(c) => c,
    };
    if c.end.state != ChannelState::TryOpen || c.end.connection_hops.len() == 0 {
        return None;
    }
    let conn = match get_connection(st, c.end.connection_hops[0]) {
        None => {
            return None;
        },
        Some(conn) => conn,
    };
    if conn.state != ConnectionState::Open || c.end.counterparty_channel.is_none() {
        return None;
    }
    match conn.counterparty_connection {
        None => None,
        Some(cp) => {
            let hops: Vec<u64> = vec![cp];
            assert(hops@ =~= seq![cp]);
            Some(
                ChannelEnd {
                    state: ChannelState::Open,
                    ordering: c.end.ordering,
                    counterparty_port: copy_bytes(&msg.port_id_on_b),
                    counterparty_channel: Some(msg.chan_id_on_b),
                    connection_hops: hops,
                    version: c.end.version,
                },
            )
        },
    }
}

/// Stateless check of a create-client: both states must be Tendermint ones.
pub fn create_client_check_stateless(msg: &MsgCreateClient) -> (r: Result<(), IbcError>)
    ensures
        r is Ok <==> (msg.client_state is Tendermint && msg.consensus_state is Tendermint),
        r is Err ==> r == Err::<(), IbcError>(IbcError::NotTendermint),
{
    match (msg.client_state, msg.consensus_state) {
        (LightClientState::Tendermint { .. }, LightClientState::Tendermint { .. }) => Ok(()),
        _ => Err(IbcError::NotTendermint),
    }
}

/// Creates a light client numbered by the client counter, which then
/// advances, and stores its consensus state at the client's latest height;
/// returns its number. Both states must be Tendermint ones.
pub fn create_client(st: &mut IbcState, msg: &MsgCreateClient) -> (r: Result<u64, IbcError>)
    requires
        old(st).client_counter < u64::MAX,
    ensures
        r is Ok <==> (msg.client_state is Tendermint && msg.consensus_state is Tendermint),
        r is Err ==> r == Err::<u64, IbcError>(IbcError::NotTendermint) && final(st)@ == old(st)@,
        r is Ok ==> r == Ok::<u64, IbcError>(old(st).client_counter) && final(st)@ == (IbcView {
            clients: old(st)@.clients.push(
                Client { client_id: old(st).client_counter, latest_height: msg.client_state->height },
            ),
            consensus_states: old(st)@.consensus_states.push(
                ConsensusRecord { client_id: old(st).client_counter, height: msg.client_state->height },
            ),
            client_counter: (old(st).client_counter + 1) as u64,
            ..old(st)@
        }),
{
    match (msg.client_state, msg.consensus_state) {
        (LightClientState::Tendermint { height }, LightClientState::Tendermint { .. }) => {
            let id = st.client_counter;
            st.clients.push(Client { client_id: id, latest_height: height });
            st.consensus_states.push(ConsensusRecord { client_id: id, height });
            st.client_counter = id + 1;
            Ok(id)
        },
        _ => Err(IbcError::NotTendermint),
    }
}

} // verus!
