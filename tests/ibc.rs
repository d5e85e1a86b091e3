use shielded_ledger::ibc::{
    channel_open_confirm, channel_open_init, channel_open_init_check_stateless, create_client,
    create_client_check_stateless, expected_counterparty_end, get_channel, ChannelEnd, ChannelRecord,
    ChannelState, Connection, ConnectionState, IbcError, IbcState, LightClientState, MsgChannelOpenConfirm,
    MsgChannelOpenInit, MsgCreateClient, Ordering,
};

fn ibc_state() -> IbcState {
    IbcState {
        channels: vec![],
        connections: vec![
            Connection { connection_id: 0, state: ConnectionState::Open, counterparty_connection: Some(5) },
            Connection { connection_id: 1, state: ConnectionState::Init, counterparty_connection: None },
        ],
        clients: vec![], consensus_states: vec![],
        channel_counter: 0,
        client_counter: 0,
    }
}

fn init_msg(port: &[u8], hops: Vec<u64>) -> MsgChannelOpenInit {
    MsgChannelOpenInit {
        port_id_on_a: port.to_vec(),
        connection_hops_on_a: hops,
        port_id_on_b: b"transfer".to_vec(),
        ordering: Ordering::Unordered,
        version_proposal: b"ics20-1".to_vec(),
    }
}

#[test]
fn channel_open_init_creates_channel_in_init() {
    let mut st = ibc_state();
    assert_eq!(channel_open_init_check_stateless(&init_msg(b"transfer", vec![0, 1])), Err(IbcError::ConnectionHops));
    assert_eq!(channel_open_init(&mut st, &init_msg(b"transfer", vec![0])), Ok(0));
    assert_eq!(st.channel_counter, 1);
    let c = get_channel(&st, 0, &b"transfer".to_vec()).unwrap();
    assert_eq!(c.end.state, ChannelState::Init);
    assert_eq!(c.end.counterparty_channel, None);
    assert_eq!((c.next_send, c.next_recv, c.next_ack), (1, 1, 1));
    assert_eq!(channel_open_init(&mut st, &init_msg(b"transfer", vec![9])), Err(IbcError::ConnectionNotFound));
    assert_eq!(channel_open_init(&mut st, &init_msg(b"other", vec![0])), Err(IbcError::InvalidPort));
    assert_eq!(st.channel_counter, 1);
}

fn try_open_state() -> IbcState {
    let mut st = ibc_state();
    st.channels.push(ChannelRecord {
        channel_id: 3,
        port: b"transfer".to_vec(),
        end: ChannelEnd {
            state: ChannelState::TryOpen,
            ordering: Ordering::Unordered,
            counterparty_port: b"transfer".to_vec(),
            counterparty_channel: Some(8),
            connection_hops: vec![0],
            version: b"ics20-1".to_vec(),
        },
        next_send: 1,
        next_recv: 1,
        next_ack: 1,
    });
    st
}

fn confirm_msg() -> MsgChannelOpenConfirm {
    MsgChannelOpenConfirm {
        port_id_on_b: b"transfer".to_vec(),
        chan_id_on_b: 3,
        proof_chan_end_on_a: vec![],
        proof_height_on_a: 10,
    }
}

#[test]
fn channel_open_confirm_moves_try_open_to_open() {
    let mut st = try_open_state();
    let expected = expected_counterparty_end(&st, &confirm_msg()).unwrap();
    assert_eq!(expected.connection_hops, vec![5]);
    assert_eq!(expected.counterparty_channel, Some(3));
    assert_eq!(channel_open_confirm(&mut st, &confirm_msg(), false), Err(IbcError::ProofFailed));
    assert_eq!(channel_open_confirm(&mut st, &confirm_msg(), true), Ok(()));
    let c = get_channel(&st, 3, &b"transfer".to_vec()).unwrap();
    assert_eq!(c.end.state, ChannelState::Open);
    assert_eq!(channel_open_confirm(&mut st, &confirm_msg(), true), Err(IbcError::ChannelWrongState));
}

#[test]
fn channel_open_confirm_needs_open_connection() {
    let mut st = try_open_state();
    st.channels[0].end.connection_hops = vec![1];
    assert_eq!(channel_open_confirm(&mut st, &confirm_msg(), true), Err(IbcError::ConnectionNotOpen));
    let mut missing = confirm_msg();
    missing.chan_id_on_b = 4;
    assert_eq!(channel_open_confirm(&mut st, &missing, true), Err(IbcError::ChannelNotFound));
}

#[test]
fn create_client_counts_up() {
    let mut st = ibc_state();
    let msg = MsgCreateClient {
        client_state: LightClientState::Tendermint { height: 12 },
        consensus_state: LightClientState::Tendermint { height: 12 },
    };
    assert_eq!(create_client_check_stateless(&msg), Ok(()));
    assert_eq!(create_client(&mut st, &msg), Ok(0));
    assert_eq!(create_client(&mut st, &msg), Ok(1));
    assert_eq!(st.clients[1].latest_height, 12);
    assert_eq!(st.consensus_states.len(), 2);
    assert_eq!(st.consensus_states[1].height, 12);
    let mixed = MsgCreateClient {
        client_state: LightClientState::Tendermint { height: 3 },
        consensus_state: LightClientState::Other,
    };
    assert_eq!(create_client(&mut st, &mixed), Err(IbcError::NotTendermint));
    let bad = MsgCreateClient { client_state: LightClientState::Other, consensus_state: LightClientState::Other };
    assert_eq!(create_client_check_stateless(&bad), Err(IbcError::NotTendermint));
    assert_eq!(create_client(&mut st, &bad), Err(IbcError::NotTendermint));
    assert_eq!(st.client_counter, 2);
}

#[test]
fn channel_open_init_refuses_existing_channel() {
    let mut st = ibc_state();
    assert_eq!(channel_open_init(&mut st, &init_msg(b"transfer", vec![0])), Ok(0));
    st.channel_counter = 0;
    assert_eq!(channel_open_init(&mut st, &init_msg(b"transfer", vec![0])), Err(IbcError::ChannelExists));
}

#[test]
fn channel_open_confirm_needs_counterparty_ids() {
    let mut st = try_open_state();
    st.connections[0].counterparty_connection = None;
    assert_eq!(channel_open_confirm(&mut st, &confirm_msg(), true), Err(IbcError::MissingCounterpartyConnection));
    let mut st = try_open_state();
    st.channels[0].end.counterparty_channel = None;
    assert!(expected_counterparty_end(&st, &confirm_msg()).is_none());
    assert_eq!(channel_open_confirm(&mut st, &confirm_msg(), true), Err(IbcError::MissingCounterpartyChannel));
}
