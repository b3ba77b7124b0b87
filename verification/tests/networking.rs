use kubi::networking::{
    ClientEvent, ClientJoinState, GameType, NetworkEvent, ChunkPacketError,
    is_multiplayer, is_singleplayer, is_join_state, if_just_connected, handle_disconnect,
    check_server_hello_response, received_messages_of_type, decompress_chunk_packet,
    restore_message_type, set_client_join_state_to_connected,
};

fn recv(bytes: &[u8]) -> NetworkEvent {
    NetworkEvent(ClientEvent::Receive(bytes.to_vec()))
}

#[test]
fn message_type_is_the_first_byte() {
    assert!(recv(&[4, 1, 2]).is_message_of_type::<4>());
    assert!(!recv(&[5, 1, 2]).is_message_of_type::<4>());
    assert!(!recv(&[]).is_message_of_type::<0>());
    assert!(!NetworkEvent(ClientEvent::Connect).is_message_of_type::<0>());
}

#[test]
fn game_type_queries() {
    assert!(is_multiplayer(GameType::Muliplayer));
    assert!(!is_multiplayer(GameType::Singleplayer));
    assert!(is_singleplayer(GameType::Singleplayer));
    assert!(is_join_state::<2>(ClientJoinState::Joined));
    assert!(is_join_state::<1>(ClientJoinState::Connected));
    assert!(!is_join_state::<1>(ClientJoinState::Disconnected));
    assert_eq!(ClientJoinState::Disconnected.code(), 0);
}

#[test]
fn connection_and_disconnection_events() {
    let events = vec![recv(&[1]), NetworkEvent(ClientEvent::Connect)];
    assert!(if_just_connected(&events));
    assert!(!if_just_connected(&[recv(&[1])]));
    let mut state = ClientJoinState::Disconnected;
    set_client_join_state_to_connected(&mut state);
    assert_eq!(state, ClientJoinState::Connected);
    handle_disconnect(&events, &mut state);
    assert_eq!(state, ClientJoinState::Connected);
    handle_disconnect(&[NetworkEvent(ClientEvent::Error), NetworkEvent(ClientEvent::Disconnect)], &mut state);
    assert_eq!(state, ClientJoinState::Disconnected);
}

#[test]
fn server_hello_joins_only_when_it_decodes() {
    let events = vec![recv(&[0, 9]), recv(&[3]), NetworkEvent(ClientEvent::Connect)];
    let mut state = ClientJoinState::Connected;
    check_server_hello_response::<0>(&events, &[false, true, true], &mut state);
    assert_eq!(state, ClientJoinState::Connected);
    check_server_hello_response::<0>(&events, &[true, false, false], &mut state);
    assert_eq!(state, ClientJoinState::Joined);
}

#[test]
fn messages_of_a_type_are_collected_in_order() {
    let events = vec![recv(&[2, 1]), recv(&[3, 9]), NetworkEvent(ClientEvent::Disconnect), recv(&[2, 5, 6]), recv(&[])];
    let messages = received_messages_of_type::<2>(&events);
    assert_eq!(messages, vec![vec![2, 1], vec![2, 5, 6]]);
    assert!(received_messages_of_type::<7>(&events).is_empty());
}

#[test]
fn chunk_packets_are_decompressed_behind_their_type_byte() {
    let body = vec![10u8, 20, 30, 40, 10, 20, 30, 40, 10, 20, 30, 40];
    let mut packet = vec![6u8];
    packet.extend_from_slice(&lz4_flex::compress_prepend_size(&body));
    let message = decompress_chunk_packet(&packet).expect("valid packet");
    let mut expected = vec![6u8];
    expected.extend_from_slice(&body);
    assert_eq!(message, expected);
}

#[test]
fn corrupt_chunk_packets_are_reported() {
    assert_eq!(decompress_chunk_packet(&[6]), Err(ChunkPacketError::Decompress));
    assert_eq!(decompress_chunk_packet(&[6, 10, 0, 0, 0, 0x50, 1, 2]), Err(ChunkPacketError::Decompress));
}

#[test]
fn restore_message_type_prepends() {
    assert_eq!(restore_message_type(9, vec![1, 2]), vec![9, 1, 2]);
}
