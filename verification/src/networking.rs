//! The client side of the network protocol: connection state and the decisions taken on
//! the events the connection reports.

use vstd::prelude::*;
use lz4_flex::block::DecompressError;

verus! {

#[verifier::external_type_specification]
#[verifier::external_body]
pub struct ExDecompressError(DecompressError);

/// Whether the world is local or on a server.
#[derive(Clone, Copy, Debug, PartialEq, Eq, Structural)]
pub enum GameType {
    Singleplayer,
    Muliplayer,
}

/// How far the client has got in joining the server.
#[derive(Clone, Copy, Debug, PartialEq, Eq, Structural)]
pub enum ClientJoinState {
    Disconnected,
    Connected,
    Joined,
}

/// The number that stands for a join state (its position in the declaration).
pub open spec fn join_state_code(state: ClientJoinState) -> u8 {
    match state {
        ClientJoinState::Disconnected => 0,
        ClientJoinState::Connected => 1,
        ClientJoinState::Joined => 2,
    }
}

impl ClientJoinState {
    /// The number that stands for this state.
    pub fn code(self) -> (code: u8)
        ensures
            code == join_state_code(self),
    {
        match self {
            ClientJoinState::Disconnected => 0,
            ClientJoinState::Connected => 1,
            ClientJoinState::Joined => 2,
        }
    }
}

/// An event reported by the connection to the server.
#[derive(Clone, Debug, PartialEq, Eq)]
pub enum ClientEvent {
    /// The connection was established.
    Connect,
    /// The connection was closed.
    Disconnect,
    /// A packet arrived.
    Receive(Vec<u8>),
    /// The connection failed.
    Error,
}

/// A network event of the current frame.
pub struct NetworkEvent(pub ClientEvent);

/// `event` is a received packet whose first byte (the message type) is `message_type`.
pub open spec fn is_message_of(event: ClientEvent, message_type: u8) -> bool {
    event matches ClientEvent::Receive(data) && data@.len() > 0 && data@[0] == message_type
}

impl NetworkEvent {
    /// Checks if a postcard-encoded message has the type `T` (its first byte).
    pub fn is_message_of_type<const T: u8>(&self) -> (r: bool)
        ensures
            r == is_message_of(self.0, T),
    {
        let ClientEvent::Receive(data) = &self.0 else { return false };
        if data.len() == 0 {
            return false;
        }
        data[0] == T
    }
}

/// The payloads of the events that are received messages of type `message_type`, in order.
pub open spec fn payloads_of(events: Seq<NetworkEvent>, message_type: u8) -> Seq<Seq<u8>>
    decreases events.len(),
{
    if events.len() == 0 {
        Seq::empty()
    } else {
        let before = payloads_of(events.drop_last(), message_type);
        match events.last().0 {
            ClientEvent::Receive(data) => {
                if data@.len() > 0 && data@[0] == message_type {
                    before.push(data@)
                } else {
                    before
                }
            },
            _ => before,
        }
    }
}

/// The messages of a run of events are those of its first part followed by those of the
/// rest: the messages of each event are kept, in the order the events came.
pub proof fn lemma_payloads_of_concat(a: Seq<NetworkEvent>, b: Seq<NetworkEvent>, message_type: u8)
    ensures
        payloads_of(a + b, message_type) == payloads_of(a, message_type) + payloads_of(b, message_type),
    decreases b.len(),
{
    if b.len() == 0 {
        assert(a + b =~= a);
        assert(payloads_of(a, message_type) + payloads_of(b, message_type) =~= payloads_of(a, message_type));
    } else {
        assert((a + b).drop_last() =~= a + b.drop_last());
        assert((a + b).last() == b.last());
        lemma_payloads_of_concat(a, b.drop_last(), message_type);
        let pa = payloads_of(a, message_type);
        let pb = payloads_of(b.drop_last(), message_type);
        match b.last().0 {
            ClientEvent::Receive(data) => {
                if data@.len() > 0 && data@[0] == message_type {
                    assert(pa + pb.push(data@) =~= (pa + pb).push(data@));
                }
            },
            _ => {},
        }
    }
}

/// One event gives one message exactly when it received data whose first byte is the
/// message type, and that message is the whole data; any other event gives none.
pub proof fn lemma_payloads_of_one(event: NetworkEvent, message_type: u8)
    ensures
        payloads_of(seq![event], message_type) == (match event.0 {
            ClientEvent::Receive(data) => if data@.len() > 0 && data@[0] == message_type {
                seq![data@]
            } else {
                Seq::<Seq<u8>>::empty()
            },
            _ => Seq::<Seq<u8>>::empty(),
        }),
{
    let one = seq![event];
    assert(one.drop_last() =~= Seq::<NetworkEvent>::empty());
    assert(one.last() == event);
    assert(payloads_of(one.drop_last(), message_type) == Seq::<Seq<u8>>::empty());
    match event.0 {
        ClientEvent::Receive(data) => {
            assert(Seq::<Seq<u8>>::empty().push(data@) =~= seq![data@]);
        },
        _ => {},
    }
}

/// The messages of type `T` received this frame (whole packets, type byte included), in
/// the order they arrived; these are then decoded with the message types.
pub fn received_messages_of_type<const T: u8>(network_events: &[NetworkEvent]) -> (messages: Vec<Vec<u8>>)
    ensures
        messages@.map_values(|m: Vec<u8>| m@) == payloads_of(network_events@, T),
{
    let mut messages: Vec<Vec<u8>> = Vec::new();
    let mut i: usize = 0;
    while i < network_events.len()
        invariant
            i <= network_events@.len(),
            messages@.map_values(|m: Vec<u8>| m@) == payloads_of(network_events@.take(i as int), T),
        decreases network_events@.len() - i,
    {
        proof {
            let t = network_events@.take(i + 1);
            assert(t.drop_last() =~= network_events@.take(i as int));
            assert(t.last() == network_events@[i as int]);
        }
        if network_events[i].is_message_of_type::<T>() {
            if let ClientEvent::Receive(data) = &network_events[i].0 {
                let ghost before = messages@;
                messages.push(data.clone());
                assert(messages@.map_values(|m: Vec<u8>| m@) =~= before.map_values(|m: Vec<u8>| m@).push(data@));
            }
        }
        i = i + 1;
    }
    proof {
        assert(network_events@.take(network_events@.len() as int) =~= network_events@);
    }
    messages
}

/// Whether the game runs on a server.
pub fn is_multiplayer(game_type: GameType) -> (r: bool)
    ensures
        r == (game_type == GameType::Muliplayer),
{
    game_type == GameType::Muliplayer
}

/// Whether the game runs locally.
pub fn is_singleplayer(game_type: GameType) -> (r: bool)
    ensures
        r == (game_type == GameType::Singleplayer),
{
    game_type == GameType::Singleplayer
}

/// Whether the join state is the one numbered `STATE`.
pub fn is_join_state<const STATE: u8>(join_state: ClientJoinState) -> (r: bool)
    ensures
        r == (join_state_code(join_state) == STATE),
{
    join_state.code() == STATE
}

/// Whether the connection was established this frame.
pub fn if_just_connected(network_events: &[NetworkEvent]) -> (r: bool)
    ensures
        r == exists|i: int| 0 <= i < network_events@.len() && network_events@[i].0 == ClientEvent::Connect,
{
    let mut i: usize = 0;
    while i < network_events.len()
        invariant
            i <= network_events@.len(),
            forall|j: int| 0 <= j < i ==> network_events@[j].0 != ClientEvent::Connect,
        decreases network_events@.len() - i,
    {
        if let ClientEvent::Connect = network_events[i].0 {
            return true;
        }
        i = i + 1;
    }
    false
}

/// The connection is up: the client is connected (but not yet accepted).
pub fn set_client_join_state_to_connected(join_state: &mut ClientJoinState)
    ensures
        *final(join_state) == ClientJoinState::Connected,
{
    *join_state = ClientJoinState::Connected;
}

/// When the server closed the connection this frame, the client is disconnected.
pub fn handle_disconnect(network_events: &[NetworkEvent], join_state: &mut ClientJoinState)
    ensures
        *final(join_state) == if exists|i: int| 0 <= i < network_events@.len() && network_events@[i].0 == ClientEvent::Disconnect {
            ClientJoinState::Disconnected
        } else {
            *old(join_state)
        },
{
    let mut i: usize = 0;
    while i < network_events.len()
        invariant
            i <= network_events@.len(),
            *join_state == *old(join_state),
            forall|j: int| 0 <= j < i ==> network_events@[j].0 != ClientEvent::Disconnect,
        decreases network_events@.len() - i,
    {
        if let ClientEvent::Disconnect = network_events[i].0 {
            *join_state = ClientJoinState::Disconnected;
            return;
        }
        i = i + 1;
    }
}

/// Once a server-hello message arrives that decodes, the client has joined. A hello is a
/// received packet of type `HELLO`; `decodes[i]` tells whether the payload of event `i`
/// decodes as a server hello (decoding is done with the message types).
pub fn check_server_hello_response<const HELLO: u8>(
    network_events: &[NetworkEvent],
    decodes: &[bool],
    join_state: &mut ClientJoinState,
)
    requires
        decodes@.len() == network_events@.len(),
    ensures
        *final(join_state) == if exists|i: int|
            0 <= i < network_events@.len() && is_message_of(network_events@[i].0, HELLO) && decodes@[i] {
            ClientJoinState::Joined
        } else {
            *old(join_state)
        },
{
    let mut i: usize = 0;
    while i < network_events.len()
        invariant
            i <= network_events@.len(),
            decodes@.len() == network_events@.len(),
            *join_state == *old(join_state),
            forall|j: int| 0 <= j < i ==> !(is_message_of(network_events@[j].0, HELLO) && decodes@[j]),
        decreases network_events@.len() - i,
    {
        if network_events[i].is_message_of_type::<HELLO>() && decodes[i] {
            *join_state = ClientJoinState::Joined;
            return;
        }
        i = i + 1;
    }
}

// ---------------------------------------------------------------------------
// chunk packets

/// What lz4_flex's `decompress_size_prepended` gives for `input` (`None` for an error).
pub uninterp spec fn lz4_decompressed(input: Seq<u8>) -> Option<Seq<u8>>;

/// Calls `lz4_flex::decompress_size_prepended`.
/// Claimed: the result depends on the input alone (it reads the size prefix, then
/// decompresses the block). What it is, is named, not stated.
#[verifier::external_body]
fn decompress_size_prepended(input: &[u8]) -> (output: Result<Vec<u8>, DecompressError>)
    ensures
        (match output {
            Ok(data) => lz4_decompressed(input@) == Some(data@),
            Err(_) => lz4_decompressed(input@) is None,
        }),
{
    lz4_flex::decompress_size_prepended(input)
}

/// Why a chunk packet could not be read.
#[derive(Clone, Copy, Debug, PartialEq, Eq, Structural)]
pub enum ChunkPacketError {
    /// The compressed body is not valid lz4.
    Decompress,
}

/// Put the message-type byte back in front of a decompressed chunk-packet body.
pub fn restore_message_type(message_type: u8, body: Vec<u8>) -> (message: Vec<u8>)
    ensures
        message@ == seq![message_type] + body@,
{
    let mut message = body;
    message.insert(0, message_type);
    assert(message@ =~= seq![message_type] + body@);
    message
}

/// Decompress a chunk packet: its first byte is the message type, the rest is an lz4 block
/// with its size prepended. The message comes back with its type byte in front.
pub fn decompress_chunk_packet(data: &[u8]) -> (message: Result<Vec<u8>, ChunkPacketError>)
    requires
        data@.len() >= 1,
    ensures
        (match message {
            Ok(m) => lz4_decompressed(data@.drop_first()) matches Some(body) && m@ == seq![data@[0]] + body,
            Err(e) => e == ChunkPacketError::Decompress && lz4_decompressed(data@.drop_first()) is None,
        }),
{
    let body = vstd::slice::slice_subrange(data, 1, data.len());
    assert(body@ == data@.drop_first());
    match decompress_size_prepended(body) {
        Ok(decompressed) => Ok(restore_message_type(data[0], decompressed)),
        Err(_) => Err(ChunkPacketError::Decompress),
    }
}

} // verus!
