//! The course of a connection to a relay, which carries the datagrams of players who
//! cannot reach the server directly. Each player gets a socket of their own towards
//! the server; the sockets are numbered in the order in which they were opened.

use vstd::hash_map::StringHashMap;
use vstd::prelude::*;
use vstd::utf8::*;

use crate::failure::outcome;
use crate::frame::{
    address_end, announced_length, decode_relay_frame, decoded_frame, encoded_frame,
    relay_frame_round_trips,
};
use crate::network::{
    heartbeat, is_heartbeat, Endpoint, Heartbeat, HeartbeatFailure, NetworkState, Session,
};
use crate::text::{join, same_text};

verus! {

/// How long to wait before a relay is tried again, in seconds.
pub const RETRY_SECONDS: u64 = 5;

/// How many frames may wait to be passed on to a relay.
pub const WAITING_FRAMES: usize = 256;

/// What a relay says in words.
pub struct RelayNotice {
    pub kind: String,
    pub host_name: String,
    pub port: u16,
}

/// What comes from a relay.
pub enum Incoming {
    /// Words, or why they cannot be read.
    Text(Result<RelayNotice, String>),
    /// A framed datagram.
    Binary(Vec<u8>),
    /// The relay takes its leave.
    Close,
    /// Something of no concern.
    Other,
    /// The connection broke.
    Broken(String),
    /// The connection ended.
    Ended,
}

/// How opening a socket towards the server failed.
pub enum OpenFailure {
    /// No socket could be had.
    Bind(String),
    /// The server could not be reached.
    Connect(String),
}

/// A connection to a relay.
pub struct Connection {
    /// The id of the server that the connection serves.
    pub id: String,
    /// The number of the socket of each player, by the player's address.
    pub clients: StringHashMap<usize>,
}

/// The value of a [`Connection`].
#[verifier::ext_equal]
pub struct ConnectionView {
    pub id: Seq<char>,
    pub clients: Map<Seq<char>, int>,
}

impl View for Connection {
    type V = ConnectionView;

    open spec fn view(&self) -> ConnectionView {
        ConnectionView { id: self.id@, clients: self.clients@.map_values(|n: usize| n as int) }
    }
}

/// Wait for what comes from the relay.
pub struct ReceiveRequest {
    pub connection: Connection,
}

/// Note where players reach the server.
pub struct AssignRequest {
    pub connection: Connection,
    pub endpoint: Endpoint,
}

/// Tell the directory where players reach the server.
pub struct AnnounceRequest {
    pub connection: Connection,
    pub session: Session,
}

/// Open a socket towards the server, and pass what comes back from there on to the
/// relay, framed for `address`.
pub struct OpenRequest {
    pub connection: Connection,
    pub address: String,
    pub payload: Vec<u8>,
}

/// Send a datagram to the server through a socket that is open.
pub struct ForwardRequest {
    pub connection: Connection,
    pub socket: usize,
    pub payload: Vec<u8>,
}

/// Wait until everything has been passed on to the relay.
pub struct WriterRequest {}

/// The step at hand. Whoever drives the connection performs it and hands the outcome
/// back with `resume`, until the step is `Failed`: every connection ends in that.
pub enum RelayStep {
    Receive(ReceiveRequest),
    Assign(AssignRequest),
    SendHeartbeat(AnnounceRequest),
    Open(OpenRequest),
    Forward(ForwardRequest),
    AwaitWriter(WriterRequest),
    Failed(String),
}

/// The value of a [`RelayStep`].
#[verifier::ext_equal]
pub enum RelayStepView {
    Receive(ConnectionView),
    Assign(ConnectionView, Endpoint),
    SendHeartbeat(ConnectionView, Session),
    Open(ConnectionView, Seq<char>, Seq<u8>),
    Forward(ConnectionView, int, Seq<u8>),
    AwaitWriter,
    Failed(Seq<char>),
}

impl View for RelayStep {
    type V = RelayStepView;

    open spec fn view(&self) -> RelayStepView {
        match *self {
            RelayStep::Receive(request) => RelayStepView::Receive(request.connection@),
            RelayStep::Assign(request) => RelayStepView::Assign(
                request.connection@,
                request.endpoint,
            ),
            RelayStep::SendHeartbeat(request) => RelayStepView::SendHeartbeat(
                request.connection@,
                request.session,
            ),
            RelayStep::Open(request) => RelayStepView::Open(
                request.connection@,
                request.address@,
                request.payload@,
            ),
            RelayStep::Forward(request) => RelayStepView::Forward(
                request.connection@,
                request.socket as int,
                request.payload@,
            ),
            RelayStep::AwaitWriter(_) => RelayStepView::AwaitWriter,
            RelayStep::Failed(message) => RelayStepView::Failed(message@),
        }
    }
}

/// The outcome of a step.
pub enum RelayEvent {
    Received(Incoming),
    /// The session whose address was noted, if it is still published; nothing if the
    /// state could not be had.
    Noted(Option<Option<Session>>),
    HeartbeatSent(Result<(), HeartbeatFailure>),
    Opened(Result<(), OpenFailure>),
    Forwarded(Result<(), Seq<char>>),
    WriterEnded(Result<(), Seq<char>>),
}

/// The socket of the player at `address`, if one is open.
pub open spec fn socket_of(clients: Map<Seq<char>, int>, address: Seq<char>) -> Option<int> {
    if clients.contains_key(address) {
        Some(clients[address])
    } else {
        None
    }
}

/// What is said when a socket could not be opened.
pub open spec fn open_failure_text(failure: OpenFailure) -> Seq<char> {
    match failure {
        OpenFailure::Bind(detail) => "ローカルUDPを作成できませんでした: "@ + detail@,
        OpenFailure::Connect(detail) => "ローカルBDSへ接続できませんでした: "@ + detail@,
    }
}

/// The step that follows from what came from the relay.
pub open spec fn received(connection: ConnectionView, incoming: Incoming) -> RelayStepView {
    match incoming {
        Incoming::Text(Ok(notice)) => if notice.kind@ == "ready"@ {
            RelayStepView::Assign(
                connection,
                Endpoint { host_name: notice.host_name, host_port: notice.port, mode: "relay" },
            )
        } else {
            RelayStepView::Receive(connection)
        },
        Incoming::Text(Err(detail)) => RelayStepView::Failed(
            "中継準備通知を解析できませんでした: "@ + detail@,
        ),
        Incoming::Binary(frame) => match decoded_frame(frame@) {
            Ok((address, payload)) => match socket_of(connection.clients, address) {
                Some(socket) => RelayStepView::Forward(connection, socket, payload),
                None => RelayStepView::Open(connection, address, payload),
            },
            Err(message) => RelayStepView::Failed(message),
        },
        Incoming::Close => RelayStepView::AwaitWriter,
        Incoming::Other => RelayStepView::Receive(connection),
        Incoming::Broken(detail) => RelayStepView::Failed("中継接続が切断されました: "@ + detail@),
        Incoming::Ended => RelayStepView::AwaitWriter,
    }
}

/// The step that follows from an outcome. An outcome of another step changes nothing.
pub open spec fn after(step: RelayStepView, event: RelayEvent) -> RelayStepView {
    match (step, event) {
        (RelayStepView::Receive(connection), RelayEvent::Received(incoming)) => received(
            connection,
            incoming,
        ),
        (RelayStepView::Assign(connection, _), RelayEvent::Noted(noted)) => match noted {
            Some(Some(session)) => RelayStepView::SendHeartbeat(connection, session),
            Some(None) => RelayStepView::Receive(connection),
            None => RelayStepView::Failed("ネットワーク状態を更新できませんでした"@),
        },
        (
            RelayStepView::SendHeartbeat(connection, _),
            RelayEvent::HeartbeatSent(sent),
        ) => match sent {
            Ok(()) => RelayStepView::Receive(connection),
            Err(failure) => RelayStepView::Failed(failure.text()),
        },
        (
            RelayStepView::Open(connection, address, payload),
            RelayEvent::Opened(opened),
        ) => match opened {
            Ok(()) => RelayStepView::Forward(
                ConnectionView {
                    clients: connection.clients.insert(address, connection.clients.len() as int),
                    ..connection
                },
                connection.clients.len() as int,
                payload,
            ),
            Err(failure) => RelayStepView::Failed(open_failure_text(failure)),
        },
        (
            RelayStepView::Forward(connection, _, _),
            RelayEvent::Forwarded(forwarded),
        ) => match forwarded {
            Ok(()) => RelayStepView::Receive(connection),
            Err(detail) => RelayStepView::Failed("BDSへUDPを転送できませんでした: "@ + detail),
        },
        (RelayStepView::AwaitWriter, RelayEvent::WriterEnded(ended)) => match ended {
            Ok(()) => RelayStepView::Failed("中央中継が終了しました"@),
            Err(detail) => RelayStepView::Failed(detail),
        },
        _ => step,
    }
}

/// The step that follows from the attempt to connect to the relay for the server `id`.
pub open spec fn first_step(id: Seq<char>, connected: Result<(), Seq<char>>) -> RelayStepView {
    match connected {
        Ok(()) => RelayStepView::Receive(ConnectionView { id, clients: Map::empty() }),
        Err(detail) => RelayStepView::Failed("中央中継へ接続できませんでした: "@ + detail),
    }
}

/// What follows from the attempt to connect to the relay for the server `id`.
pub fn begin_relay(id: String, connected: Result<(), String>) -> (step: RelayStep)
    ensures
        step@ == first_step(id@, outcome(connected)),
{
    match connected {
        Ok(()) => {
            let connection = Connection { id, clients: StringHashMap::new() };
            assert(connection@.clients =~= Map::empty());
            RelayStep::Receive(ReceiveRequest { connection })
        },
        Err(detail) => RelayStep::Failed(
            join("中央中継へ接続できませんでした: ", detail.as_str()),
        ),
    }
}

/// Taking the numbers for integers changes nothing in how many there are.
proof fn lemma_numbers_count(clients: Map<Seq<char>, usize>)
    ensures
        clients.map_values(|n: usize| n as int).len() == clients.len(),
{
    assert(clients.map_values(|n: usize| n as int).dom() =~= clients.dom());
}

impl Connection {
    /// The socket of the player at `address`, if one is open.
    pub fn socket(&self, address: &str) -> (socket: Option<usize>)
        ensures
            match socket {
                Some(socket) => socket_of(self@.clients, address@) == Some(socket as int),
                None => socket_of(self@.clients, address@) is None,
            },
    {
        match self.clients.get(address) {
            Some(socket) => Some(*socket),
            None => None,
        }
    }
}

impl ReceiveRequest {
    /// What follows from what came from the relay.
    pub fn resume(self, incoming: Incoming) -> (step: RelayStep)
        ensures
            step@ == after(
                RelayStepView::Receive(self.connection@),
                RelayEvent::Received(incoming),
            ),
    {
        match incoming {
            Incoming::Text(Ok(notice)) => if same_text(notice.kind.as_str(), "ready") {
                RelayStep::Assign(
                    AssignRequest {
                        connection: self.connection,
                        endpoint: Endpoint {
                            host_name: notice.host_name,
                            host_port: notice.port,
                            mode: "relay",
                        },
                    },
                )
            } else {
                RelayStep::Receive(self)
            },
            Incoming::Text(Err(detail)) => RelayStep::Failed(
                join("中継準備通知を解析できませんでした: ", detail.as_str()),
            ),
            Incoming::Binary(frame) => match decode_relay_frame(frame.as_slice()) {
                Ok((address, carried)) => {
                    let mut payload: Vec<u8> = Vec::new();
                    payload.extend_from_slice(carried);
                    match self.connection.socket(address.as_str()) {
                        Some(socket) => RelayStep::Forward(
                            ForwardRequest { connection: self.connection, socket, payload },
                        ),
                        None => RelayStep::Open(
                            OpenRequest { connection: self.connection, address, payload },
                        ),
                    }
                },
                Err(message) => RelayStep::Failed(message),
            },
            Incoming::Close => RelayStep::AwaitWriter(WriterRequest {  }),
            Incoming::Other => RelayStep::Receive(self),
            Incoming::Broken(detail) => RelayStep::Failed(
                join("中継接続が切断されました: ", detail.as_str()),
            ),
            Incoming::Ended => RelayStep::AwaitWriter(WriterRequest {  }),
        }
    }
}

impl AssignRequest {
    /// Performs the step on the state, and gives the session back if it is still
    /// published.
    pub fn note(&self, state: &mut NetworkState) -> (noted: Option<Session>)
        ensures
            old(state).publishes(self.connection.id@) ==> {
                &&& noted == Some(
                    Session { endpoint: Some(self.endpoint), ..old(state).session->0 },
                )
                &&& final(state).session == noted
            },
            !old(state).publishes(self.connection.id@) ==> noted is None && *final(state) == *old(
                state,
            ),
    {
        state.assign(self.connection.id.as_str(), self.endpoint.clone())
    }

    /// What follows once the address was noted. `noted` is nothing if the state could
    /// not be had.
    pub fn resume(self, noted: Option<Option<Session>>) -> (step: RelayStep)
        ensures
            step@ == after(
                RelayStepView::Assign(self.connection@, self.endpoint),
                RelayEvent::Noted(noted),
            ),
    {
        match noted {
            Some(Some(session)) => RelayStep::SendHeartbeat(
                AnnounceRequest { connection: self.connection, session },
            ),
            Some(None) => RelayStep::Receive(ReceiveRequest { connection: self.connection }),
            None => RelayStep::Failed("ネットワーク状態を更新できませんでした".to_owned()),
        }
    }
}

impl AnnounceRequest {
    /// What to tell the directory.
    pub fn told(&self) -> (told: Heartbeat)
        ensures
            is_heartbeat(self.session, told),
    {
        heartbeat(&self.session)
    }

    /// What follows once the directory was told, or could not be.
    pub fn resume(self, sent: Result<(), HeartbeatFailure>) -> (step: RelayStep)
        ensures
            step@ == after(
                RelayStepView::SendHeartbeat(self.connection@, self.session),
                RelayEvent::HeartbeatSent(sent),
            ),
    {
        match sent {
            Ok(()) => RelayStep::Receive(ReceiveRequest { connection: self.connection }),
            Err(failure) => RelayStep::Failed(failure.message()),
        }
    }
}

impl OpenRequest {
    /// What follows once the socket was opened, or could not be.
    pub fn resume(self, opened: Result<(), OpenFailure>) -> (step: RelayStep)
        ensures
            step@ == after(
                RelayStepView::Open(self.connection@, self.address@, self.payload@),
                RelayEvent::Opened(opened),
            ),
    {
        match opened {
            Ok(()) => {
                let mut connection: Connection = self.connection;
                let socket: usize = connection.clients.len();
                let ghost clients = connection@.clients;
                let ghost address = self.address@;
                proof {
                    lemma_numbers_count(connection.clients@);
                }
                connection.clients.insert(self.address, socket);
                assert(connection@.clients =~= clients.insert(address, socket as int));
                RelayStep::Forward(ForwardRequest { connection, socket, payload: self.payload })
            },
            Err(OpenFailure::Bind(detail)) => RelayStep::Failed(
                join("ローカルUDPを作成できませんでした: ", detail.as_str()),
            ),
            Err(OpenFailure::Connect(detail)) => RelayStep::Failed(
                join("ローカルBDSへ接続できませんでした: ", detail.as_str()),
            ),
        }
    }
}

impl ForwardRequest {
    /// What follows once the datagram was sent, or could not be.
    pub fn resume(self, forwarded: Result<(), String>) -> (step: RelayStep)
        ensures
            step@ == after(
                RelayStepView::Forward(self.connection@, self.socket as int, self.payload@),
                RelayEvent::Forwarded(outcome(forwarded)),
            ),
    {
        match forwarded {
            Ok(()) => RelayStep::Receive(ReceiveRequest { connection: self.connection }),
            Err(detail) => RelayStep::Failed(
                join("BDSへUDPを転送できませんでした: ", detail.as_str()),
            ),
        }
    }
}

impl WriterRequest {
    /// What follows once everything was passed on to the relay, or could not be.
    pub fn resume(self, ended: Result<(), String>) -> (step: RelayStep)
        ensures
            step@ == after(RelayStepView::AwaitWriter, RelayEvent::WriterEnded(outcome(ended))),
    {
        match ended {
            Ok(()) => RelayStep::Failed("中央中継が終了しました".to_owned()),
            Err(detail) => RelayStep::Failed(detail),
        }
    }
}

/// Whether a relay is tried again after the connection to it ended and the wait was
/// over: unless it ended well, or the server is no longer the one that is published.
/// `state` is nothing if it could not be had.
pub fn tries_again(
    ended: &Result<(), String>,
    state: Option<&NetworkState>,
    id: &str,
) -> (again: bool)
    ensures
        again == (ended is Err && state is Some && state->0.publishes(id@)),
{
    match (ended, state) {
        (Err(_), Some(state)) => state.is_active(id),
        _ => false,
    }
}

/// The step that a sequence of outcomes leads to.
pub open spec fn after_all(step: RelayStepView, events: Seq<RelayEvent>) -> RelayStepView
    decreases events.len(),
{
    if events.len() == 0 {
        step
    } else {
        after(after_all(step, events.drop_last()), events.last())
    }
}

/// The connection that a step belongs to, while it lasts.
pub open spec fn connection_of(step: RelayStepView) -> Option<ConnectionView> {
    match step {
        RelayStepView::Receive(connection) => Some(connection),
        RelayStepView::Assign(connection, _) => Some(connection),
        RelayStepView::SendHeartbeat(connection, _) => Some(connection),
        RelayStepView::Open(connection, _, _) => Some(connection),
        RelayStepView::Forward(connection, _, _) => Some(connection),
        RelayStepView::AwaitWriter => None,
        RelayStepView::Failed(_) => None,
    }
}

/// Whether the sockets of these players are numbered: from nought on, each player's with
/// a number of its own.
pub open spec fn are_numbered(clients: Map<Seq<char>, int>) -> bool {
    &&& clients.dom().finite()
    &&& forall|a: Seq<char>| #[trigger]
        clients.contains_key(a) ==> 0 <= clients[a] < clients.len()
    &&& forall|a: Seq<char>, b: Seq<char>| #[trigger]
        clients.contains_key(a) && #[trigger] clients.contains_key(b) && clients[a] == clients[b]
            ==> a == b
}

/// What holds of every step of a connection for the server `id`.
pub open spec fn step_holds(id: Seq<char>, step: RelayStepView) -> bool {
    &&& connection_of(step) matches Some(connection) ==> {
        &&& connection.id == id
        &&& are_numbered(connection.clients)
    }
    &&& step matches RelayStepView::Open(connection, address, _)
        ==> !connection.clients.contains_key(address)
    &&& step matches RelayStepView::Forward(connection, socket, _) ==> 0 <= socket
        < connection.clients.len()
    &&& step matches RelayStepView::Assign(_, endpoint) ==> endpoint.mode@ == "relay"@
}

/// One more player gets a socket, under the next number.
proof fn lemma_one_more(clients: Map<Seq<char>, int>, address: Seq<char>)
    requires
        are_numbered(clients),
        !clients.contains_key(address),
    ensures
        are_numbered(clients.insert(address, clients.len() as int)),
        clients.insert(address, clients.len() as int).len() == clients.len() + 1,
{
}

/// Whatever the outcomes are: no two players ever share a socket, a socket is opened only
/// for a player who has none, and a datagram is sent only through one that is open.
pub proof fn players_have_one_socket_each(
    id: Seq<char>,
    connected: Result<(), Seq<char>>,
    events: Seq<RelayEvent>,
)
    ensures
        step_holds(id, after_all(first_step(id, connected), events)),
    decreases events.len(),
{
    if events.len() > 0 {
        players_have_one_socket_each(id, connected, events.drop_last());
        let before = after_all(first_step(id, connected), events.drop_last());
        if let (RelayStepView::Open(connection, address, _), RelayEvent::Opened(Ok(_))) = (
            before,
            events.last(),
        ) {
            lemma_one_more(connection.clients, address);
        }
    }
}

/// A player keeps their socket for as long as the connection lasts.
pub proof fn players_keep_their_sockets(id: Seq<char>, step: RelayStepView, event: RelayEvent)
    requires
        step_holds(id, step),
    ensures
        connection_of(step) is Some && connection_of(after(step, event)) is Some ==> {
            let before = connection_of(step)->0.clients;
            let now = connection_of(after(step, event))->0.clients;
            before.submap_of(now)
        },
{
}

/// A datagram goes, unchanged, through the socket of the player it came from: where
/// the player has one, at once, and else as soon as one was opened.
pub proof fn datagrams_go_through_the_socket_of_their_player(
    connection: ConnectionView,
    frame: Vec<u8>,
)
    requires
        decoded_frame(frame@) is Ok,
    ensures
        ({
            let (address, payload) = decoded_frame(frame@)->Ok_0;
            let step = after(
                RelayStepView::Receive(connection),
                RelayEvent::Received(Incoming::Binary(frame)),
            );
            let last = if connection.clients.contains_key(address) {
                step
            } else {
                after(step, RelayEvent::Opened(Ok(())))
            };
            &&& last matches RelayStepView::Forward(now, socket, sent)
            &&& now.clients.contains_key(address)
            &&& now.clients[address] == socket
            &&& sent == payload
        }),
{
}

/// What the server answers to a player whose datagram the relay could frame is framed
/// so that the relay reads the player's address and the answer from it.
pub proof fn answers_find_their_player(frame: Seq<u8>, answer: Seq<u8>)
    requires
        decoded_frame(frame) is Ok,
    ensures
        ({
            let (address, _) = decoded_frame(frame)->Ok_0;
            decoded_frame(encoded_frame(address, answer)) == Ok::<
                (Seq<char>, Seq<u8>),
                Seq<char>,
            >((address, answer))
        }),
{
    let end = address_end(frame)->Ok_0;
    let bytes = frame.subrange(2, end);
    decode_utf8_encode_utf8(bytes);
    assert(announced_length(frame) <= 65535);
    relay_frame_round_trips(decoded_frame(frame)->Ok_0.0, answer);
}

/// A notice whose kind is literally `ready` has the host and the port that it names, and
/// no others, assigned as a relay. Every other notice is passed over.
pub proof fn ready_relays_are_assigned(connection: ConnectionView, notice: RelayNotice)
    ensures
        ({
            let step = after(
                RelayStepView::Receive(connection),
                RelayEvent::Received(Incoming::Text(Ok(notice))),
            );
            if notice.kind@ == "ready"@ {
                &&& step matches RelayStepView::Assign(same, endpoint)
                &&& same == connection
                &&& endpoint.host_name@ == notice.host_name@
                &&& endpoint.host_port == notice.port
                &&& endpoint.mode@ == "relay"@
            } else {
                step == RelayStepView::Receive(connection)
            }
        }),
{
}

/// Whether what came of a step ends the connection: the relay took its leave, or something
/// failed.
pub open spec fn is_end(step: RelayStepView, event: RelayEvent) -> bool {
    match (step, event) {
        (RelayStepView::Receive(_), RelayEvent::Received(incoming)) => match incoming {
            Incoming::Text(notice) => notice is Err,
            Incoming::Binary(frame) => decoded_frame(frame@) is Err,
            Incoming::Close => true,
            Incoming::Other => false,
            Incoming::Broken(_) => true,
            Incoming::Ended => true,
        },
        (RelayStepView::Assign(_, _), RelayEvent::Noted(noted)) => noted is None,
        (RelayStepView::SendHeartbeat(_, _), RelayEvent::HeartbeatSent(sent)) => sent is Err,
        (RelayStepView::Open(_, _, _), RelayEvent::Opened(opened)) => opened is Err,
        (RelayStepView::Forward(_, _, _), RelayEvent::Forwarded(forwarded)) => forwarded is Err,
        _ => false,
    }
}

/// A connection lasts exactly until something ends it.
pub proof fn connections_last_until_something_ends_them(step: RelayStepView, event: RelayEvent)
    requires
        connection_of(step) is Some,
    ensures
        connection_of(after(step, event)) is None <==> is_end(step, event),
        after(step, event) is AwaitWriter <==> step is Receive && (event == RelayEvent::Received(
            Incoming::Close,
        ) || event == RelayEvent::Received(Incoming::Ended)),
{
}

/// Where nothing fails the relay is listened to again: after a datagram was sent, after an
/// address was announced, after one was noted that is not to be announced, and after what
/// is of no concern. Nothing but the opening of a socket changes the connection.
pub proof fn relays_are_listened_to_again(
    connection: ConnectionView,
    endpoint: Endpoint,
    session: Session,
    socket: int,
    address: Seq<char>,
    payload: Seq<u8>,
)
    ensures
        after(
            RelayStepView::Forward(connection, socket, payload),
            RelayEvent::Forwarded(Ok(())),
        ) == RelayStepView::Receive(connection),
        after(
            RelayStepView::Assign(connection, endpoint),
            RelayEvent::Noted(Some(Some(session))),
        ) == RelayStepView::SendHeartbeat(connection, session),
        after(
            RelayStepView::SendHeartbeat(connection, session),
            RelayEvent::HeartbeatSent(Ok(())),
        ) == RelayStepView::Receive(connection),
        after(
            RelayStepView::Assign(connection, endpoint),
            RelayEvent::Noted(Some(None)),
        ) == RelayStepView::Receive(connection),
        after(
            RelayStepView::Receive(connection),
            RelayEvent::Received(Incoming::Other),
        ) == RelayStepView::Receive(connection),
        after(
            RelayStepView::Open(connection, address, payload),
            RelayEvent::Opened(Ok(())),
        ) matches RelayStepView::Forward(now, fresh, sent) && fresh == connection.clients.len()
            && sent == payload && now.id == connection.id && now.clients.dom()
            == connection.clients.dom().insert(address) && now.clients[address] == fresh,
{
}

/// What is said at the end of a connection: what failed, and all that is known of why.
pub proof fn ends_are_told_in_full(
    id: Seq<char>,
    connection: ConnectionView,
    endpoint: Endpoint,
    session: Session,
    socket: int,
    address: Seq<char>,
    payload: Seq<u8>,
    frame: Vec<u8>,
    detail: String,
    why: Seq<char>,
)
    ensures
        first_step(id, Err(why)) == RelayStepView::Failed(
            "中央中継へ接続できませんでした: "@ + why,
        ),
        after(
            RelayStepView::Receive(connection),
            RelayEvent::Received(Incoming::Text(Err(detail))),
        ) == RelayStepView::Failed("中継準備通知を解析できませんでした: "@ + detail@),
        decoded_frame(frame@) matches Err(message) ==> after(
            RelayStepView::Receive(connection),
            RelayEvent::Received(Incoming::Binary(frame)),
        ) == RelayStepView::Failed(message),
        after(
            RelayStepView::Receive(connection),
            RelayEvent::Received(Incoming::Broken(detail)),
        ) == RelayStepView::Failed("中継接続が切断されました: "@ + detail@),
        after(RelayStepView::Assign(connection, endpoint), RelayEvent::Noted(None))
            == RelayStepView::Failed("ネットワーク状態を更新できませんでした"@),
        after(
            RelayStepView::SendHeartbeat(connection, session),
            RelayEvent::HeartbeatSent(Err(HeartbeatFailure::Send(detail))),
        ) == RelayStepView::Failed("heartbeatを送信できませんでした: "@ + detail@),
        after(
            RelayStepView::SendHeartbeat(connection, session),
            RelayEvent::HeartbeatSent(Err(HeartbeatFailure::Status(detail))),
        ) == RelayStepView::Failed("heartbeatが拒否されました: "@ + detail@),
        after(
            RelayStepView::Open(connection, address, payload),
            RelayEvent::Opened(Err(OpenFailure::Bind(detail))),
        ) == RelayStepView::Failed("ローカルUDPを作成できませんでした: "@ + detail@),
        after(
            RelayStepView::Open(connection, address, payload),
            RelayEvent::Opened(Err(OpenFailure::Connect(detail))),
        ) == RelayStepView::Failed("ローカルBDSへ接続できませんでした: "@ + detail@),
        after(
            RelayStepView::Forward(connection, socket, payload),
            RelayEvent::Forwarded(Err(why)),
        ) == RelayStepView::Failed("BDSへUDPを転送できませんでした: "@ + why),
        after(RelayStepView::AwaitWriter, RelayEvent::WriterEnded(Ok(())))
            == RelayStepView::Failed("中央中継が終了しました"@),
        after(RelayStepView::AwaitWriter, RelayEvent::WriterEnded(Err(why)))
            == RelayStepView::Failed(why),
{
}

/// A connection begins, with no socket open, for the server that it was made for.
pub proof fn connections_begin_without_sockets(id: Seq<char>)
    ensures
        first_step(id, Ok(())) matches RelayStepView::Receive(connection) && connection.id == id
            && forall|a: Seq<char>| !connection.clients.contains_key(a),
{
}

} // verus!
