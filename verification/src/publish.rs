//! The course of publishing a server: find a direct way from the Internet, register
//! with the directory, and where there is no direct way, wait for a relay.

use vstd::prelude::*;

use crate::discovery::Mapping;
use crate::failure::{outcome, worded, HttpFailure, HttpStage};
use crate::network::{
    heartbeat, is_heartbeat, is_public, is_public_ip, Endpoint, Heartbeat, HeartbeatFailure,
    Session, BDS_PORT,
};
use crate::text::{
    decimal, decimal_text, decimals_can_be_read_back, different_numbers_are_written_differently, join,
    join3, lemma_port_is_written,
};

verus! {

/// How many times a relay is looked for.
pub const RELAY_ATTEMPTS: u32 = 40;

/// How long to wait before each time, in milliseconds.
pub const RELAY_INTERVAL_MILLIS: u64 = 250;

/// A server, published.
#[derive(Debug)]
pub struct PublishResult {
    pub server_id: String,
    pub public_address: Option<String>,
    pub local_address: Option<String>,
    pub port: u16,
    pub firewall_requested: bool,
    pub upnp_mapped: bool,
    pub warning: Option<String>,
}

/// The value of a [`PublishResult`].
pub struct PublishResultView {
    pub server_id: Seq<char>,
    pub public_address: Option<Seq<char>>,
    pub local_address: Option<Seq<char>>,
    pub port: u16,
    pub firewall_requested: bool,
    pub upnp_mapped: bool,
    pub warning: Option<Seq<char>>,
}

/// The value of a text that may be missing.
pub open spec fn optional(text: Option<String>) -> Option<Seq<char>> {
    match text {
        Some(text) => Some(text@),
        None => None,
    }
}

impl View for PublishResult {
    type V = PublishResultView;

    open spec fn view(&self) -> PublishResultView {
        PublishResultView {
            server_id: self.server_id@,
            public_address: optional(self.public_address),
            local_address: optional(self.local_address),
            port: self.port,
            firewall_requested: self.firewall_requested,
            upnp_mapped: self.upnp_mapped,
            warning: optional(self.warning),
        }
    }
}

/// What the directory says of a new server.
pub struct RegistrationReply {
    pub id: String,
    pub token: String,
}

/// What is known of the server that is being published.
pub struct Publication {
    pub firewall_requested: bool,
    pub endpoint: Option<Endpoint>,
    pub local_address: Option<String>,
    pub upnp_mapped: bool,
    pub warning: Option<String>,
}

/// The value of a [`Publication`].
pub struct PublicationView {
    pub firewall_requested: bool,
    pub endpoint: Option<Endpoint>,
    pub local_address: Option<Seq<char>>,
    pub upnp_mapped: bool,
    pub warning: Option<Seq<char>>,
}

impl View for Publication {
    type V = PublicationView;

    open spec fn view(&self) -> PublicationView {
        PublicationView {
            firewall_requested: self.firewall_requested,
            endpoint: self.endpoint,
            local_address: optional(self.local_address),
            upnp_mapped: self.upnp_mapped,
            warning: optional(self.warning),
        }
    }
}

/// Ask a router for a direct way from the Internet.
pub struct DiscoverRequest {
    pub firewall_requested: bool,
}

/// Register with the directory.
pub struct RegisterRequest {
    pub publication: Publication,
}

/// Tell the directory about the server.
pub struct HeartbeatRequest {
    pub publication: Publication,
    pub session: Session,
}

/// Note the session, and keep telling the directory about it from then on.
pub struct StoreRequest {
    pub publication: Publication,
    pub session: Session,
}

/// Wait, then look whether a relay was assigned.
pub struct RelayRequest {
    pub publication: Publication,
    pub server_id: String,
    /// How many times that has been done.
    pub attempts: u32,
}

/// The step at hand. Whoever drives the publishing performs it and hands the outcome
/// back with `resume`, until the step is `Finished` or `Failed`.
pub enum PublishStep {
    Discover(DiscoverRequest),
    Register(RegisterRequest),
    SendHeartbeat(HeartbeatRequest),
    Store(StoreRequest),
    AwaitRelay(RelayRequest),
    Finished(PublishResult),
    Failed(String),
}

/// The value of a [`PublishStep`].
pub enum PublishStepView {
    Discover(bool),
    Register(PublicationView),
    SendHeartbeat(PublicationView, Session),
    Store(PublicationView, Session),
    AwaitRelay(PublicationView, Seq<char>, u32),
    Finished(PublishResultView),
    Failed(Seq<char>),
}

impl View for PublishStep {
    type V = PublishStepView;

    open spec fn view(&self) -> PublishStepView {
        match *self {
            PublishStep::Discover(request) => PublishStepView::Discover(request.firewall_requested),
            PublishStep::Register(request) => PublishStepView::Register(request.publication@),
            PublishStep::SendHeartbeat(request) => PublishStepView::SendHeartbeat(
                request.publication@,
                request.session,
            ),
            PublishStep::Store(request) => PublishStepView::Store(
                request.publication@,
                request.session,
            ),
            PublishStep::AwaitRelay(request) => PublishStepView::AwaitRelay(
                request.publication@,
                request.server_id@,
                request.attempts,
            ),
            PublishStep::Finished(result) => PublishStepView::Finished(result@),
            PublishStep::Failed(message) => PublishStepView::Failed(message@),
        }
    }
}

/// The outcome of a step.
pub enum PublishEvent {
    Discovered(Result<Mapping, Seq<char>>),
    Registered(Result<RegistrationReply, HttpFailure>),
    HeartbeatSent(Result<(), HeartbeatFailure>),
    Stored(bool),
    Waited(Option<Endpoint>),
}

/// The step that begins the publishing, once the firewall has been asked.
pub open spec fn first_step(firewall: Result<bool, Seq<char>>) -> PublishStepView {
    match firewall {
        Ok(firewall_requested) => PublishStepView::Discover(firewall_requested),
        Err(message) => PublishStepView::Failed(message),
    }
}

/// What is known once a router has been asked for a direct way. A mapping whose outer
/// address is not a public one leads nowhere.
pub open spec fn discovered(
    firewall_requested: bool,
    found: Result<Mapping, Seq<char>>,
) -> PublicationView {
    match found {
        Ok(mapping) => if is_public(mapping.public_ip) {
            PublicationView {
                firewall_requested,
                endpoint: Some(
                    Endpoint { host_name: mapping.host_name, host_port: BDS_PORT, mode: "direct" },
                ),
                local_address: Some(mapping.local_address@),
                upnp_mapped: true,
                warning: None,
            }
        } else {
            PublicationView {
                firewall_requested,
                endpoint: None,
                local_address: Some(mapping.local_address@),
                upnp_mapped: true,
                warning: Some(
                    "CGNATまたは二重ルーターを検出しました。中央中継の割当を待っています。"@,
                ),
            }
        },
        Err(message) => PublicationView {
            firewall_requested,
            endpoint: None,
            local_address: None,
            upnp_mapped: false,
            warning: Some(message + " 中央中継の割当を待っています。"@),
        },
    }
}

/// A host and a port in writing.
pub open spec fn address_text(endpoint: Endpoint) -> Seq<char> {
    endpoint.host_name@ + ":"@ + decimal(endpoint.host_port as nat)
}

/// The result that publishing ends in.
pub open spec fn published(publication: PublicationView, server_id: Seq<char>) -> PublishResultView {
    PublishResultView {
        server_id,
        public_address: match publication.endpoint {
            Some(endpoint) => Some(address_text(endpoint)),
            None => None,
        },
        local_address: publication.local_address,
        port: BDS_PORT,
        firewall_requested: publication.firewall_requested,
        upnp_mapped: publication.upnp_mapped,
        warning: publication.warning,
    }
}

/// The step that follows from an outcome. An outcome of another step changes nothing.
pub open spec fn after(step: PublishStepView, event: PublishEvent) -> PublishStepView {
    match (step, event) {
        (
            PublishStepView::Discover(firewall_requested),
            PublishEvent::Discovered(found),
        ) => PublishStepView::Register(discovered(firewall_requested, found)),
        (
            PublishStepView::Register(publication),
            PublishEvent::Registered(registered),
        ) => match registered {
            Ok(reply) => PublishStepView::SendHeartbeat(
                publication,
                Session { id: reply.id, token: reply.token, endpoint: publication.endpoint },
            ),
            Err(failure) => PublishStepView::Failed(
                worded(
                    failure,
                    "中央サーバーへ登録できませんでした: "@,
                    "中央サーバーが登録を拒否しました: "@,
                    "中央サーバーの応答を解析できませんでした: "@,
                ),
            ),
        },
        (
            PublishStepView::SendHeartbeat(publication, session),
            PublishEvent::HeartbeatSent(sent),
        ) => match sent {
            Ok(()) => PublishStepView::Store(publication, session),
            Err(failure) => PublishStepView::Failed(failure.text()),
        },
        (PublishStepView::Store(publication, session), PublishEvent::Stored(stored)) => if !stored {
            PublishStepView::Failed("ネットワーク状態を保存できませんでした"@)
        } else if publication.endpoint is Some {
            PublishStepView::Finished(published(publication, session.id@))
        } else {
            PublishStepView::AwaitRelay(publication, session.id@, 0)
        },
        (
            PublishStepView::AwaitRelay(publication, server_id, attempts),
            PublishEvent::Waited(assigned),
        ) => if assigned is Some {
            PublishStepView::Finished(
                published(
                    PublicationView { endpoint: assigned, warning: None, ..publication },
                    server_id,
                ),
            )
        } else if attempts + 1 >= RELAY_ATTEMPTS {
            PublishStepView::Finished(published(publication, server_id))
        } else {
            PublishStepView::AwaitRelay(publication, server_id, (attempts + 1) as u32)
        },
        _ => step,
    }
}

/// Begins the publishing once the firewall has been asked.
pub fn begin_publish(firewall: Result<bool, String>) -> (step: PublishStep)
    ensures
        step@ == first_step(outcome(firewall)),
{
    match firewall {
        Ok(firewall_requested) => PublishStep::Discover(DiscoverRequest { firewall_requested }),
        Err(message) => PublishStep::Failed(message),
    }
}

/// The result that publishing ends in.
fn finish(publication: Publication, server_id: String) -> (result: PublishResult)
    ensures
        result@ == published(publication@, server_id@),
        publication@.endpoint matches Some(endpoint) ==> result@.public_address == Some(
            endpoint.host_name@ + ":"@ + decimal(endpoint.host_port as nat),
        ),
{
    let public_address: Option<String> = match &publication.endpoint {
        Some(endpoint) => {
            let port: String = decimal_text(endpoint.host_port as u64);
            Some(join3(endpoint.host_name.as_str(), ":", port.as_str()))
        },
        None => None,
    };
    PublishResult {
        server_id,
        public_address,
        local_address: publication.local_address,
        port: BDS_PORT,
        firewall_requested: publication.firewall_requested,
        upnp_mapped: publication.upnp_mapped,
        warning: publication.warning,
    }
}

impl DiscoverRequest {
    /// What follows from the mapping, if a router made one.
    pub fn resume(self, found: Result<Mapping, String>) -> (step: PublishStep)
        ensures
            step@ == after(
                PublishStepView::Discover(self.firewall_requested),
                PublishEvent::Discovered(outcome(found)),
            ),
    {
        let firewall_requested: bool = self.firewall_requested;
        let publication: Publication = match found {
            Ok(mapping) => if is_public_ip(mapping.public_ip) {
                Publication {
                    firewall_requested,
                    endpoint: Some(
                        Endpoint {
                            host_name: mapping.host_name,
                            host_port: BDS_PORT,
                            mode: "direct",
                        },
                    ),
                    local_address: Some(mapping.local_address),
                    upnp_mapped: true,
                    warning: None,
                }
            } else {
                Publication {
                    firewall_requested,
                    endpoint: None,
                    local_address: Some(mapping.local_address),
                    upnp_mapped: true,
                    warning: Some(
                        "CGNATまたは二重ルーターを検出しました。中央中継の割当を待っています。".to_owned(),
                    ),
                }
            },
            Err(message) => Publication {
                firewall_requested,
                endpoint: None,
                local_address: None,
                upnp_mapped: false,
                warning: Some(join(message.as_str(), " 中央中継の割当を待っています。")),
            },
        };
        PublishStep::Register(RegisterRequest { publication })
    }
}

impl RegisterRequest {
    /// What follows from the answer of the directory.
    pub fn resume(self, registered: Result<RegistrationReply, HttpFailure>) -> (step: PublishStep)
        ensures
            step@ == after(
                PublishStepView::Register(self.publication@),
                PublishEvent::Registered(registered),
            ),
    {
        match registered {
            Ok(reply) => {
                let endpoint: Option<Endpoint> = match &self.publication.endpoint {
                    Some(endpoint) => Some(endpoint.clone()),
                    None => None,
                };
                let session = Session { id: reply.id, token: reply.token, endpoint };
                PublishStep::SendHeartbeat(
                    HeartbeatRequest { publication: self.publication, session },
                )
            },
            Err(failure) => PublishStep::Failed(
                failure.message(
                    "中央サーバーへ登録できませんでした: ",
                    "中央サーバーが登録を拒否しました: ",
                    "中央サーバーの応答を解析できませんでした: ",
                ),
            ),
        }
    }
}

impl HeartbeatRequest {
    /// What to tell the directory.
    pub fn told(&self) -> (told: Heartbeat)
        ensures
            is_heartbeat(self.session, told),
    {
        heartbeat(&self.session)
    }

    /// What follows once the directory was told, or could not be.
    pub fn resume(self, sent: Result<(), HeartbeatFailure>) -> (step: PublishStep)
        ensures
            step@ == after(
                PublishStepView::SendHeartbeat(self.publication@, self.session),
                PublishEvent::HeartbeatSent(sent),
            ),
    {
        match sent {
            Ok(()) => PublishStep::Store(
                StoreRequest { publication: self.publication, session: self.session },
            ),
            Err(failure) => PublishStep::Failed(failure.message()),
        }
    }
}

impl StoreRequest {
    /// Whether a relay has to be asked for once the session was noted: there is no
    /// direct way.
    pub fn needs_relay(&self) -> (yes: bool)
        ensures
            yes == (self.publication@.endpoint is None),
    {
        self.publication.endpoint.is_none()
    }

    /// What follows once the session was noted, or could not be.
    pub fn resume(self, stored: bool) -> (step: PublishStep)
        ensures
            step@ == after(
                PublishStepView::Store(self.publication@, self.session),
                PublishEvent::Stored(stored),
            ),
    {
        if !stored {
            PublishStep::Failed("ネットワーク状態を保存できませんでした".to_owned())
        } else if self.publication.endpoint.is_some() {
            PublishStep::Finished(finish(self.publication, self.session.id))
        } else {
            PublishStep::AwaitRelay(
                RelayRequest {
                    publication: self.publication,
                    server_id: self.session.id,
                    attempts: 0,
                },
            )
        }
    }
}

impl RelayRequest {
    /// What follows from the way over a relay, if one was assigned.
    pub fn resume(self, assigned: Option<Endpoint>) -> (step: PublishStep)
        requires
            self.attempts < RELAY_ATTEMPTS,
        ensures
            step@ == after(
                PublishStepView::AwaitRelay(self.publication@, self.server_id@, self.attempts),
                PublishEvent::Waited(assigned),
            ),
    {
        let mut publication: Publication = self.publication;
        if assigned.is_some() {
            publication.endpoint = assigned;
            publication.warning = None;
            PublishStep::Finished(finish(publication, self.server_id))
        } else if self.attempts + 1 >= RELAY_ATTEMPTS {
            PublishStep::Finished(finish(publication, self.server_id))
        } else {
            PublishStep::AwaitRelay(
                RelayRequest {
                    publication,
                    server_id: self.server_id,
                    attempts: self.attempts + 1,
                },
            )
        }
    }
}

/// The step that a sequence of outcomes leads to.
pub open spec fn after_all(step: PublishStepView, events: Seq<PublishEvent>) -> PublishStepView
    decreases events.len(),
{
    if events.len() == 0 {
        step
    } else {
        after(after_all(step, events.drop_last()), events.last())
    }
}

/// What holds of a publication: it warns exactly as long as nobody can reach the
/// server, and it knows the local address exactly if a router made a mapping.
pub open spec fn publication_holds(publication: PublicationView, firewall_requested: bool) -> bool {
    &&& publication.endpoint is Some <==> publication.warning is None
    &&& publication.local_address is Some <==> publication.upnp_mapped
    &&& publication.firewall_requested == firewall_requested
}

/// What holds of every step of publishing a server.
pub open spec fn step_holds(step: PublishStepView, firewall_requested: bool) -> bool {
    match step {
        PublishStepView::Discover(requested) => requested == firewall_requested,
        PublishStepView::Register(publication) => publication_holds(
            publication,
            firewall_requested,
        ),
        PublishStepView::SendHeartbeat(publication, session) => publication_holds(
            publication,
            firewall_requested,
        ) && session.endpoint == publication.endpoint,
        PublishStepView::Store(publication, session) => publication_holds(
            publication,
            firewall_requested,
        ) && session.endpoint == publication.endpoint,
        PublishStepView::AwaitRelay(publication, _, attempts) => publication_holds(
            publication,
            firewall_requested,
        ) && publication.endpoint is None && attempts < RELAY_ATTEMPTS,
        PublishStepView::Finished(result) => {
            &&& result.public_address is Some <==> result.warning is None
            &&& result.local_address is Some <==> result.upnp_mapped
            &&& result.port == BDS_PORT
            &&& result.firewall_requested == firewall_requested
        },
        PublishStepView::Failed(_) => true,
    }
}

/// Whatever the outcomes are: a relay is waited for only where there is no direct way
/// and only so often, and what is published warns exactly if it has no public address.
pub proof fn publishing_warns_without_an_address(
    firewall_requested: bool,
    events: Seq<PublishEvent>,
)
    ensures
        step_holds(after_all(first_step(Ok(firewall_requested)), events), firewall_requested),
    decreases events.len(),
{
    if events.len() > 0 {
        publishing_warns_without_an_address(firewall_requested, events.drop_last());
    }
}

/// Once the session was noted, a relay is waited for exactly where one has to be asked
/// for: where there is no direct way.
pub proof fn relays_are_waited_for_without_a_direct_way(
    publication: PublicationView,
    session: Session,
)
    ensures
        after(
            PublishStepView::Store(publication, session),
            PublishEvent::Stored(true),
        ) is AwaitRelay <==> publication.endpoint is None,
{
}

/// Whether a relay is all that was waited for, in vain.
pub open spec fn are_vain_waits(events: Seq<PublishEvent>) -> bool {
    forall|i: int|
        0 <= i < events.len() ==> #[trigger] events[i] == PublishEvent::Waited(None::<Endpoint>)
}

/// A relay that is not assigned is waited for so often and no more. Then the server is
/// published all the same, with the warning that it had.
pub proof fn relays_are_waited_for_so_often(
    publication: PublicationView,
    server_id: Seq<char>,
    events: Seq<PublishEvent>,
)
    requires
        are_vain_waits(events),
        events.len() <= RELAY_ATTEMPTS,
    ensures
        after_all(PublishStepView::AwaitRelay(publication, server_id, 0), events) == if events.len()
            < RELAY_ATTEMPTS {
            PublishStepView::AwaitRelay(publication, server_id, events.len() as u32)
        } else {
            PublishStepView::Finished(published(publication, server_id))
        },
    decreases events.len(),
{
    if events.len() > 0 {
        assert(are_vain_waits(events.drop_last())) by {
            assert forall|i: int| 0 <= i < events.drop_last().len() implies #[trigger] events.drop_last()[i]
                == PublishEvent::Waited(None::<Endpoint>) by {
                assert(events[i] == PublishEvent::Waited(None::<Endpoint>));
            }
        }
        relays_are_waited_for_so_often(publication, server_id, events.drop_last());
        assert(events.last() == PublishEvent::Waited(None::<Endpoint>));
    }
}

/// The address of a relay that is assigned while it is waited for is published, and
/// nothing is warned of any more.
pub proof fn assigned_relays_are_published(
    publication: PublicationView,
    server_id: Seq<char>,
    attempts: u32,
    relay: Endpoint,
)
    ensures
        after(
            PublishStepView::AwaitRelay(publication, server_id, attempts),
            PublishEvent::Waited(Some(relay)),
        ) == PublishStepView::Finished(
            PublishResultView {
                public_address: Some(address_text(relay)),
                warning: None,
                ..published(publication, server_id)
            },
        ),
{
}

/// Whether the step publishes the server at the address of `mapping`, or fails to.
pub open spec fn publishes_directly(step: PublishStepView, mapping: Mapping) -> bool {
    let endpoint = Endpoint {
        host_name: mapping.host_name,
        host_port: BDS_PORT,
        mode: "direct",
    };
    match step {
        PublishStepView::Discover(_) => false,
        PublishStepView::Register(publication) => publication.endpoint == Some(endpoint),
        PublishStepView::SendHeartbeat(publication, session) => publication.endpoint == Some(
            endpoint,
        ) && session.endpoint == Some(endpoint),
        PublishStepView::Store(publication, session) => publication.endpoint == Some(endpoint)
            && session.endpoint == Some(endpoint),
        PublishStepView::AwaitRelay(_, _, _) => false,
        PublishStepView::Finished(result) => result.public_address == Some(address_text(endpoint)),
        PublishStepView::Failed(_) => true,
    }
}

/// Where a router opened the port and its outer address is a public one, that address
/// is what is registered and published, and no relay is waited for.
pub proof fn direct_ways_are_published(
    firewall_requested: bool,
    mapping: Mapping,
    events: Seq<PublishEvent>,
)
    requires
        is_public(mapping.public_ip),
    ensures
        publishes_directly(
            after_all(
                after(
                    PublishStepView::Discover(firewall_requested),
                    PublishEvent::Discovered(Ok(mapping)),
                ),
                events,
            ),
            mapping,
        ),
    decreases events.len(),
{
    if events.len() > 0 {
        direct_ways_are_published(firewall_requested, mapping, events.drop_last());
    }
}

/// Wherever publishing finishes over a known way, direct or over a relay, the address
/// that is published is the host and the port of that way, whatever they are.
pub proof fn published_addresses_are_the_host_and_the_port(
    publication: PublicationView,
    session: Session,
    attempts: u32,
    endpoint: Endpoint,
)
    ensures
        after(
            PublishStepView::AwaitRelay(publication, session.id@, attempts),
            PublishEvent::Waited(Some(endpoint)),
        ) matches PublishStepView::Finished(result) && result.public_address == Some(
            endpoint.host_name@ + ":"@ + decimal(endpoint.host_port as nat),
        ) && result.server_id == session.id@,
        publication.endpoint == Some(endpoint) ==> (after(
            PublishStepView::Store(publication, session),
            PublishEvent::Stored(true),
        ) matches PublishStepView::Finished(result) && result.public_address == Some(
            endpoint.host_name@ + ":"@ + decimal(endpoint.host_port as nat),
        ) && result.server_id == session.id@),
{
}

/// Two ways that differ in their hosts or their ports are published under different
/// addresses.
pub proof fn different_ways_have_different_addresses(a: Endpoint, b: Endpoint)
    requires
        a.host_name@ != b.host_name@ || a.host_port != b.host_port,
    ensures
        address_text(a) != address_text(b),
{
    reveal_strlit(":");
    let x = decimal(a.host_port as nat);
    let y = decimal(b.host_port as nat);
    decimals_can_be_read_back(a.host_port as nat);
    decimals_can_be_read_back(b.host_port as nat);
    if address_text(a) == address_text(b) {
        let text = address_text(a);
        assert(text =~= a.host_name@ + ":"@ + x);
        assert(text =~= b.host_name@ + ":"@ + y);
        if x.len() == y.len() {
            assert(x =~= text.skip(text.len() - x.len()));
            assert(y =~= text.skip(text.len() - y.len()));
            if a.host_port != b.host_port {
                different_numbers_are_written_differently(
                    a.host_port as nat,
                    b.host_port as nat,
                );
            }
            assert(a.host_name@ =~= text.take(text.len() - x.len() - 1));
            assert(b.host_name@ =~= text.take(text.len() - y.len() - 1));
        } else if x.len() < y.len() {
            let i = text.len() - x.len() - 1;
            assert(text[i] == ':');
            assert(text[i] == y[i - (text.len() - y.len())]);
        } else {
            let i = text.len() - y.len() - 1;
            assert(text[i] == ':');
            assert(text[i] == x[i - (text.len() - x.len())]);
        }
    }
}

/// The step that publishing comes to once a router was asked, the directory has
/// registered the server and was told of it, and the session was noted.
pub open spec fn once_stored(
    firewall_requested: bool,
    found: Result<Mapping, Seq<char>>,
    reply: RegistrationReply,
) -> PublishStepView {
    let register = after(
        PublishStepView::Discover(firewall_requested),
        PublishEvent::Discovered(found),
    );
    let told = after(register, PublishEvent::Registered(Ok(reply)));
    let store = after(told, PublishEvent::HeartbeatSent(Ok(())));
    after(store, PublishEvent::Stored(true))
}

/// What publishing comes to where nothing fails. Where a router opened the port and has a
/// public address, the server is published there. Else it is published at the relay that
/// is assigned, and where none is, without an address and with a warning that says why.
/// Either way the result names the server that the directory registered, the port, the
/// local address if a router opened the port, and whether the firewall was asked.
pub proof fn publishing_without_trouble(
    firewall_requested: bool,
    found: Result<Mapping, Seq<char>>,
    reply: RegistrationReply,
    relay: Endpoint,
    vain: Seq<PublishEvent>,
)
    requires
        are_vain_waits(vain),
        vain.len() == 40,
    ensures
        ({
            let step = once_stored(firewall_requested, found, reply);
            let result = PublishResultView {
                server_id: reply.id@,
                public_address: None,
                local_address: match found {
                    Ok(mapping) => Some(mapping.local_address@),
                    Err(_) => None,
                },
                port: 19132,
                firewall_requested,
                upnp_mapped: found is Ok,
                warning: None,
            };
            if found is Ok && is_public(found->Ok_0.public_ip) {
                step == PublishStepView::Finished(
                    PublishResultView {
                        public_address: Some(found->Ok_0.host_name@ + ":"@ + "19132"@),
                        ..result
                    },
                )
            } else {
                &&& after(step, PublishEvent::Waited(Some(relay))) == PublishStepView::Finished(
                    PublishResultView {
                        public_address: Some(
                            relay.host_name@ + ":"@ + decimal(relay.host_port as nat),
                        ),
                        ..result
                    },
                )
                &&& after_all(step, vain.drop_last()) is AwaitRelay
                &&& after_all(step, vain) == PublishStepView::Finished(
                    PublishResultView {
                        warning: match found {
                            Ok(_) => Some(
                                "CGNATまたは二重ルーターを検出しました。中央中継の割当を待っています。"@,
                            ),
                            Err(message) => Some(message + " 中央中継の割当を待っています。"@),
                        },
                        ..result
                    },
                )
            }
        }),
{
    lemma_port_is_written(BDS_PORT as nat);
    let publication = discovered(firewall_requested, found);
    if publication.endpoint is None {
        relays_are_waited_for_so_often(publication, reply.id@, vain);
        assert forall|i: int| 0 <= i < vain.drop_last().len() implies #[trigger] vain.drop_last()[i]
            == PublishEvent::Waited(None::<Endpoint>) by {
            assert(vain[i] == PublishEvent::Waited(None::<Endpoint>));
        }
        relays_are_waited_for_so_often(publication, reply.id@, vain.drop_last());
    }
}

/// What the directory is told of a new server is told of the one that it registered: with
/// its id, its token, and the direct way if there is one.
pub proof fn sessions_are_the_registered_ones(
    publication: PublicationView,
    reply: RegistrationReply,
)
    ensures
        ({
            let told = after(
                PublishStepView::Register(publication),
                PublishEvent::Registered(Ok(reply)),
            );
            &&& told matches PublishStepView::SendHeartbeat(_, session)
            &&& session.id@ == reply.id@
            &&& session.token@ == reply.token@
            &&& session.endpoint == publication.endpoint
            &&& after(told, PublishEvent::HeartbeatSent(Ok(()))) == PublishStepView::Store(
                publication,
                session,
            )
        }),
{
}

/// Publishing fails exactly where the directory cannot be asked or told, or the session
/// cannot be noted. That no router opens the port, or that no relay is assigned, is no
/// reason.
pub proof fn publishing_fails_exactly_where_there_is_trouble(
    step: PublishStepView,
    event: PublishEvent,
)
    requires
        step !is Failed,
    ensures
        after(step, event) is Failed <==> {
            ||| step is Register && event is Registered && event->Registered_0 is Err
            ||| step is SendHeartbeat && event is HeartbeatSent && event->HeartbeatSent_0 is Err
            ||| step is Store && event == PublishEvent::Stored(false)
        },
{
}

/// What is said where publishing fails: what failed, and all that is known of why.
pub proof fn failed_publishing_is_told_in_full(
    publication: PublicationView,
    session: Session,
    failure: HttpFailure,
    detail: String,
    message: Seq<char>,
)
    ensures
        first_step(Ok(true)) == PublishStepView::Discover(true),
        first_step(Ok(false)) == PublishStepView::Discover(false),
        first_step(Err(message)) == PublishStepView::Failed(message),
        after(
            PublishStepView::Register(publication),
            PublishEvent::Registered(Err(failure)),
        ) == PublishStepView::Failed(
            match failure.stage {
                HttpStage::Send => "中央サーバーへ登録できませんでした: "@ + failure.detail@,
                HttpStage::Status => "中央サーバーが登録を拒否しました: "@ + failure.detail@,
                HttpStage::Body => "中央サーバーの応答を解析できませんでした: "@ + failure.detail@,
            },
        ),
        after(
            PublishStepView::SendHeartbeat(publication, session),
            PublishEvent::HeartbeatSent(Err(HeartbeatFailure::Send(detail))),
        ) == PublishStepView::Failed("heartbeatを送信できませんでした: "@ + detail@),
        after(
            PublishStepView::SendHeartbeat(publication, session),
            PublishEvent::HeartbeatSent(Err(HeartbeatFailure::Status(detail))),
        ) == PublishStepView::Failed("heartbeatが拒否されました: "@ + detail@),
        after(
            PublishStepView::Store(publication, session),
            PublishEvent::Stored(false),
        ) == PublishStepView::Failed("ネットワーク状態を保存できませんでした"@),
{
}

} // verus!
