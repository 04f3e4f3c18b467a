//! The course of looking for a direct way from the Internet to the server: a router is
//! asked to open the port, and then for the address under which it is known outside.

use vstd::prelude::*;

use crate::failure::outcome;
use crate::network::{IpAddress, BDS_PORT};
use crate::text::{decimal, decimal_text, join, join3, lemma_port_is_written};

verus! {

/// How long to look for routers, in seconds.
pub const SEARCH_SECONDS: u64 = 10;

/// How long a single router may take to answer, in seconds.
pub const SINGLE_SEARCH_SECONDS: u64 = 3;

/// Under which name a router is asked to open the port.
pub const MAPPING_NAME: &'static str = "Werewolf Bedrock Dedicated Server";

/// How long a router is asked to keep the port open, in seconds; none means for good.
pub const MAPPING_SECONDS: u32 = 0;

/// A port that a router has opened.
pub struct Mapping {
    /// The address of the router on its outer side.
    pub public_ip: IpAddress,
    /// That address, in writing.
    pub host_name: String,
    /// The address and port of the server on the local network.
    pub local_address: String,
}

/// How the local address could not be found.
pub enum LocalFailure {
    /// No socket could be opened towards the router.
    Socket(String),
    /// The router could not be reached.
    Route(String),
    /// The address of the socket could not be had.
    Address(String),
}

/// Look for a router.
pub struct SearchRouter {}

/// Find the address under which the router knows this machine.
pub struct FindLocalAddress {}

/// Ask the router to pass the port on to the local address.
pub struct OpenPort {
    pub local_address: String,
}

/// Ask the router for its address on its outer side.
pub struct AskPublicAddress {
    pub local_address: String,
}

/// The step at hand. Whoever looks for the way performs it and hands the outcome back
/// with `resume`, until the step is `Found` or `Failed`.
pub enum DiscoveryStep {
    Search(SearchRouter),
    FindLocal(FindLocalAddress),
    OpenPort(OpenPort),
    AskPublic(AskPublicAddress),
    Found(Mapping),
    Failed(String),
}

/// The value of a [`DiscoveryStep`].
pub enum DiscoveryStepView {
    Search,
    FindLocal,
    OpenPort(Seq<char>),
    AskPublic(Seq<char>),
    /// The outer address, that address in writing, and the local address.
    Found(IpAddress, Seq<char>, Seq<char>),
    Failed(Seq<char>),
}

impl View for DiscoveryStep {
    type V = DiscoveryStepView;

    open spec fn view(&self) -> DiscoveryStepView {
        match *self {
            DiscoveryStep::Search(_) => DiscoveryStepView::Search,
            DiscoveryStep::FindLocal(_) => DiscoveryStepView::FindLocal,
            DiscoveryStep::OpenPort(request) => DiscoveryStepView::OpenPort(
                request.local_address@,
            ),
            DiscoveryStep::AskPublic(request) => DiscoveryStepView::AskPublic(
                request.local_address@,
            ),
            DiscoveryStep::Found(mapping) => DiscoveryStepView::Found(
                mapping.public_ip,
                mapping.host_name@,
                mapping.local_address@,
            ),
            DiscoveryStep::Failed(message) => DiscoveryStepView::Failed(message@),
        }
    }
}

/// The outcome of a step.
pub enum DiscoveryEvent {
    Searched(Result<(), Seq<char>>),
    LocalFound(Result<Seq<char>, LocalFailure>),
    PortOpened(Result<(), Seq<char>>),
    PublicTold(Result<(IpAddress, Seq<char>), Seq<char>>),
}

/// The address and port of the server on the local network, where this machine is known
/// there by the address `ip`.
pub open spec fn server_address(ip: Seq<char>) -> Seq<char> {
    ip + ":"@ + decimal(BDS_PORT as nat)
}

/// The address and port of the server on the local network, where this machine is known
/// there by the address `ip` of version 4.
pub fn local_server_address(ip: &str) -> (address: String)
    ensures
        address@ == server_address(ip@),
{
    let port: String = decimal_text(BDS_PORT as u64);
    join3(ip, ":", port.as_str())
}

/// What is said when the local address could not be found.
pub open spec fn local_failure_text(failure: LocalFailure) -> Seq<char> {
    match failure {
        LocalFailure::Socket(detail) => "ローカルネットワークを確認できませんでした: "@ + detail@,
        LocalFailure::Route(detail) => "ルーターへ接続できませんでした: "@ + detail@,
        LocalFailure::Address(detail) => "ローカルIPを取得できませんでした: "@ + detail@,
    }
}

/// The step that follows from an outcome. An outcome of another step changes nothing.
pub open spec fn after(step: DiscoveryStepView, event: DiscoveryEvent) -> DiscoveryStepView {
    match (step, event) {
        (DiscoveryStepView::Search, DiscoveryEvent::Searched(searched)) => match searched {
            Ok(()) => DiscoveryStepView::FindLocal,
            Err(detail) => DiscoveryStepView::Failed(
                "UPnP対応ルーターを検出できませんでした: "@ + detail + "."@,
            ),
        },
        (DiscoveryStepView::FindLocal, DiscoveryEvent::LocalFound(found)) => match found {
            Ok(ip) => DiscoveryStepView::OpenPort(server_address(ip)),
            Err(failure) => DiscoveryStepView::Failed(local_failure_text(failure)),
        },
        (
            DiscoveryStepView::OpenPort(local_address),
            DiscoveryEvent::PortOpened(opened),
        ) => match opened {
            Ok(()) => DiscoveryStepView::AskPublic(local_address),
            Err(detail) => DiscoveryStepView::Failed(
                "ルーターでUDP "@ + decimal(BDS_PORT as nat) + "を開放できませんでした: "@ + detail,
            ),
        },
        (
            DiscoveryStepView::AskPublic(local_address),
            DiscoveryEvent::PublicTold(told),
        ) => match told {
            Ok((public_ip, host_name)) => DiscoveryStepView::Found(
                public_ip,
                host_name,
                local_address,
            ),
            Err(detail) => DiscoveryStepView::Failed(
                "ルーターの公開IPを取得できませんでした: "@ + detail,
            ),
        },
        _ => step,
    }
}

/// Begins the search.
pub fn begin_discovery() -> (step: DiscoveryStep)
    ensures
        step@ == DiscoveryStepView::Search,
{
    DiscoveryStep::Search(SearchRouter {  })
}

impl SearchRouter {
    /// What follows once a router was found, or could not be.
    pub fn resume(self, searched: Result<(), String>) -> (step: DiscoveryStep)
        ensures
            step@ == after(
                DiscoveryStepView::Search,
                DiscoveryEvent::Searched(outcome(searched)),
            ),
    {
        match searched {
            Ok(()) => DiscoveryStep::FindLocal(FindLocalAddress {  }),
            Err(detail) => DiscoveryStep::Failed(
                join3("UPnP対応ルーターを検出できませんでした: ", detail.as_str(), "."),
            ),
        }
    }
}

impl FindLocalAddress {
    /// What follows once the local address, of version 4, was found, or could not be.
    pub fn resume(self, found: Result<String, LocalFailure>) -> (step: DiscoveryStep)
        ensures
            step@ == after(
                DiscoveryStepView::FindLocal,
                DiscoveryEvent::LocalFound(
                    match found {
                        Ok(ip) => Ok(ip@),
                        Err(failure) => Err(failure),
                    },
                ),
            ),
    {
        match found {
            Ok(ip) => DiscoveryStep::OpenPort(
                OpenPort { local_address: local_server_address(ip.as_str()) },
            ),
            Err(LocalFailure::Socket(detail)) => DiscoveryStep::Failed(
                join("ローカルネットワークを確認できませんでした: ", detail.as_str()),
            ),
            Err(LocalFailure::Route(detail)) => DiscoveryStep::Failed(
                join("ルーターへ接続できませんでした: ", detail.as_str()),
            ),
            Err(LocalFailure::Address(detail)) => DiscoveryStep::Failed(
                join("ローカルIPを取得できませんでした: ", detail.as_str()),
            ),
        }
    }
}

impl OpenPort {
    /// What follows once the port was opened, or could not be.
    pub fn resume(self, opened: Result<(), String>) -> (step: DiscoveryStep)
        ensures
            step@ == after(
                DiscoveryStepView::OpenPort(self.local_address@),
                DiscoveryEvent::PortOpened(outcome(opened)),
            ),
    {
        match opened {
            Ok(()) => DiscoveryStep::AskPublic(
                AskPublicAddress { local_address: self.local_address },
            ),
            Err(detail) => {
                let port: String = decimal_text(BDS_PORT as u64);
                let mut message: String = join3(
                    "ルーターでUDP ",
                    port.as_str(),
                    "を開放できませんでした: ",
                );
                message.append(detail.as_str());
                DiscoveryStep::Failed(message)
            },
        }
    }
}

impl AskPublicAddress {
    /// What follows once the router told its outer address, also in writing, or did not.
    pub fn resume(self, told: Result<(IpAddress, String), String>) -> (step: DiscoveryStep)
        ensures
            step@ == after(
                DiscoveryStepView::AskPublic(self.local_address@),
                DiscoveryEvent::PublicTold(
                    match told {
                        Ok((public_ip, host_name)) => Ok((public_ip, host_name@)),
                        Err(detail) => Err(detail@),
                    },
                ),
            ),
    {
        match told {
            Ok((public_ip, host_name)) => DiscoveryStep::Found(
                Mapping { public_ip, host_name, local_address: self.local_address },
            ),
            Err(detail) => DiscoveryStep::Failed(
                join("ルーターの公開IPを取得できませんでした: ", detail.as_str()),
            ),
        }
    }
}

/// The step that a sequence of outcomes leads to.
pub open spec fn after_all(step: DiscoveryStepView, events: Seq<DiscoveryEvent>) -> DiscoveryStepView
    decreases events.len(),
{
    if events.len() == 0 {
        step
    } else {
        after(after_all(step, events.drop_last()), events.last())
    }
}

/// Whether the router opened the port among these outcomes.
pub open spec fn port_was_opened(events: Seq<DiscoveryEvent>) -> bool {
    exists|i: int|
        0 <= i < events.len() && (#[trigger] events[i] matches DiscoveryEvent::PortOpened(Ok(_)))
}

/// Whether `local` is the address of the server for a local address that was found among
/// these outcomes.
pub open spec fn local_was_found(events: Seq<DiscoveryEvent>, local: Seq<char>) -> bool {
    exists|ip: Seq<char>|
        local == #[trigger] server_address(ip) && events.contains(
            DiscoveryEvent::LocalFound(Ok(ip)),
        )
}

/// Whether the step comes with an open port.
pub open spec fn has_open_port(step: DiscoveryStepView) -> bool {
    step is AskPublic || step is Found
}

/// Whatever the outcomes are: a way is found only where the router opened the port, and
/// it leads to the server's port at the local address that was found, and from the outer
/// address that was told.
pub proof fn ways_lead_through_open_ports(events: Seq<DiscoveryEvent>)
    ensures
        ({
            let step = after_all(DiscoveryStepView::Search, events);
            &&& has_open_port(step) ==> port_was_opened(events)
            &&& step matches DiscoveryStepView::OpenPort(local) ==> local_was_found(events, local)
            &&& step matches DiscoveryStepView::AskPublic(local) ==> local_was_found(events, local)
            &&& step matches DiscoveryStepView::Found(ip, name, local) ==> local_was_found(
                events,
                local,
            ) && events.contains(DiscoveryEvent::PublicTold(Ok((ip, name))))
        }),
    decreases events.len(),
{
    if events.len() > 0 {
        let front = events.drop_last();
        ways_lead_through_open_ports(front);
        assert(events[events.len() - 1] == events.last());
        if port_was_opened(front) {
            let i = choose|i: int|
                0 <= i < front.len() && (
                #[trigger] front[i] matches DiscoveryEvent::PortOpened(Ok(_)));
            assert(events[i] == front[i]);
        }
        assert forall|event: DiscoveryEvent| #[trigger] front.contains(event) implies events.contains(
            event,
        ) by {
            assert(events[front.index_of(event)] == event);
        }
        assert forall|local: Seq<char>| local_was_found(front, local) implies local_was_found(
            events,
            local,
        ) by {
            let ip = choose|ip: Seq<char>|
                local == #[trigger] server_address(ip) && front.contains(
                    DiscoveryEvent::LocalFound(Ok(ip)),
                );
            assert(events.contains(DiscoveryEvent::LocalFound(Ok(ip))));
        }
        if let DiscoveryEvent::LocalFound(Ok(ip)) = events.last() {
            assert(local_was_found(events, server_address(ip)));
        }
    }
}

/// Where nothing fails a way is found: from the outer address that the router tells to
/// port 19132 at the local address.
pub proof fn routers_that_help_are_enough(ip: Seq<char>, public_ip: IpAddress, name: Seq<char>)
    ensures
        ({
            let find = after(DiscoveryStepView::Search, DiscoveryEvent::Searched(Ok(())));
            let open = after(find, DiscoveryEvent::LocalFound(Ok(ip)));
            let ask = after(open, DiscoveryEvent::PortOpened(Ok(())));
            &&& open == DiscoveryStepView::OpenPort(ip + ":"@ + "19132"@)
            &&& after(ask, DiscoveryEvent::PublicTold(Ok((public_ip, name))))
                == DiscoveryStepView::Found(public_ip, name, ip + ":"@ + "19132"@)
        }),
{
    lemma_port_is_written(BDS_PORT as nat);
}

/// The search fails exactly where one of its steps does.
pub proof fn searches_fail_exactly_where_a_step_does(
    step: DiscoveryStepView,
    event: DiscoveryEvent,
)
    requires
        step !is Failed,
    ensures
        after(step, event) is Failed <==> {
            ||| step is Search && event is Searched && event->Searched_0 is Err
            ||| step is FindLocal && event is LocalFound && event->LocalFound_0 is Err
            ||| step is OpenPort && event is PortOpened && event->PortOpened_0 is Err
            ||| step is AskPublic && event is PublicTold && event->PublicTold_0 is Err
        },
{
}

/// What is said where the search fails: what failed, and all that is known of why.
pub proof fn failed_searches_are_told_in_full(
    local_address: Seq<char>,
    why: Seq<char>,
    detail: String,
)
    ensures
        after(DiscoveryStepView::Search, DiscoveryEvent::Searched(Err(why)))
            == DiscoveryStepView::Failed("UPnP対応ルーターを検出できませんでした: "@ + why + "."@),
        after(
            DiscoveryStepView::FindLocal,
            DiscoveryEvent::LocalFound(Err(LocalFailure::Socket(detail))),
        ) == DiscoveryStepView::Failed(
            "ローカルネットワークを確認できませんでした: "@ + detail@,
        ),
        after(
            DiscoveryStepView::FindLocal,
            DiscoveryEvent::LocalFound(Err(LocalFailure::Route(detail))),
        ) == DiscoveryStepView::Failed("ルーターへ接続できませんでした: "@ + detail@),
        after(
            DiscoveryStepView::FindLocal,
            DiscoveryEvent::LocalFound(Err(LocalFailure::Address(detail))),
        ) == DiscoveryStepView::Failed("ローカルIPを取得できませんでした: "@ + detail@),
        after(
            DiscoveryStepView::OpenPort(local_address),
            DiscoveryEvent::PortOpened(Err(why)),
        ) == DiscoveryStepView::Failed(
            "ルーターでUDP "@ + "19132"@ + "を開放できませんでした: "@ + why,
        ),
        after(
            DiscoveryStepView::AskPublic(local_address),
            DiscoveryEvent::PublicTold(Err(why)),
        ) == DiscoveryStepView::Failed("ルーターの公開IPを取得できませんでした: "@ + why),
{
    lemma_port_is_written(BDS_PORT as nat);
}

} // verus!
