//! Publishing a server: where players can reach it, and what the directory of servers
//! is told about it.

use vstd::prelude::*;

use crate::text::{
    chars_of, decimal, decimal_text, join, join3, lemma_port_is_written, same_text,
};

verus! {

/// The port on which the server is reached.
pub const BDS_PORT: u16 = 19132;

/// The directory of servers.
pub const DIRECTORY_URL: &'static str = "https://mc-werewolf.com/api/network/v1/servers";

/// How long to wait before the directory is told of a server again, in seconds.
pub const HEARTBEAT_SECONDS: u64 = 30;

/// An address on a network.
pub enum IpAddress {
    /// Version 4, in four bytes.
    V4([u8; 4]),
    /// Version 6, in eight groups.
    V6([u16; 8]),
}

/// Whether these four bytes are an address of a network that is not the Internet: a
/// private network, the machine itself, a link, no address at all, or the space that
/// providers share among their customers.
pub open spec fn is_local_v4(octets: Seq<u8>) -> bool {
    ||| octets[0] == 10
    ||| octets[0] == 172 && 16 <= octets[1] <= 31
    ||| octets[0] == 192 && octets[1] == 168
    ||| octets[0] == 127
    ||| octets[0] == 169 && octets[1] == 254
    ||| octets[0] == 0 && octets[1] == 0 && octets[2] == 0 && octets[3] == 0
    ||| octets[0] == 100 && 64 <= octets[1] <= 127
}

/// Whether these eight groups are the address of the machine itself, no address at
/// all, or an address that is unique to a site.
pub open spec fn is_local_v6(groups: Seq<u16>) -> bool {
    ||| (forall|i: int| 0 <= i < 7 ==> #[trigger] groups[i] == 0) && groups[7] <= 1
    ||| 0xfc00 <= groups[0] <= 0xfdff
}

/// Whether the address can be reached from the Internet.
pub open spec fn is_public(ip: IpAddress) -> bool {
    match ip {
        IpAddress::V4(octets) => !is_local_v4(octets@),
        IpAddress::V6(groups) => !is_local_v6(groups@),
    }
}

/// Whether the address can be reached from the Internet.
pub fn is_public_ip(ip: IpAddress) -> (public: bool)
    ensures
        public == is_public(ip),
{
    match ip {
        IpAddress::V4(octets) => {
            let private: bool = octets[0] == 10 || (octets[0] == 172 && 16 <= octets[1]
                && octets[1] <= 31) || (octets[0] == 192 && octets[1] == 168);
            let loopback: bool = octets[0] == 127;
            let link_local: bool = octets[0] == 169 && octets[1] == 254;
            let unspecified: bool = octets[0] == 0 && octets[1] == 0 && octets[2] == 0
                && octets[3] == 0;
            let shared: bool = octets[0] == 100 && 64 <= octets[1] && octets[1] <= 127;
            !(private || loopback || link_local || unspecified || shared)
        },
        IpAddress::V6(groups) => {
            let leading_zeros: bool = groups[0] == 0 && groups[1] == 0 && groups[2] == 0
                && groups[3] == 0 && groups[4] == 0 && groups[5] == 0 && groups[6] == 0;
            assert(leading_zeros == forall|i: int| 0 <= i < 7 ==> #[trigger] groups@[i] == 0);
            let unique_local: bool = 0xfc00 <= groups[0] && groups[0] <= 0xfdff;
            !((leading_zeros && groups[7] <= 1) || unique_local)
        },
    }
}

/// Where players reach a server.
pub struct Endpoint {
    pub host_name: String,
    pub host_port: u16,
    /// `direct` or `relay`.
    pub mode: &'static str,
}

/// A server that the directory knows.
pub struct Session {
    pub id: String,
    pub token: String,
    pub endpoint: Option<Endpoint>,
}

/// The server that is published, if one is. All tasks that deal with it share one state,
/// so it cannot be copied.
pub struct NetworkState {
    pub session: Option<Session>,
}

impl Clone for Endpoint {
    fn clone(&self) -> (copy: Self)
        ensures
            copy == *self,
    {
        Endpoint {
            host_name: self.host_name.clone(),
            host_port: self.host_port,
            mode: self.mode,
        }
    }
}

impl Clone for Session {
    fn clone(&self) -> (copy: Self)
        ensures
            copy == *self,
    {
        Session {
            id: self.id.clone(),
            token: self.token.clone(),
            endpoint: copy_endpoint(&self.endpoint),
        }
    }
}

impl Default for NetworkState {
    fn default() -> (state: Self)
        ensures
            state.session is None,
    {
        NetworkState { session: None }
    }
}

fn copy_endpoint(endpoint: &Option<Endpoint>) -> (copy: Option<Endpoint>)
    ensures
        copy == *endpoint,
{
    match endpoint {
        Some(endpoint) => Some(endpoint.clone()),
        None => None,
    }
}

impl NetworkState {
    /// The server that is published.
    pub fn current(&self) -> (session: Option<Session>)
        ensures
            session == self.session,
    {
        match &self.session {
            Some(session) => Some(session.clone()),
            None => None,
        }
    }

    /// Notes that `session` is published.
    pub fn store(&mut self, session: Session)
        ensures
            final(self).session == Some(session),
    {
        self.session = Some(session);
    }

    /// Where players reach the server that is published, if that is known.
    pub fn assigned(&self) -> (endpoint: Option<Endpoint>)
        ensures
            endpoint == match self.session {
                Some(session) => session.endpoint,
                None => None,
            },
    {
        match &self.session {
            Some(session) => copy_endpoint(&session.endpoint),
            None => None,
        }
    }

    /// Whether the server that is published has this id.
    pub open spec fn publishes(self, id: Seq<char>) -> bool {
        self.session is Some && self.session->0.id@ == id
    }

    /// Whether the server that is published has this id.
    pub fn is_active(&self, id: &str) -> (active: bool)
        ensures
            active == self.publishes(id@),
    {
        match &self.session {
            Some(session) => same_text(session.id.as_str(), id),
            None => false,
        }
    }

    /// Notes where players reach the server `id`, if it is still the one that is
    /// published, and gives its session back.
    pub fn assign(&mut self, id: &str, endpoint: Endpoint) -> (updated: Option<Session>)
        ensures
            old(self).publishes(id@) ==> updated == Some(
                Session { endpoint: Some(endpoint), ..old(self).session->0 },
            ) && final(self).session == updated,
            !old(self).publishes(id@) ==> updated is None && *final(self) == *old(self),
    {
        if self.is_active(id) {
            match self.session.take() {
                Some(session) => {
                    let updated = Session {
                        id: session.id,
                        token: session.token,
                        endpoint: Some(endpoint),
                    };
                    self.session = Some(updated.clone());
                    Some(updated)
                },
                None => None,
            }
        } else {
            None
        }
    }
}

/// What the directory is told of a new server.
pub struct Registration {
    pub display_name: &'static str,
    pub world_name: &'static str,
    pub max_players: u32,
}

/// What the directory is told of a new server.
pub fn registration() -> (told: Registration)
    ensures
        told.display_name@ == "Werewolf Server"@,
        told.world_name@ == "Werewolf"@,
        told.max_players == 10,
{
    Registration { display_name: "Werewolf Server", world_name: "Werewolf", max_players: 10 }
}

/// What the directory is told of a server from time to time.
pub struct Heartbeat {
    pub url: String,
    pub token: String,
    pub player_count: u32,
    pub max_players: u32,
    pub status: &'static str,
    pub connection_mode: &'static str,
    pub host_name: Option<String>,
    pub host_port: Option<u16>,
}

/// Whether `told` is what the directory is told of `session`: that it is online and
/// where, or that it is starting.
pub open spec fn is_heartbeat(session: Session, told: Heartbeat) -> bool {
    &&& told.url@ == DIRECTORY_URL@ + "/"@ + session.id@ + "/heartbeat"@
    &&& told.token@ == session.token@
    &&& told.player_count == 0
    &&& told.max_players == 10
    &&& match session.endpoint {
        Some(endpoint) => {
            &&& told.status@ == "online"@
            &&& told.connection_mode@ == endpoint.mode@
            &&& told.host_name is Some && told.host_name->0@ == endpoint.host_name@
            &&& told.host_port == Some(endpoint.host_port)
        },
        None => {
            &&& told.status@ == "starting"@
            &&& told.connection_mode@ == "pending"@
            &&& told.host_name is None
            &&& told.host_port is None
        },
    }
}

/// What the directory is told of `session`.
pub fn heartbeat(session: &Session) -> (told: Heartbeat)
    ensures
        is_heartbeat(*session, told),
{
    let mut url: String = join3(DIRECTORY_URL, "/", session.id.as_str());
    url.append("/heartbeat");
    match &session.endpoint {
        Some(endpoint) => Heartbeat {
            url,
            token: session.token.clone(),
            player_count: 0,
            max_players: 10,
            status: "online",
            connection_mode: endpoint.mode,
            host_name: Some(endpoint.host_name.clone()),
            host_port: Some(endpoint.host_port),
        },
        None => Heartbeat {
            url,
            token: session.token.clone(),
            player_count: 0,
            max_players: 10,
            status: "starting",
            connection_mode: "pending",
            host_name: None,
            host_port: None,
        },
    }
}

/// What to tell the directory next, or nothing if no server is published any more.
pub fn next_heartbeat(state: &NetworkState) -> (told: Option<Heartbeat>)
    ensures
        match told {
            Some(told) => state.session is Some && is_heartbeat(state.session->0, told),
            None => state.session is None,
        },
{
    match &state.session {
        Some(session) => Some(heartbeat(session)),
        None => None,
    }
}

/// How telling the directory failed.
pub enum HeartbeatFailure {
    /// No response came.
    Send(String),
    /// The response bore an error status.
    Status(String),
}

impl HeartbeatFailure {
    /// What is said of the failure.
    pub open spec fn text(self) -> Seq<char> {
        match self {
            HeartbeatFailure::Send(detail) => "heartbeatを送信できませんでした: "@ + detail@,
            HeartbeatFailure::Status(detail) => "heartbeatが拒否されました: "@ + detail@,
        }
    }

    /// What is said of the failure.
    pub fn message(&self) -> (message: String)
        ensures
            message@ == self.text(),
    {
        match self {
            HeartbeatFailure::Send(detail) => join(
                "heartbeatを送信できませんでした: ",
                detail.as_str(),
            ),
            HeartbeatFailure::Status(detail) => join(
                "heartbeatが拒否されました: ",
                detail.as_str(),
            ),
        }
    }
}

/// `text` with every quotation mark doubled.
pub open spec fn doubled_quotes(text: Seq<char>) -> Seq<char>
    decreases text.len(),
{
    if text.len() == 0 {
        Seq::empty()
    } else if text.last() == '\'' {
        doubled_quotes(text.drop_last()).push('\'').push('\'')
    } else {
        doubled_quotes(text.drop_last()).push(text.last())
    }
}

/// `text` as it stands between quotation marks in a script.
pub fn quoted(text: &str) -> (inner: String)
    ensures
        inner@ == doubled_quotes(text@),
{
    let chars: Vec<char> = chars_of(text);
    let mut inner = String::new();
    let mut i: usize = 0;
    while i < chars.len()
        invariant
            chars@ == text@,
            i <= chars@.len(),
            inner@ == doubled_quotes(chars@.take(i as int)),
        decreases chars@.len() - i,
    {
        let c: char = chars[i];
        assert(chars@.take(i + 1).drop_last() =~= chars@.take(i as int));
        if c == '\'' {
            inner.push('\'');
        }
        inner.push(c);
        i += 1;
    }
    assert(chars@.take(i as int) =~= chars@);
    inner
}

/// The arguments that have the firewall of Windows let players in.
pub open spec fn firewall_arguments_text() -> Seq<char> {
    "advfirewall firewall add rule name=\"Werewolf BDS UDP "@ + decimal(BDS_PORT as nat)
        + "\" dir=in action=allow protocol=UDP localport="@ + decimal(BDS_PORT as nat)
}

/// The script that has the firewall of Windows let players in.
pub fn firewall_script() -> (script: String)
    ensures
        script@ == "Start-Process -FilePath netsh.exe -Verb RunAs -ArgumentList '"@
            + doubled_quotes(firewall_arguments_text()) + "' -Wait"@,
{
    let port: String = decimal_text(BDS_PORT as u64);
    let mut arguments: String = join3(
        "advfirewall firewall add rule name=\"Werewolf BDS UDP ",
        port.as_str(),
        "\" dir=in action=allow protocol=UDP localport=",
    );
    arguments.append(port.as_str());
    let inner: String = quoted(arguments.as_str());
    join3(
        "Start-Process -FilePath netsh.exe -Verb RunAs -ArgumentList '",
        inner.as_str(),
        "' -Wait",
    )
}

/// Whether the firewall was asked to let players in. `granted` is nothing where the
/// system has no firewall to ask, and else whether the script succeeded.
pub fn request_firewall_rule(granted: Option<bool>) -> (requested: Result<bool, String>)
    ensures
        match granted {
            Some(true) => requested == Ok::<bool, String>(true),
            Some(false) => requested is Err && requested->Err_0@
                == "Windows Firewall設定がキャンセルまたは失敗しました"@,
            None => requested == Ok::<bool, String>(false),
        },
{
    match granted {
        Some(granted) => if granted {
            Ok(true)
        } else {
            Err("Windows Firewall設定がキャンセルまたは失敗しました".to_owned())
        },
        None => Ok(false),
    }
}

/// What is said when the script could not be started.
pub fn firewall_failure(detail: &str) -> (message: String)
    ensures
        message@ == "Firewall設定を開始できませんでした: "@ + detail@,
{
    join("Firewall設定を開始できませんでした: ", detail)
}

/// `text` with every pair of quotation marks made one, as a script reads it.
pub open spec fn single_quotes(text: Seq<char>) -> Seq<char>
    decreases text.len(),
{
    if text.len() == 0 {
        Seq::empty()
    } else if text.len() > 1 && text.last() == '\'' && text[text.len() - 2] == '\'' {
        single_quotes(text.take(text.len() - 2)).push('\'')
    } else {
        single_quotes(text.drop_last()).push(text.last())
    }
}

/// A script reads a quoted text as the text that was quoted.
pub proof fn quoting_can_be_undone(text: Seq<char>)
    ensures
        single_quotes(doubled_quotes(text)) == text,
    decreases text.len(),
{
    if text.len() > 0 {
        let front = doubled_quotes(text.drop_last());
        quoting_can_be_undone(text.drop_last());
        assert(text.drop_last().push(text.last()) =~= text);
        if text.last() == '\'' {
            assert(doubled_quotes(text).take(doubled_quotes(text).len() - 2) =~= front);
        } else {
            assert(doubled_quotes(text).drop_last() =~= front);
        }
    }
}

/// An address of version 4 as one number.
pub open spec fn v4_number(octets: Seq<u8>) -> int {
    ((octets[0] * 256 + octets[1]) * 256 + octets[2]) * 256 + octets[3]
}

/// Whether the number lies in the range of addresses that begins with these two bytes and
/// has this many addresses for each value of the second byte, over `count` such values.
pub open spec fn lies_within(number: int, first: int, second: int, count: int) -> bool {
    let begin = (first * 256 + second) * 65536;
    begin <= number < begin + count * 65536
}

/// An address of version 4 is public exactly if it lies in none of these ranges, and is not
/// nought: 10.0.0.0 to 10.255.255.255, 100.64.0.0 to 100.127.255.255, 127.0.0.0 to
/// 127.255.255.255, 169.254.0.0 to 169.254.255.255, 172.16.0.0 to 172.31.255.255, and
/// 192.168.0.0 to 192.168.255.255.
pub proof fn public_addresses_lie_outside_the_local_ranges(octets: [u8; 4])
    ensures
        ({
            let number = v4_number(octets@);
            is_public(IpAddress::V4(octets)) <==> !{
                ||| number == 0
                ||| lies_within(number, 10, 0, 256)
                ||| lies_within(number, 100, 64, 64)
                ||| lies_within(number, 127, 0, 256)
                ||| lies_within(number, 169, 254, 1)
                ||| lies_within(number, 172, 16, 16)
                ||| lies_within(number, 192, 168, 1)
            }
        }),
{
    let number = v4_number(octets@);
    let pair = octets@[0] * 256 + octets@[1];
    assert(number == pair * 65536 + octets@[2] * 256 + octets@[3]);
    assert(0 <= octets@[2] * 256 + octets@[3] < 65536);
}

/// An address of version 6 is public exactly if it is neither nought nor one, nor begins
/// with the seven bits 1111110.
pub proof fn public_addresses_of_version_six(groups: [u16; 8])
    ensures
        is_public(IpAddress::V6(groups)) <==> !{
            ||| groups@[0] / 512 == 0b1111110
            ||| groups@[0] == 0 && groups@[1] == 0 && groups@[2] == 0 && groups@[3] == 0
                && groups@[4] == 0 && groups@[5] == 0 && groups@[6] == 0 && (groups@[7] == 0
                || groups@[7] == 1)
        },
{
    assert((forall|i: int| 0 <= i < 7 ==> #[trigger] groups@[i] == 0) == (groups@[0] == 0
        && groups@[1] == 0 && groups@[2] == 0 && groups@[3] == 0 && groups@[4] == 0 && groups@[5]
        == 0 && groups@[6] == 0));
}

/// What the directory is told goes to the address of the server, with its token. A server
/// that can be reached is said to be online, with how, where and on which port, and any
/// other is said to be starting, without.
pub proof fn heartbeats_tell_how_servers_are_reached(session: Session, told: Heartbeat)
    requires
        is_heartbeat(session, told),
    ensures
        told.url@ == "https://mc-werewolf.com/api/network/v1/servers"@ + "/"@ + session.id@
            + "/heartbeat"@,
        told.token@ == session.token@,
        told.player_count == 0,
        told.max_players == 10,
        session.endpoint matches Some(endpoint) ==> told.status@ == "online"@
            && told.connection_mode@ == endpoint.mode@ && told.host_name is Some
            && told.host_name->0@ == endpoint.host_name@ && told.host_port == Some(
            endpoint.host_port,
        ),
        session.endpoint is None ==> told.status@ == "starting"@ && told.connection_mode@
            == "pending"@ && told.host_name is None && told.host_port is None,
{
}

/// The server that is published is active under its id and under no other, and no server is
/// active where none is published.
pub proof fn servers_are_active_under_their_id(state: NetworkState, id: Seq<char>)
    ensures
        state.session is None ==> !state.publishes(id),
        state.session matches Some(session) ==> (state.publishes(id) <==> session.id@ == id),
{
}

/// What is said where the directory cannot be told, with all that is known of why.
pub proof fn failed_heartbeats_are_told_in_full(detail: String)
    ensures
        HeartbeatFailure::Send(detail).text() == "heartbeatを送信できませんでした: "@ + detail@,
        HeartbeatFailure::Status(detail).text() == "heartbeatが拒否されました: "@ + detail@,
{
}

/// A text without quotation marks is quoted as it is.
pub proof fn quoting_keeps_texts_without_marks(text: Seq<char>)
    requires
        !text.contains('\''),
    ensures
        doubled_quotes(text) == text,
    decreases text.len(),
{
    if text.len() > 0 {
        assert(text.contains(text[text.len() - 1]));
        assert forall|i: int| 0 <= i < text.drop_last().len() implies text.drop_last()[i]
            != '\'' by {
            assert(text.contains(text[i]));
        }
        quoting_keeps_texts_without_marks(text.drop_last());
        assert(text.drop_last().push(text.last()) =~= text);
    }
}

/// Every quotation mark of a text is doubled where it stands, and what is before and behind
/// it is quoted for itself.
pub proof fn quotation_marks_are_doubled_where_they_stand(before: Seq<char>, behind: Seq<char>)
    ensures
        doubled_quotes(before + seq!['\''] + behind) == doubled_quotes(before) + seq!['\'', '\'']
            + doubled_quotes(behind),
    decreases behind.len(),
{
    let text = before + seq!['\''] + behind;
    if behind.len() == 0 {
        assert(text.drop_last() =~= before);
        assert(text.last() == '\'');
        assert(doubled_quotes(text) =~= doubled_quotes(before) + seq!['\'', '\'']
            + doubled_quotes(behind));
    } else {
        quotation_marks_are_doubled_where_they_stand(before, behind.drop_last());
        assert(text.drop_last() =~= before + seq!['\''] + behind.drop_last());
        assert(text.last() == behind.last());
        assert(doubled_quotes(text) =~= doubled_quotes(before) + seq!['\'', '\'']
            + doubled_quotes(behind));
    }
}

/// What the firewall is asked for: to let in what comes over UDP to port 19132.
pub proof fn the_firewall_is_asked_for_the_port()
    ensures
        firewall_arguments_text()
            == "advfirewall firewall add rule name=\"Werewolf BDS UDP "@ + "19132"@
            + "\" dir=in action=allow protocol=UDP localport="@ + "19132"@,
{
    lemma_port_is_written(BDS_PORT as nat);
}

} // verus!
