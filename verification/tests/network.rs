use tokio_tungstenite::tungstenite::client::IntoClientRequest;
use tokio_tungstenite::tungstenite::http::Request;
use werewolf_launcher::discovery::{
    begin_discovery, local_server_address, AskPublicAddress, DiscoveryStep, FindLocalAddress,
    LocalFailure, Mapping, OpenPort,
};
use werewolf_launcher::failure::{HttpFailure, HttpStage};
use werewolf_launcher::handshake::{authorized, relay_request};
use werewolf_launcher::network::{
    firewall_failure, firewall_script, heartbeat, is_public_ip, next_heartbeat, quoted,
    registration, request_firewall_rule, Endpoint, HeartbeatFailure, IpAddress, NetworkState,
    Session,
};
use werewolf_launcher::publish::{begin_publish, PublishResult, PublishStep, RegistrationReply};

fn v4(text: &str) -> IpAddress {
    let mut octets = [0; 4];
    for (i, octet) in text.split('.').enumerate() {
        octets[i] = octet.parse().unwrap();
    }
    IpAddress::V4(octets)
}

#[test]
fn detects_public_and_non_public_addresses() {
    assert!(is_public_ip(v4("8.8.8.8")));
    for address in ["127.0.0.1", "192.168.1.10", "10.0.0.1", "100.64.0.1"] {
        assert!(!is_public_ip(v4(address)));
    }
}

#[test]
fn local_ranges_end_where_they_end() {
    for address in [
        "0.0.0.0", "10.255.255.255", "172.16.0.0", "172.31.255.255", "192.168.0.0", "127.9.9.9",
        "169.254.1.1", "100.127.255.255",
    ] {
        assert!(!is_public_ip(v4(address)), "{address}");
    }
    for address in [
        "0.0.0.1", "9.255.255.255", "11.0.0.0", "172.15.0.0", "172.32.0.0", "192.167.0.1",
        "192.169.0.1", "169.253.0.1", "100.63.255.255", "100.128.0.0", "203.0.113.10",
    ] {
        assert!(is_public_ip(v4(address)), "{address}");
    }
}

#[test]
fn version_six_has_local_addresses_too() {
    assert!(!is_public_ip(IpAddress::V6([0, 0, 0, 0, 0, 0, 0, 0])));
    assert!(!is_public_ip(IpAddress::V6([0, 0, 0, 0, 0, 0, 0, 1])));
    assert!(!is_public_ip(IpAddress::V6([0xfc00, 0, 0, 0, 0, 0, 0, 1])));
    assert!(!is_public_ip(IpAddress::V6([0xfdff, 1, 2, 3, 4, 5, 6, 7])));
    assert!(is_public_ip(IpAddress::V6([0, 0, 0, 0, 0, 0, 0, 2])));
    assert!(is_public_ip(IpAddress::V6([0xfe00, 0, 0, 0, 0, 0, 0, 1])));
    assert!(is_public_ip(IpAddress::V6([0x2001, 0xdb8, 0, 0, 0, 0, 0, 1])));
}

fn endpoint(mode: &'static str) -> Endpoint {
    Endpoint { host_name: "203.0.113.10".to_owned(), host_port: 19132, mode }
}

fn session(id: &str, token: &str, endpoint: Option<Endpoint>) -> Session {
    Session { id: id.to_owned(), token: token.to_owned(), endpoint }
}

#[test]
fn new_servers_are_described() {
    let told = registration();
    assert_eq!(told.display_name, "Werewolf Server");
    assert_eq!(told.world_name, "Werewolf");
    assert_eq!(told.max_players, 10);
}

#[test]
fn starting_servers_say_so() {
    let told = heartbeat(&session("abc", "secret", None));
    assert_eq!(told.url, "https://mc-werewolf.com/api/network/v1/servers/abc/heartbeat");
    assert_eq!(told.token, "secret");
    assert_eq!(told.player_count, 0);
    assert_eq!(told.max_players, 10);
    assert_eq!(told.status, "starting");
    assert_eq!(told.connection_mode, "pending");
    assert_eq!(told.host_name, None);
    assert_eq!(told.host_port, None);
}

#[test]
fn servers_that_can_be_reached_say_where() {
    let told = heartbeat(&session("abc", "secret", Some(endpoint("direct"))));
    assert_eq!(told.status, "online");
    assert_eq!(told.connection_mode, "direct");
    assert_eq!(told.host_name.as_deref(), Some("203.0.113.10"));
    assert_eq!(told.host_port, Some(19132));
}

#[test]
fn heartbeats_go_on_while_a_server_is_published() {
    let mut state = NetworkState::default();
    assert!(next_heartbeat(&state).is_none());
    state.store(session("abc", "secret", None));
    assert_eq!(next_heartbeat(&state).unwrap().token, "secret");
    assert_eq!(HeartbeatFailure::Send("x".to_owned()).message(), "heartbeatを送信できませんでした: x");
    assert_eq!(HeartbeatFailure::Status("x".to_owned()).message(), "heartbeatが拒否されました: x");
}

#[test]
fn addresses_are_assigned_to_the_published_server_only() {
    let mut state = NetworkState::default();
    assert!(state.assign("abc", endpoint("relay")).is_none());
    assert!(state.current().is_none());
    state.store(session("abc", "secret", None));
    assert!(state.is_active("abc"));
    assert!(!state.is_active("ab"));
    assert!(state.assign("ab", endpoint("relay")).is_none());
    assert!(state.assigned().is_none());
    let updated = state.assign("abc", endpoint("relay")).unwrap();
    assert_eq!(updated.id, "abc");
    assert_eq!(updated.token, "secret");
    assert_eq!(updated.endpoint.unwrap().mode, "relay");
    assert_eq!(state.assigned().unwrap().host_port, 19132);
    assert_eq!(state.current().unwrap().id, "abc");
}

fn trouble(step: DiscoveryStep) -> String {
    match step {
        DiscoveryStep::Failed(message) => message,
        _ => panic!("not failed"),
    }
}

fn finding() -> FindLocalAddress {
    match begin_discovery() {
        DiscoveryStep::Search(request) => match request.resume(Ok(())) {
            DiscoveryStep::FindLocal(request) => request,
            _ => panic!("not finding"),
        },
        _ => panic!("not begun"),
    }
}

fn opening() -> OpenPort {
    match finding().resume(Ok("192.168.1.10".to_owned())) {
        DiscoveryStep::OpenPort(request) => request,
        _ => panic!("not opening"),
    }
}

fn asking() -> AskPublicAddress {
    match opening().resume(Ok(())) {
        DiscoveryStep::AskPublic(request) => request,
        _ => panic!("not asking"),
    }
}

#[test]
fn ports_are_opened_for_the_server() {
    assert_eq!(opening().local_address, "192.168.1.10:19132");
    assert_eq!(local_server_address("10.0.0.7"), "10.0.0.7:19132");
}

#[test]
fn routers_open_a_way() {
    match asking().resume(Ok((v4("8.8.8.8"), "8.8.8.8".to_owned()))) {
        DiscoveryStep::Found(mapping) => {
            assert!(is_public_ip(mapping.public_ip));
            assert_eq!(mapping.host_name, "8.8.8.8");
            assert_eq!(mapping.local_address, "192.168.1.10:19132");
        }
        _ => panic!("not found"),
    }
}

#[test]
fn searches_say_how_they_failed() {
    let x = || "x".to_owned();
    match begin_discovery() {
        DiscoveryStep::Search(request) => assert_eq!(
            trouble(request.resume(Err(x()))),
            "UPnP対応ルーターを検出できませんでした: x."
        ),
        _ => panic!("not begun"),
    }
    for (failure, expected) in [
        (LocalFailure::Socket(x()), "ローカルネットワークを確認できませんでした: x"),
        (LocalFailure::Route(x()), "ルーターへ接続できませんでした: x"),
        (LocalFailure::Address(x()), "ローカルIPを取得できませんでした: x"),
    ] {
        assert_eq!(trouble(finding().resume(Err(failure))), expected);
    }
    assert_eq!(
        trouble(opening().resume(Err(x()))),
        "ルーターでUDP 19132を開放できませんでした: x"
    );
    assert_eq!(
        trouble(asking().resume(Err(x()))),
        "ルーターの公開IPを取得できませんでした: x"
    );
}

#[test]
fn the_firewall_is_asked_by_a_script() {
    assert_eq!(
        firewall_script(),
        "Start-Process -FilePath netsh.exe -Verb RunAs -ArgumentList 'advfirewall firewall add rule name=\"Werewolf BDS UDP 19132\" dir=in action=allow protocol=UDP localport=19132' -Wait"
    );
    assert_eq!(quoted("it's 'so'"), "it''s ''so''");
    assert_eq!(quoted("it's 'so'").replace("''", "'"), "it's 'so'");
}

#[test]
fn the_firewall_may_refuse() {
    assert_eq!(request_firewall_rule(None), Ok(false));
    assert_eq!(request_firewall_rule(Some(true)), Ok(true));
    assert_eq!(
        request_firewall_rule(Some(false)).unwrap_err(),
        "Windows Firewall設定がキャンセルまたは失敗しました"
    );
    assert_eq!(firewall_failure("x"), "Firewall設定を開始できませんでした: x");
}

#[test]
fn relays_are_asked_for_with_the_token() {
    let request = relay_request(&session("abc", "secret", None)).unwrap();
    assert_eq!(
        request.uri().to_string(),
        "wss://mc-werewolf.com/api/network/v1/servers/abc/relay"
    );
    assert_eq!(request.headers().len(), 6);
    assert_eq!(request.headers()["authorization"], "Bearer secret");
    assert_eq!(request.headers()["host"], "mc-werewolf.com");
    assert_eq!(request.headers()["connection"], "Upgrade");
    assert_eq!(request.headers()["upgrade"], "websocket");
    assert_eq!(request.headers()["sec-websocket-version"], "13");
    assert!(request.headers().contains_key("sec-websocket-key"));
}

#[test]
fn tokens_may_hold_anything_but_control_characters() {
    let request = relay_request(&session("abc", "t\t é", None)).unwrap();
    assert_eq!(request.headers()["authorization"].as_bytes(), "Bearer t\t é".as_bytes());
    for token in ["a\nb", "\u{7f}", "\0"] {
        assert_eq!(
            relay_request(&session("abc", token, None)).unwrap_err(),
            "中継認証を作成できませんでした: failed to parse header value"
        );
    }
}

#[test]
fn ids_must_make_an_address() {
    let url = "wss://mc-werewolf.com/api/network/v1/servers/a b/relay";
    let error = url.into_client_request().unwrap_err().to_string();
    assert_eq!(
        relay_request(&session("a b", "a\nb", None)).unwrap_err(),
        format!("中継URLを作成できませんでした: {error}")
    );
}

#[test]
fn credentials_replace_those_before() {
    let made = Request::builder()
        .uri("wss://example.test/x")
        .header("Authorization", "Basic old")
        .header("X-Kept", "kept")
        .body(())
        .unwrap();
    let sent = authorized(Ok(made), "new").unwrap();
    assert_eq!(sent.uri().to_string(), "wss://example.test/x");
    assert_eq!(sent.headers().len(), 2);
    assert_eq!(sent.headers()["authorization"], "Bearer new");
    assert_eq!(sent.headers()["x-kept"], "kept");
    assert_eq!(
        authorized(Err("no host".to_owned()), "new").unwrap_err(),
        "中継URLを作成できませんでした: no host"
    );
}

fn mapping(ip: &str) -> Mapping {
    Mapping {
        public_ip: v4(ip),
        host_name: ip.to_owned(),
        local_address: "192.168.1.10:19132".to_owned(),
    }
}

fn reply() -> RegistrationReply {
    RegistrationReply { id: "abc".to_owned(), token: "secret".to_owned() }
}

fn refusal(step: PublishStep) -> String {
    match step {
        PublishStep::Failed(message) => message,
        _ => panic!("not failed"),
    }
}

fn found(found: Result<Mapping, String>) -> PublishStep {
    match begin_publish(Ok(true)) {
        PublishStep::Discover(request) => request.resume(found),
        _ => panic!("not begun"),
    }
}

/// Publishes a server, with a relay assigned at the given wait, if at all. Gives the
/// result and the number of waits.
fn publish(mapped: Result<Mapping, String>, assigned: Option<u32>) -> (PublishResult, u32) {
    let mut step = found(mapped);
    let mut waits = 0;
    loop {
        step = match step {
            PublishStep::Register(request) => request.resume(Ok(reply())),
            PublishStep::SendHeartbeat(request) => {
                let told = request.told();
                assert_eq!(told.token, "secret");
                assert_eq!(told.host_name.is_some(), request.publication.endpoint.is_some());
                request.resume(Ok(()))
            }
            PublishStep::Store(request) => {
                assert_eq!(request.session.id, "abc");
                assert_eq!(request.needs_relay(), request.session.endpoint.is_none());
                request.resume(true)
            }
            PublishStep::AwaitRelay(request) => {
                waits += 1;
                assert_eq!(request.server_id, "abc");
                let relay = if assigned == Some(waits) { Some(endpoint("relay")) } else { None };
                request.resume(relay)
            }
            PublishStep::Finished(result) => return (result, waits),
            _ => panic!("unexpected step"),
        };
    }
}

#[test]
fn public_routers_are_published_directly() {
    let (result, waits) = publish(Ok(mapping("8.8.8.8")), None);
    assert!(format!("{result:?}").starts_with("PublishResult"));
    assert_eq!(waits, 0);
    assert_eq!(result.server_id, "abc");
    assert_eq!(result.public_address.as_deref(), Some("8.8.8.8:19132"));
    assert_eq!(result.local_address.as_deref(), Some("192.168.1.10:19132"));
    assert_eq!(result.port, 19132);
    assert!(result.firewall_requested);
    assert!(result.upnp_mapped);
    assert_eq!(result.warning, None);
}

#[test]
fn routers_behind_routers_need_a_relay() {
    let (result, waits) = publish(Ok(mapping("100.64.0.1")), Some(3));
    assert_eq!(waits, 3);
    assert_eq!(result.public_address.as_deref(), Some("203.0.113.10:19132"));
    assert!(result.upnp_mapped);
    assert_eq!(result.warning, None);
    let (result, waits) = publish(Ok(mapping("100.64.0.1")), None);
    assert_eq!(waits, 40);
    assert_eq!(result.public_address, None);
    assert_eq!(result.local_address.as_deref(), Some("192.168.1.10:19132"));
    assert_eq!(
        result.warning.as_deref(),
        Some("CGNATまたは二重ルーターを検出しました。中央中継の割当を待っています。")
    );
}

#[test]
fn servers_without_a_router_need_a_relay() {
    let (result, waits) = publish(Err("no router.".to_owned()), None);
    assert_eq!(waits, 40);
    assert_eq!(result.local_address, None);
    assert!(!result.upnp_mapped);
    assert_eq!(
        result.warning.as_deref(),
        Some("no router. 中央中継の割当を待っています。")
    );
    let (result, waits) = publish(Err("no router.".to_owned()), Some(40));
    assert_eq!(waits, 40);
    assert_eq!(result.warning, None);
}

#[test]
fn publishing_can_fail() {
    assert_eq!(refusal(begin_publish(Err("cancelled".to_owned()))), "cancelled");
    for (stage, expected) in [
        (HttpStage::Send, "中央サーバーへ登録できませんでした: x"),
        (HttpStage::Status, "中央サーバーが登録を拒否しました: x"),
        (HttpStage::Body, "中央サーバーの応答を解析できませんでした: x"),
    ] {
        match found(Err("none".to_owned())) {
            PublishStep::Register(request) => {
                let failure = HttpFailure { stage, detail: "x".to_owned() };
                assert_eq!(refusal(request.resume(Err(failure))), expected);
            }
            _ => panic!("not registering"),
        }
    }
    let told = || match found(Err("none".to_owned())) {
        PublishStep::Register(request) => match request.resume(Ok(reply())) {
            PublishStep::SendHeartbeat(request) => request,
            _ => panic!("not telling"),
        },
        _ => panic!("not registering"),
    };
    assert_eq!(
        refusal(told().resume(Err(HeartbeatFailure::Send("x".to_owned())))),
        "heartbeatを送信できませんでした: x"
    );
    match told().resume(Ok(())) {
        PublishStep::Store(request) => {
            assert_eq!(refusal(request.resume(false)), "ネットワーク状態を保存できませんでした");
        }
        _ => panic!("not storing"),
    }
}
