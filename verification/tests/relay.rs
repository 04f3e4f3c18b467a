use werewolf_launcher::frame::{
    decode_relay_frame, encode_relay_frame, max_datagram_size, split_relay_frame,
};
use werewolf_launcher::network::{Endpoint, HeartbeatFailure, NetworkState, Session};
use werewolf_launcher::relay::{
    begin_relay, tries_again, Incoming, OpenFailure, ReceiveRequest, RelayNotice, RelayStep,
};

#[test]
fn relay_frame_round_trip() {
    let encoded = encode_relay_frame("203.0.113.10:54321", &[1, 2, 3]);
    let (address, payload) = decode_relay_frame(&encoded).unwrap();
    assert_eq!(address, "203.0.113.10:54321");
    assert_eq!(payload, &[1, 2, 3]);
}

#[test]
fn frames_begin_with_the_length_of_the_address() {
    assert_eq!(encode_relay_frame("ab", &[7]), vec![0, 2, b'a', b'b', 7]);
    let long = "x".repeat(300);
    let frame = encode_relay_frame(&long, &[]);
    assert_eq!(&frame[..2], &[1, 44]);
    assert_eq!(frame.len(), 302);
}

#[test]
fn frames_carry_any_address_that_fits() {
    for address in ["[2001:db8::1]:19132".to_owned(), "日本".to_owned(), "x".repeat(65_535)] {
        let payload = vec![9; 1200];
        let frame = encode_relay_frame(&address, &payload);
        let (read, carried) = decode_relay_frame(&frame).unwrap();
        assert_eq!(read, address);
        assert_eq!(carried, &payload[..]);
    }
}

#[test]
fn lengths_beyond_two_bytes_are_cut_off() {
    let frame = encode_relay_frame(&"x".repeat(65_537), &[]);
    let (address, payload) = decode_relay_frame(&frame).unwrap();
    assert_eq!(address, "x");
    assert_eq!(payload.len(), 65_536);
}

#[test]
fn refuses_short_frames() {
    for frame in [&[][..], &[0][..]] {
        assert_eq!(decode_relay_frame(frame).unwrap_err(), "中継フレームが短すぎます");
        assert_eq!(split_relay_frame(frame).unwrap_err(), "中継フレームが短すぎます");
    }
}

#[test]
fn refuses_addresses_of_a_wrong_length() {
    for frame in [&[0, 0][..], &[0, 0, 1][..], &[0, 1][..], &[1, 0, 65][..]] {
        assert_eq!(
            decode_relay_frame(frame).unwrap_err(),
            "中継フレームのアドレス長が不正です"
        );
    }
    assert!(decode_relay_frame(&encode_relay_frame("", &[1, 2])).is_err());
}

#[test]
fn refuses_addresses_that_are_no_text() {
    let bytes = [b'a', 0xff];
    let error = String::from_utf8(bytes.to_vec()).unwrap_err().to_string();
    assert_eq!(
        decode_relay_frame(&[0, 2, b'a', 0xff, 1]).unwrap_err(),
        format!("中継アドレスが不正です: {error}")
    );
}

#[test]
fn datagrams_have_a_largest_size() {
    assert_eq!(max_datagram_size(), 65_535);
}

fn connected() -> ReceiveRequest {
    receive(begin_relay("server".to_owned(), Ok(())))
}

fn receive(step: RelayStep) -> ReceiveRequest {
    match step {
        RelayStep::Receive(request) => request,
        _ => panic!("not waiting"),
    }
}

fn failure(step: RelayStep) -> String {
    match step {
        RelayStep::Failed(message) => message,
        _ => panic!("not failed"),
    }
}

fn frame(address: &str, payload: &[u8]) -> Incoming {
    Incoming::Binary(encode_relay_frame(address, payload))
}

fn ready(kind: &str) -> Incoming {
    Incoming::Text(Ok(RelayNotice {
        kind: kind.to_owned(),
        host_name: "relay.example".to_owned(),
        port: 40_001,
    }))
}

fn session(id: &str) -> Session {
    Session { id: id.to_owned(), token: "secret".to_owned(), endpoint: None }
}

#[test]
fn relays_that_cannot_be_reached_fail() {
    assert_eq!(
        failure(begin_relay("server".to_owned(), Err("refused".to_owned()))),
        "中央中継へ接続できませんでした: refused"
    );
}

#[test]
fn each_player_gets_one_socket() {
    let mut request = connected();
    for (address, expected, is_new) in [("a:1", 0, true), ("b:2", 1, true), ("a:1", 0, false)] {
        let step = match request.resume(frame(address, &[1, 2])) {
            RelayStep::Open(open) => {
                assert!(is_new);
                assert_eq!(open.address, address);
                assert_eq!(open.payload, vec![1, 2]);
                open.resume(Ok(()))
            }
            step => {
                assert!(!is_new);
                step
            }
        };
        request = match step {
            RelayStep::Forward(forward) => {
                assert_eq!(forward.socket, expected);
                assert_eq!(forward.payload, vec![1, 2]);
                receive(forward.resume(Ok(())))
            }
            _ => panic!("not forwarded"),
        };
    }
    assert_eq!(request.connection.socket("a:1"), Some(0));
    assert_eq!(request.connection.socket("b:2"), Some(1));
    assert_eq!(request.connection.socket("c:3"), None);
}

#[test]
fn sockets_that_cannot_be_opened_end_the_connection() {
    let open = || match connected().resume(frame("a:1", &[])) {
        RelayStep::Open(open) => open,
        _ => panic!("not opened"),
    };
    assert_eq!(
        failure(open().resume(Err(OpenFailure::Bind("no port".to_owned())))),
        "ローカルUDPを作成できませんでした: no port"
    );
    assert_eq!(
        failure(open().resume(Err(OpenFailure::Connect("no server".to_owned())))),
        "ローカルBDSへ接続できませんでした: no server"
    );
    match open().resume(Ok(())) {
        RelayStep::Forward(forward) => assert_eq!(
            failure(forward.resume(Err("gone".to_owned()))),
            "BDSへUDPを転送できませんでした: gone"
        ),
        _ => panic!("not forwarded"),
    }
}

#[test]
fn relays_announce_where_players_reach_the_server() {
    let assign = match connected().resume(ready("ready")) {
        RelayStep::Assign(assign) => assign,
        _ => panic!("not assigned"),
    };
    assert_eq!(assign.endpoint.host_name, "relay.example");
    assert_eq!(assign.endpoint.host_port, 40_001);
    assert_eq!(assign.endpoint.mode, "relay");
    let mut state = NetworkState::default();
    state.store(session("server"));
    let noted = assign.note(&mut state);
    assert_eq!(state.assigned().unwrap().host_name, "relay.example");
    let announce = match assign.resume(Some(noted)) {
        RelayStep::SendHeartbeat(announce) => announce,
        _ => panic!("not announced"),
    };
    let told = announce.told();
    assert_eq!(told.url, "https://mc-werewolf.com/api/network/v1/servers/server/heartbeat");
    assert_eq!(told.status, "online");
    assert_eq!(told.connection_mode, "relay");
    assert_eq!(told.host_port, Some(40_001));
    receive(announce.resume(Ok(())));
}

#[test]
fn servers_that_are_no_longer_published_are_not_announced() {
    let assign = match connected().resume(ready("ready")) {
        RelayStep::Assign(assign) => assign,
        _ => panic!("not assigned"),
    };
    let mut state = NetworkState::default();
    state.store(session("another"));
    assert!(assign.note(&mut state).is_none());
    assert!(state.assigned().is_none());
    receive(assign.resume(Some(None)));
}

#[test]
fn announcements_can_fail() {
    let assign = || match connected().resume(ready("ready")) {
        RelayStep::Assign(assign) => assign,
        _ => panic!("not assigned"),
    };
    assert_eq!(failure(assign().resume(None)), "ネットワーク状態を更新できませんでした");
    match assign().resume(Some(Some(session("server")))) {
        RelayStep::SendHeartbeat(announce) => assert_eq!(
            failure(announce.resume(Err(HeartbeatFailure::Status("410".to_owned())))),
            "heartbeatが拒否されました: 410"
        ),
        _ => panic!("not announced"),
    }
}

#[test]
fn relays_say_other_things_too() {
    receive(connected().resume(ready("waiting")));
    receive(connected().resume(Incoming::Other));
    assert_eq!(
        failure(connected().resume(Incoming::Text(Err("no JSON".to_owned())))),
        "中継準備通知を解析できませんでした: no JSON"
    );
    assert_eq!(
        failure(connected().resume(Incoming::Broken("reset".to_owned()))),
        "中継接続が切断されました: reset"
    );
    assert_eq!(
        failure(connected().resume(Incoming::Binary(vec![0]))),
        "中継フレームが短すぎます"
    );
}

#[test]
fn connections_end_in_a_failure() {
    for incoming in [Incoming::Close, Incoming::Ended] {
        match connected().resume(incoming) {
            RelayStep::AwaitWriter(writer) => {
                assert_eq!(failure(writer.resume(Ok(()))), "中央中継が終了しました");
            }
            _ => panic!("not ended"),
        }
    }
    match connected().resume(Incoming::Close) {
        RelayStep::AwaitWriter(writer) => {
            assert_eq!(failure(writer.resume(Err("closed".to_owned()))), "closed");
        }
        _ => panic!("not ended"),
    }
}

#[test]
fn relays_are_tried_again_while_the_server_is_published() {
    let mut state = NetworkState::default();
    let failed = Err("gone".to_owned());
    assert!(!tries_again(&failed, Some(&state), "server"));
    state.store(session("server"));
    assert!(tries_again(&failed, Some(&state), "server"));
    assert!(!tries_again(&failed, Some(&state), "another"));
    assert!(!tries_again(&failed, None, "server"));
    assert!(!tries_again(&Ok(()), Some(&state), "server"));
}

#[test]
fn answers_are_framed_for_the_player_they_answer() {
    let asked = encode_relay_frame("203.0.113.10:54321", &[1]);
    let (address, _) = decode_relay_frame(&asked).unwrap();
    let answered = encode_relay_frame(&address, &[4, 5]);
    let (player, answer) = decode_relay_frame(&answered).unwrap();
    assert_eq!(player, "203.0.113.10:54321");
    assert_eq!(answer, &[4, 5]);
}

#[test]
fn endpoints_can_be_copied() {
    let endpoint =
        Endpoint { host_name: "host".to_owned(), host_port: 1, mode: "direct" };
    let copy = endpoint.clone();
    assert_eq!(copy.host_name, "host");
    assert_eq!(copy.host_port, 1);
    assert_eq!(copy.mode, "direct");
}
