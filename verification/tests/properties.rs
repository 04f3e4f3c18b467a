use werewolf_launcher::properties::{ensure_server_properties, server_port};

#[test]
fn names_the_world_where_another_was_named() {
    assert_eq!(
        ensure_server_properties("server-name=x\nlevel-name=Bedrock level\nmax-players=10\n"),
        "server-name=x\nlevel-name=Werewolf\nmax-players=10\n"
    );
}

#[test]
fn names_the_world_where_none_was_named() {
    assert_eq!(ensure_server_properties(""), "level-name=Werewolf\n");
    assert_eq!(
        ensure_server_properties("gamemode=survival"),
        "gamemode=survival\nlevel-name=Werewolf\n"
    );
    assert_eq!(
        ensure_server_properties("# level-name=x\n"),
        "# level-name=x\nlevel-name=Werewolf\n"
    );
}

#[test]
fn names_the_world_in_every_line_that_names_one() {
    assert_eq!(
        ensure_server_properties("level-name=a\n\nlevel-name="),
        "level-name=Werewolf\n\nlevel-name=Werewolf\n"
    );
}

#[test]
fn takes_carriage_returns_off() {
    assert_eq!(
        ensure_server_properties("a=1\r\nlevel-name=x\r\nb=2\r"),
        "a=1\nlevel-name=Werewolf\nb=2\r\n"
    );
}

#[test]
fn reads_lines_as_std_does() {
    for content in ["", "\n", "a", "a\n", "a\n\nb", "a\r\nb\r", "a\r\r\nb", "\r\n", "日本\r\n語"] {
        let mut expected = String::new();
        for line in content.lines() {
            expected.push_str(line);
            expected.push('\n');
        }
        expected.push_str("level-name=Werewolf\n");
        assert_eq!(ensure_server_properties(content), expected);
    }
}

#[test]
fn settling_again_changes_nothing() {
    for content in ["", "level-name=a\nserver-port=1\n", "a\r\nb\n"] {
        let settled = ensure_server_properties(content);
        assert_eq!(ensure_server_properties(&settled), settled);
    }
    let once = ensure_server_properties("a\r\r\n");
    assert_ne!(ensure_server_properties(&once), once);
}

#[test]
fn reads_the_port() {
    assert_eq!(server_port(Some("server-port=20000\n")), 20000);
    assert_eq!(server_port(Some("a=1\nserver-port= 20001 \r\nserver-port=3")), 20001);
    assert_eq!(server_port(Some("server-port=+7")), 7);
}

#[test]
fn lines_without_a_port_are_passed_over() {
    assert_eq!(server_port(Some("server-port=none\nserver-port=65536\nserver-port=20002")), 20002);
    assert_eq!(server_port(Some(" server-port=1\nserver-portv6=2")), 19132);
}

#[test]
fn falls_back_to_the_usual_port() {
    assert_eq!(server_port(None), 19132);
    assert_eq!(server_port(Some("")), 19132);
}

#[test]
fn settling_keeps_the_port() {
    for content in ["server-port=20000\r\n", "level-name=server-port=1\nserver-port=\t5\t", ""] {
        assert_eq!(
            server_port(Some(&ensure_server_properties(content))),
            server_port(Some(content))
        );
    }
}
