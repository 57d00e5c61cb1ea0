use sshchat_core::bridge::{bridge_step, BridgeAction, BridgeEvent};
use sshchat_core::identity::{confirm_persisted, provide_server_key, IdentityError};
use sshchat_core::messages::{
    forward_payload_bytes, pty_refusal_first_line, pty_refusal_second_line, wrap_payload,
};
use sshchat_core::registry::Registry;
use sshchat_core::session::{
    channel_open_session, data, exec_request, greeter_program, pty_request, tcpip_forward, Action,
    AuthDecision, AuthPolicy, ConnectionFactory, ConnectionState, DataVerdict, OpenOutcome, Phase,
    ServerMode,
};

#[test]
fn wrap_payload_exact() {
    let wrapped = wrap_payload(b"hi");
    assert_eq!(wrapped, b"Got data: hi\r\n".to_vec());
}

#[test]
fn wrap_payload_empty() {
    let wrapped = wrap_payload(b"");
    assert_eq!(wrapped, b"Got data: \r\n".to_vec());
}

#[test]
fn wrap_payload_keeps_raw_bytes() {
    let wrapped = wrap_payload(&[0u8, 255u8, 3u8]);
    let mut expected = b"Got data: ".to_vec();
    expected.extend_from_slice(&[0u8, 255u8, 3u8]);
    expected.extend_from_slice(b"\r\n");
    assert_eq!(wrapped, expected);
}

#[test]
fn fixed_lines_exact() {
    assert_eq!(pty_refusal_first_line(), b"Not allowed\r\n".to_vec());
    assert_eq!(pty_refusal_second_line(), b"Not allowed 2\r\n".to_vec());
    assert_eq!(
        forward_payload_bytes(),
        b"Hello from a forwarded port".to_vec()
    );
    assert_eq!(greeter_program(), "/root/greeter.pl".to_string());
}

#[test]
fn factory_ids_increase() {
    let mut factory = ConnectionFactory::new();
    let a = factory.new_client();
    let b = factory.new_client();
    let c = factory.new_client();
    assert_eq!(a.id, 0);
    assert_eq!(b.id, 1);
    assert_eq!(c.id, 2);
    assert!(matches!(a.phase, Phase::Connected));
}

#[test]
fn auth_accepts_and_authenticates() {
    let mut factory = ConnectionFactory::new();
    let mut conn = factory.new_client();
    let d = conn.auth_password(&AuthPolicy::AcceptAll, "user", "hunter2");
    assert!(matches!(d, AuthDecision::Accept));
    assert!(matches!(conn.phase, Phase::Authenticated));
}

#[test]
fn registry_register_and_lookup() {
    let mut reg: Registry<&str> = Registry::new();
    assert_eq!(reg.len(), 0);
    reg.register(1, 10, "a");
    reg.register(1, 11, "b");
    reg.register(2, 10, "c");
    assert_eq!(reg.len(), 3);
    assert!(reg.contains_key(1, 10));
    assert!(reg.contains_key(2, 10));
    assert!(!reg.contains_key(2, 11));
    assert_eq!(*reg.handle_at(2), "c");
    assert_eq!(reg.conn_at(1), 1);
    assert_eq!(reg.channel_at(1), 11);
}

#[test]
fn registry_unregister_is_idempotent() {
    let mut reg: Registry<u8> = Registry::new();
    reg.register(1, 10, 0);
    reg.register(2, 20, 1);
    reg.unregister(1, 10);
    assert!(!reg.contains_key(1, 10));
    assert!(reg.contains_key(2, 20));
    assert_eq!(reg.len(), 1);
    // Removing an absent key is not an error and changes nothing.
    reg.unregister(1, 10);
    reg.unregister(9, 9);
    assert_eq!(reg.len(), 1);
    assert!(reg.contains_key(2, 20));
}

#[test]
fn registry_many_distinct_pairs_consistent() {
    let mut reg: Registry<u64> = Registry::new();
    let n: u64 = 100;
    for conn in 0..n {
        reg.register(conn, conn * 7, conn);
    }
    assert_eq!(reg.len(), n as usize);
    for conn in 0..n {
        assert!(reg.contains_key(conn, conn * 7));
    }
    // Close half of them; exactly the others stay.
    for conn in 0..n {
        if conn % 2 == 0 {
            reg.unregister(conn, conn * 7);
        }
    }
    assert_eq!(reg.len(), n as usize / 2);
    for conn in 0..n {
        assert_eq!(reg.contains_key(conn, conn * 7), conn % 2 == 1);
    }
}

#[test]
fn registry_remove_connection_sweeps() {
    let mut reg: Registry<u8> = Registry::new();
    reg.register(1, 10, 0);
    reg.register(1, 11, 1);
    reg.register(2, 10, 2);
    reg.remove_connection(1);
    assert_eq!(reg.len(), 1);
    assert!(!reg.contains_key(1, 10));
    assert!(!reg.contains_key(1, 11));
    assert!(reg.contains_key(2, 10));
    // A connection with no entries removes nothing.
    reg.remove_connection(7);
    assert_eq!(reg.len(), 1);
}

#[test]
fn broadcast_targets_skip_sender_exactly() {
    let mut reg: Registry<u8> = Registry::new();
    reg.register(1, 10, 0);
    reg.register(2, 20, 1);
    reg.register(1, 11, 2);
    reg.register(3, 30, 3);
    let targets = reg.broadcast_targets(1);
    assert_eq!(targets, vec![1, 3]);
    for &i in &targets {
        assert_ne!(reg.conn_at(i), 1);
    }
    // A sender with no other connections registered reaches nobody.
    let mut lonely: Registry<u8> = Registry::new();
    lonely.register(5, 50, 0);
    assert_eq!(lonely.broadcast_targets(5), Vec::<usize>::new());
}

#[test]
fn open_channel_registers_in_chat_mode() {
    let mut reg: Registry<u8> = Registry::new();
    let conn = ConnectionState {
        id: 4,
        phase: Phase::Authenticated,
    };
    let (accept, outcome) = channel_open_session(&conn, &mut reg, 7, 0, &ServerMode::EchoBroadcast);
    assert!(accept);
    assert!(matches!(outcome, OpenOutcome::Registered));
    assert!(reg.contains_key(4, 7));
}

#[test]
fn open_channel_spawns_in_proxy_mode() {
    let mut reg: Registry<u8> = Registry::new();
    let conn = ConnectionState {
        id: 4,
        phase: Phase::Authenticated,
    };
    let (accept, outcome) = channel_open_session(&conn, &mut reg, 7, 0, &ServerMode::ProcessProxy);
    assert!(accept);
    assert!(matches!(outcome, OpenOutcome::SpawnGreeter));
    // The entry exists from the moment the open returns, in this mode too.
    assert!(reg.contains_key(4, 7));
    assert_eq!(reg.len(), 1);
}

#[test]
fn interrupt_byte_disconnects() {
    let reg: Registry<u8> = Registry::new();
    let conn = ConnectionState {
        id: 1,
        phase: Phase::Authenticated,
    };
    let verdict = data(&conn, &reg, 9, &[3u8]);
    assert!(matches!(verdict, DataVerdict::Disconnect));
}

#[test]
fn near_interrupt_payloads_relay() {
    let reg: Registry<u8> = Registry::new();
    let conn = ConnectionState {
        id: 1,
        phase: Phase::Authenticated,
    };
    for payload in [&[][..], &[4u8][..], &[3u8, 3u8][..]] {
        let verdict = data(&conn, &reg, 9, payload);
        assert!(matches!(verdict, DataVerdict::Relay { .. }));
    }
}

#[test]
fn data_relays_to_all_others_once() {
    let mut reg: Registry<u8> = Registry::new();
    reg.register(1, 10, 0);
    reg.register(2, 20, 1);
    reg.register(3, 30, 2);
    let conn = ConnectionState {
        id: 2,
        phase: Phase::Authenticated,
    };
    match data(&conn, &reg, 20, b"hello") {
        DataVerdict::Relay {
            message,
            targets,
            echo_chan,
        } => {
            assert_eq!(message, b"Got data: hello\r\n".to_vec());
            assert_eq!(targets, vec![0, 2]);
            assert_eq!(echo_chan, 20);
        }
        DataVerdict::Disconnect => panic!("ordinary payload must not disconnect"),
    }
}

#[test]
fn exec_request_is_informational() {
    let actions = exec_request(5, b"rm -rf /");
    assert!(actions.is_empty());
}

#[test]
fn pty_request_refuses_and_closes_in_order() {
    for (cols, rows) in [(80u32, 24u32), (0u32, 0u32), (9999u32, 1u32)] {
        let actions = pty_request(6, "xterm", cols, rows, 640, 480);
        assert_eq!(actions.len(), 5);
        match &actions[0] {
            Action::Send { chan, payload } => {
                assert_eq!(*chan, 6);
                assert_eq!(payload, &b"Not allowed\r\n".to_vec());
            }
            _ => panic!("first action must send the refusal"),
        }
        match &actions[1] {
            Action::Send { chan, payload } => {
                assert_eq!(*chan, 6);
                assert_eq!(payload, &b"Not allowed 2\r\n".to_vec());
            }
            _ => panic!("second action must send the second refusal"),
        }
        assert!(matches!(actions[2], Action::ExitStatus { chan: 6, code: 0 }));
        assert!(matches!(actions[3], Action::Eof { chan: 6 }));
        assert!(matches!(actions[4], Action::Close { chan: 6 }));
    }
}

#[test]
fn tcpip_forward_plan_is_fixed() {
    let plan = tcpip_forward("example.com", 8080);
    assert!(plan.accept);
    assert_eq!(plan.connected_address, "example.com".to_string());
    assert_eq!(plan.connected_port, 8080);
    assert_eq!(plan.originator_address, "1.2.3.4".to_string());
    assert_eq!(plan.originator_port, 1234);
    assert_eq!(plan.payload, b"Hello from a forwarded port".to_vec());
    assert!(plan.send_eof);
}

#[test]
fn stored_identity_is_reused() {
    let stored: Vec<u8> = (0u8..32u8).collect();
    let outcome = provide_server_key(Some(stored.clone()));
    assert!(!outcome.fresh);
    assert_eq!(outcome.identity.bytes, stored);
    let again = provide_server_key(Some(stored.clone()));
    assert_eq!(again.identity.bytes, outcome.identity.bytes);
}

#[test]
fn missing_identity_generates_fresh() {
    let first = provide_server_key(None);
    assert!(first.fresh);
    assert_eq!(first.identity.bytes.len(), 32);
    let second = provide_server_key(None);
    assert!(second.fresh);
    assert_eq!(second.identity.bytes.len(), 32);
    // Two generated identities agree only with negligible probability.
    assert_ne!(first.identity.bytes, second.identity.bytes);
}

#[test]
fn bridge_copies_bytes_exactly() {
    match bridge_step(BridgeEvent::ProcessOutput {
        bytes: b"out".to_vec(),
    }) {
        BridgeAction::WriteChannel { bytes } => assert_eq!(bytes, b"out".to_vec()),
        _ => panic!("subprocess output must go to the channel"),
    }
    match bridge_step(BridgeEvent::ChannelInput {
        bytes: b"in".to_vec(),
    }) {
        BridgeAction::WriteProcess { bytes } => assert_eq!(bytes, b"in".to_vec()),
        _ => panic!("channel input must go to the subprocess"),
    }
}

#[test]
fn bridge_closes_on_either_eof() {
    assert!(matches!(
        bridge_step(BridgeEvent::ProcessEof),
        BridgeAction::CloseChannel
    ));
    assert!(matches!(
        bridge_step(BridgeEvent::ChannelEof),
        BridgeAction::CloseChannel
    ));
}

#[test]
fn chat_round_reaches_every_other_connection_once() {
    // Three authenticated connections, one channel each, echo-broadcast mode.
    let mut reg: Registry<u8> = Registry::new();
    let mut factory = ConnectionFactory::new();
    let mut conns = Vec::new();
    for chan in [10u64, 20u64, 30u64] {
        let mut conn = factory.new_client();
        conn.auth_password(&AuthPolicy::AcceptAll, "user", "pw");
        let (accept, _) =
            channel_open_session(&conn, &mut reg, chan, 0, &ServerMode::EchoBroadcast);
        assert!(accept);
        conns.push((conn, chan));
    }
    // The middle connection speaks; exactly the two others are reached.
    let (speaker, chan) = &conns[1];
    match data(speaker, &reg, *chan, b"hey") {
        DataVerdict::Relay {
            message,
            targets,
            echo_chan,
        } => {
            assert_eq!(message, b"Got data: hey\r\n".to_vec());
            assert_eq!(echo_chan, *chan);
            let reached: Vec<(u64, u64)> = targets
                .iter()
                .map(|&i| (reg.conn_at(i), reg.channel_at(i)))
                .collect();
            assert_eq!(reached, vec![(0, 10), (2, 30)]);
        }
        DataVerdict::Disconnect => panic!("ordinary payload must not disconnect"),
    }
    // The speaker hangs up; its entry goes, the others stay.
    reg.remove_connection(conns[1].0.id);
    assert!(!reg.contains_key(1, 20));
    assert!(reg.contains_key(0, 10));
    assert!(reg.contains_key(2, 30));
}

#[test]
fn stored_identity_serves_without_rewrite() {
    let stored: Vec<u8> = (100u8..132u8).collect();
    let outcome = provide_server_key(Some(stored.clone()));
    // Nothing was generated, so no write is owed and serving is allowed.
    match confirm_persisted(outcome, false) {
        Ok(identity) => assert_eq!(identity.bytes, stored),
        Err(_) => panic!("a stored identity must always be served"),
    }
}

#[test]
fn fresh_identity_requires_persistence() {
    let outcome = provide_server_key(None);
    let bytes = outcome.identity.bytes.clone();
    match confirm_persisted(outcome, true) {
        Ok(identity) => assert_eq!(identity.bytes, bytes),
        Err(_) => panic!("a persisted fresh identity must be served"),
    }
    let outcome = provide_server_key(None);
    assert!(matches!(
        confirm_persisted(outcome, false),
        Err(IdentityError::PersistFailed)
    ));
}
