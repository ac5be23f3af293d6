use antifa::app::ConnectionState;
use antifa::p2p::{
    accepts_stream, bootstrap_status_label, delivery_report, incoming_event, normalize_onion,
    onion_service_status_label, outgoing_message, plan_command, service_configured_info,
    transport_failure_reports, CommandPlan, DeliveryKind, P2pCommand, P2pEvent, ServiceState,
    StatusDeduper, HANDSHAKE_BODY, SERVICE_PORT,
};
use antifa::tor::TorEvent;
use antifa::wire::WireMessage;

#[test]
fn normalizes_onion_addresses() {
    assert_eq!(normalize_onion("Example.Onion"), "example.onion");
    assert_eq!(normalize_onion("example.onion/"), "example.onion");
    assert_eq!(normalize_onion(""), "");
}

#[test]
fn normalize_trims_spaces_slashes_and_repeated_suffixes() {
    assert_eq!(normalize_onion("  Abc.onion.ONION// \n"), "abc.onion");
    assert_eq!(normalize_onion("abc"), "abc.onion");
    assert_eq!(normalize_onion("\u{3000}xyz\t"), "xyz.onion");
    assert_eq!(normalize_onion("   "), "");
    assert_eq!(normalize_onion(".onion"), "");
    assert_eq!(normalize_onion("///"), "");
    // Only slashes are stripped after trimming, so a space before them stays.
    assert_eq!(normalize_onion("abc /"), "abc .onion");
}

#[test]
fn normalize_is_idempotent_on_normal_forms() {
    for input in ["Example.Onion", "x.onion.onion/", "  q  ", ""] {
        let once = normalize_onion(input);
        assert_eq!(normalize_onion(&once), once);
    }
}

#[test]
fn normalized_form_is_empty_or_single_suffix() {
    for input in ["A.onion.onion", "b", " c.ONION/"] {
        let n = normalize_onion(input);
        assert!(n.ends_with(".onion"));
        assert!(!n[..n.len() - 6].ends_with(".onion"));
        assert!(n.len() > 6);
    }
}

#[test]
fn outgoing_message_uses_normalized_sender() {
    let m = outgoing_message("Me.Onion/", "hello");
    assert_eq!(m, WireMessage { from: "me.onion".to_owned(), body: "hello".to_owned() });
}

#[test]
fn incoming_handshake_announces_peer() {
    let e = incoming_event(WireMessage {
        from: "Alice.onion/".to_owned(),
        body: HANDSHAKE_BODY.to_owned(),
    });
    match e {
        P2pEvent::PeerConnected(from) => assert_eq!(from, "alice.onion"),
        other => panic!("unexpected {other:?}"),
    }
}

#[test]
fn incoming_text_is_reported_as_message() {
    let e = incoming_event(WireMessage { from: "bob".to_owned(), body: "hi".to_owned() });
    match e {
        P2pEvent::Incoming { from, body } => {
            assert_eq!(from, "bob.onion");
            assert_eq!(body, "hi");
        }
        other => panic!("unexpected {other:?}"),
    }
}

#[test]
fn only_streams_to_service_port_are_accepted() {
    assert_eq!(SERVICE_PORT, 17600);
    assert!(accepts_stream(Some(17600)));
    assert!(!accepts_stream(Some(80)));
    assert!(!accepts_stream(None));
}

#[test]
fn connect_to_blank_address_is_refused() {
    match plan_command(P2pCommand::Connect("  /".to_owned()), "me.onion") {
        CommandPlan::Refuse(P2pEvent::Info(text)) => {
            assert_eq!(text, "Enter a peer .onion address before connecting.")
        }
        other => panic!("unexpected {other:?}"),
    }
}

#[test]
fn connect_announces_and_sends_handshake() {
    match plan_command(P2pCommand::Connect("Bob.Onion".to_owned()), "Me.onion") {
        CommandPlan::Deliver { announce, delivery } => {
            assert_eq!(announce.len(), 1);
            match &announce[0] {
                P2pEvent::Status(ConnectionState::Connecting(p)) => assert_eq!(p, "bob.onion"),
                other => panic!("unexpected {other:?}"),
            }
            assert_eq!(delivery.kind, DeliveryKind::Handshake);
            assert_eq!(delivery.peer, "bob.onion");
            assert_eq!(delivery.message.from, "me.onion");
            assert_eq!(delivery.message.body, HANDSHAKE_BODY);
        }
        other => panic!("unexpected {other:?}"),
    }
}

#[test]
fn send_to_blank_address_is_refused() {
    let cmd = P2pCommand::Send { to: String::new(), body: "x".to_owned() };
    match plan_command(cmd, "me.onion") {
        CommandPlan::Refuse(P2pEvent::Info(text)) => {
            assert_eq!(text, "Enter a peer .onion address before sending.")
        }
        other => panic!("unexpected {other:?}"),
    }
}

#[test]
fn send_delivers_body_without_announcement() {
    let cmd = P2pCommand::Send { to: "carol.onion/".to_owned(), body: "hey there".to_owned() };
    match plan_command(cmd, "me") {
        CommandPlan::Deliver { announce, delivery } => {
            assert!(announce.is_empty());
            assert_eq!(delivery.kind, DeliveryKind::Text);
            assert_eq!(delivery.peer, "carol.onion");
            assert_eq!(delivery.message.from, "me.onion");
            assert_eq!(delivery.message.body, "hey there");
        }
        other => panic!("unexpected {other:?}"),
    }
}

#[test]
fn successful_delivery_opens_session() {
    for kind in [DeliveryKind::Handshake, DeliveryKind::Text] {
        let events = delivery_report(kind, "bob.onion", None);
        assert_eq!(events.len(), 1);
        match &events[0] {
            P2pEvent::Status(ConnectionState::Connected(p)) => assert_eq!(p, "bob.onion"),
            other => panic!("unexpected {other:?}"),
        }
    }
}

#[test]
fn failed_handshake_reports_and_disconnects() {
    let events = delivery_report(DeliveryKind::Handshake, "bob.onion", Some("timeout".to_owned()));
    assert_eq!(events.len(), 2);
    match &events[0] {
        P2pEvent::Info(t) => assert_eq!(t, "Failed to connect to bob.onion: timeout"),
        other => panic!("unexpected {other:?}"),
    }
    assert!(matches!(events[1], P2pEvent::Status(ConnectionState::Disconnected)));
}

#[test]
fn failed_text_only_reports() {
    let events = delivery_report(DeliveryKind::Text, "bob.onion", Some("refused".to_owned()));
    assert_eq!(events.len(), 1);
    match &events[0] {
        P2pEvent::Info(t) => assert_eq!(t, "Failed to send to bob.onion: refused"),
        other => panic!("unexpected {other:?}"),
    }
}

#[test]
fn bootstrap_labels() {
    assert_eq!(bootstrap_status_label(true, "100%"), "Tor network ready");
    assert_eq!(bootstrap_status_label(false, "42%: loading"), "Bootstrapping Tor: 42%: loading");
}

#[test]
fn deduper_drops_consecutive_repeats() {
    let mut d = StatusDeduper::new();
    assert_eq!(d.observe("a".to_owned()), Some("a".to_owned()));
    assert_eq!(d.observe("a".to_owned()), None);
    assert_eq!(d.observe("b".to_owned()), Some("b".to_owned()));
    assert_eq!(d.observe("a".to_owned()), Some("a".to_owned()));
}

#[test]
fn service_status_labels() {
    assert_eq!(onion_service_status_label(ServiceState::Shutdown, None), "Onion service stopped");
    assert_eq!(
        onion_service_status_label(ServiceState::Bootstrapping, None),
        "Publishing onion service..."
    );
    assert_eq!(
        onion_service_status_label(ServiceState::Degraded, None),
        "Onion service reachable with limited capacity"
    );
    assert_eq!(onion_service_status_label(ServiceState::Running, None), "Onion service reachable");
    assert_eq!(
        onion_service_status_label(ServiceState::Recovering, None),
        "Onion service recovering"
    );
    assert_eq!(onion_service_status_label(ServiceState::Broken, None), "Onion service failed");
    assert_eq!(
        onion_service_status_label(ServiceState::Broken, Some("NoRelays".to_owned())),
        "Onion service failed: NoRelays"
    );
    assert_eq!(
        onion_service_status_label(ServiceState::Other, None),
        "Onion service state changed"
    );
}

#[test]
fn transport_failure_messages() {
    let (tor, events) = transport_failure_reports("no network");
    match tor {
        TorEvent::Status(s) => assert_eq!(s, "Tor failed: no network"),
        other => panic!("unexpected {other:?}"),
    }
    assert_eq!(events.len(), 2);
    match &events[0] {
        P2pEvent::Info(t) => assert_eq!(t, "Transport error: no network"),
        other => panic!("unexpected {other:?}"),
    }
    assert!(matches!(events[1], P2pEvent::Status(ConnectionState::Disconnected)));
}

#[test]
fn service_configured_notice_names_port() {
    match service_configured_info("abc.onion") {
        P2pEvent::Info(t) => assert_eq!(t, "Hidden service configured on abc.onion (port 17600)"),
        other => panic!("unexpected {other:?}"),
    }
}
