use antifa::app::{
    chip_label, message_alignment, BubbleAlignment, ConnectionState, MessengerState, VideoRequest,
};
use antifa::messaging::{ChatMessage, Peer};
use antifa::p2p::P2pEvent;
use antifa::tor::TorEvent;

fn last_line(s: &MessengerState) -> &str {
    s.status_feed.last().unwrap().as_str()
}

#[test]
fn starts_bootstrapping_with_welcome() {
    let s = MessengerState::new();
    assert_eq!(s.tor_status, "Bootstrapping Tor network...");
    assert!(matches!(s.connection, ConnectionState::Disconnected));
    assert!(!s.video_active);
    assert_eq!(s.video_status, "Video idle");
    assert_eq!(s.friend_alias, "Direct Session");
    assert_eq!(s.chat.peer_label, "Direct Session");
    assert_eq!(s.chat.messages.len(), 1);
    assert!(matches!(s.chat.messages[0].from, Peer::System));
    assert_eq!(
        s.chat.messages[0].body,
        "Welcome. Wait for Tor to publish your .onion, then share it with a contact."
    );
    assert_eq!(s.status_feed, vec!["App launched".to_owned()]);
    assert!(s.pending_remote_video.is_none());
    assert_eq!(s.connection_label(), "Disconnected");
    assert_eq!(s.active_chat_title(), "Chat (offline)");
    assert_eq!(s.video_button_label(), "Start Video");
}

#[test]
fn tor_events_update_status_and_identity() {
    let mut s = MessengerState::new();
    s.apply_tor_event(TorEvent::Status("Tor network ready".to_owned()));
    assert_eq!(s.tor_status, "Tor network ready");
    assert_eq!(last_line(&s), "Tor: Tor network ready");
    s.apply_tor_event(TorEvent::OnionAddress("me.onion".to_owned()));
    assert_eq!(s.onion_address, "me.onion");
    assert_eq!(last_line(&s), "Hidden service identity ready: me.onion");
    assert_eq!(s.status_feed.len(), 3);
}

#[test]
fn status_events_are_logged() {
    let mut s = MessengerState::new();
    s.apply_p2p_event(P2pEvent::Status(ConnectionState::Connecting("b.onion".to_owned())));
    assert_eq!(last_line(&s), "Connecting to b.onion");
    assert_eq!(s.connection_label(), "Connecting to b.onion");
    assert_eq!(s.active_chat_title(), "Connecting to b.onion");
    s.apply_p2p_event(P2pEvent::Status(ConnectionState::Connected("b.onion".to_owned())));
    assert_eq!(last_line(&s), "Connected to b.onion");
    assert_eq!(s.active_chat_title(), "Chat with b.onion");
    s.apply_p2p_event(P2pEvent::Status(ConnectionState::Disconnected));
    assert_eq!(last_line(&s), "Disconnected");
    s.apply_p2p_event(P2pEvent::Info("hello".to_owned()));
    assert_eq!(last_line(&s), "Transport: hello");
}

#[test]
fn peer_connected_fills_address_and_default_alias() {
    let mut s = MessengerState::new();
    s.apply_p2p_event(P2pEvent::PeerConnected("alice.onion".to_owned()));
    assert_eq!(s.friend_address, "alice.onion");
    assert_eq!(s.friend_alias, "alice.onion");
    assert_eq!(s.chat.peer_label, "alice.onion");
    assert_eq!(s.chat.onion, "alice.onion");
    assert!(matches!(&s.connection, ConnectionState::Connected(p) if p == "alice.onion"));
    assert_eq!(last_line(&s), "Peer connected: alice.onion");
}

#[test]
fn peer_connected_keeps_chosen_address_and_alias() {
    let mut s = MessengerState::new();
    s.friend_address = "bob.onion".to_owned();
    s.friend_alias = "Bob".to_owned();
    s.apply_p2p_event(P2pEvent::PeerConnected("alice.onion".to_owned()));
    assert_eq!(s.friend_address, "bob.onion");
    assert_eq!(s.friend_alias, "Bob");
    assert_eq!(s.chat.peer_label, "Bob");
    assert_eq!(s.chat.onion, "alice.onion");
}

#[test]
fn incoming_message_is_added_to_chat() {
    let mut s = MessengerState::new();
    s.friend_address = "   ".to_owned();
    s.apply_p2p_event(P2pEvent::Incoming { from: "c.onion".to_owned(), body: "yo".to_owned() });
    assert_eq!(s.friend_address, "c.onion");
    assert_eq!(s.chat.onion, "c.onion");
    assert_eq!(s.chat.messages.len(), 2);
    let m: &ChatMessage = s.chat.messages.last().unwrap();
    assert!(matches!(&m.from, Peer::Remote(p) if p == "c.onion"));
    assert_eq!(m.body, "yo");
    assert_eq!(s.status_feed.len(), 1);
}

#[test]
fn video_events() {
    let mut s = MessengerState::new();
    s.apply_p2p_event(P2pEvent::VideoFrame { from: "d.onion".to_owned(), png: vec![1, 2] });
    assert_eq!(s.video_status, "Receiving experimental video from d.onion");
    assert_eq!(s.take_pending_video(), Some(vec![1, 2]));
    assert_eq!(s.take_pending_video(), None);
    s.apply_p2p_event(P2pEvent::VideoState { active: true, label: "live".to_owned() });
    assert!(s.video_active);
    assert_eq!(s.video_status, "live");
    s.record_video_decode_failure("bad PNG");
    assert_eq!(last_line(&s), "Video decode failed: bad PNG");
}

#[test]
fn sending_without_friend_adds_notice() {
    let mut s = MessengerState::new();
    s.message_input = "hi".to_owned();
    assert_eq!(s.send_current_message(), None);
    assert_eq!(s.chat.messages.last().unwrap().body, "Enter a friend's .onion before sending.");
    assert_eq!(s.message_input, "hi");
}

#[test]
fn sending_blank_input_does_nothing() {
    let mut s = MessengerState::new();
    s.friend_address = "e.onion".to_owned();
    s.message_input = " \t".to_owned();
    assert_eq!(s.send_current_message(), None);
    assert_eq!(s.chat.messages.len(), 1);
    assert_eq!(s.message_input, " \t");
}

#[test]
fn sending_trims_records_and_clears() {
    let mut s = MessengerState::new();
    s.friend_address = "e.onion".to_owned();
    s.message_input = "  hello there \n".to_owned();
    assert_eq!(
        s.send_current_message(),
        Some(("e.onion".to_owned(), "hello there".to_owned()))
    );
    let m = s.chat.messages.last().unwrap();
    assert!(matches!(m.from, Peer::Local));
    assert_eq!(m.body, "hello there");
    assert_eq!(s.message_input, "");
}

#[test]
fn toggling_video() {
    let mut s = MessengerState::new();
    assert!(matches!(s.toggle_video(), VideoRequest::Nothing));
    assert_eq!(
        s.chat.messages.last().unwrap().body,
        "Enter a friend's .onion before starting video."
    );
    s.friend_address = " f.onion ".to_owned();
    assert!(matches!(s.toggle_video(), VideoRequest::Start(p) if p == " f.onion "));
    assert!(s.video_active);
    assert_eq!(s.video_status, "Starting experimental video to f.onion");
    assert_eq!(s.video_button_label(), "Stop Video");
    assert!(matches!(s.toggle_video(), VideoRequest::Stop));
    assert!(!s.video_active);
    assert_eq!(s.video_status, "Video stopped");
}

#[test]
fn starting_a_session() {
    let mut s = MessengerState::new();
    assert_eq!(s.start_session(), None);
    assert_eq!(s.chat.messages.len(), 1);
    s.friend_address = "g.onion".to_owned();
    s.friend_alias = "Gee".to_owned();
    assert_eq!(s.start_session(), Some("g.onion".to_owned()));
    assert!(matches!(&s.connection, ConnectionState::Connecting(p) if p == "g.onion"));
    assert_eq!(s.chat.peer_label, "Gee");
    assert_eq!(s.chat.onion, "g.onion");
    assert_eq!(s.chat.messages.last().unwrap().body, "Attempting connection to Gee (g.onion)");
}

#[test]
fn history_only_grows() {
    let mut s = MessengerState::new();
    let before_feed = s.status_feed.clone();
    s.apply_tor_event(TorEvent::Status("x".to_owned()));
    s.apply_p2p_event(P2pEvent::Incoming { from: "h.onion".to_owned(), body: "1".to_owned() });
    s.record_video_decode_failure("e");
    assert_eq!(&s.status_feed[..before_feed.len()], &before_feed[..]);
    assert_eq!(s.chat.messages.len(), 2);
}

#[test]
fn chips_and_bubbles() {
    assert_eq!(chip_label("Tor", "ready"), "Tor: ready");
    assert_eq!(message_alignment(&Peer::Local), BubbleAlignment::Right);
    assert_eq!(message_alignment(&Peer::Remote("x".to_owned())), BubbleAlignment::Left);
    assert_eq!(message_alignment(&Peer::System), BubbleAlignment::Center);
}

fn sample_events() -> Vec<P2pEvent> {
    vec![
        P2pEvent::Info("listening".to_owned()),
        P2pEvent::Status(ConnectionState::Connecting("e.onion".to_owned())),
        P2pEvent::PeerConnected("e.onion".to_owned()),
        P2pEvent::Incoming { from: "e.onion".to_owned(), body: "hi".to_owned() },
        P2pEvent::VideoState { active: true, label: "live".to_owned() },
        P2pEvent::VideoFrame { from: "e.onion".to_owned(), png: vec![7] },
        P2pEvent::Info("done".to_owned()),
    ]
}

#[test]
fn a_batch_of_events_is_applied_one_at_a_time() {
    let mut batch = MessengerState::new();
    batch.apply_p2p_events(sample_events());
    let mut single = MessengerState::new();
    for e in sample_events() {
        single.apply_p2p_event(e);
    }
    assert_eq!(batch.status_feed, single.status_feed);
    assert_eq!(batch.status_feed.len(), 5);
    assert_eq!(batch.status_feed[1], "Transport: listening");
    assert_eq!(batch.friend_address, single.friend_address);
    assert_eq!(batch.friend_alias, single.friend_alias);
    assert_eq!(batch.chat.onion, single.chat.onion);
    assert_eq!(batch.chat.messages.len(), single.chat.messages.len());
    assert_eq!(batch.chat.messages.last().unwrap().body, "hi");
    assert_eq!(batch.video_active, single.video_active);
    assert_eq!(batch.video_status, single.video_status);
    assert_eq!(batch.video_status, "Receiving experimental video from e.onion");
    assert_eq!(batch.connection_label(), single.connection_label());
    assert_eq!(batch.take_pending_video(), Some(vec![7]));
}

#[test]
fn an_empty_batch_changes_nothing() {
    let mut s = MessengerState::new();
    s.apply_p2p_events(Vec::new());
    assert_eq!(s.status_feed, vec!["App launched".to_owned()]);
    assert_eq!(s.chat.messages.len(), 1);
}

#[test]
fn batches_split_anywhere_give_the_same_state() {
    let all = sample_events();
    let mut whole = MessengerState::new();
    whole.apply_p2p_events(sample_events());
    for k in 0..=all.len() {
        let mut parts = MessengerState::new();
        let mut first = sample_events();
        let second = first.split_off(k);
        parts.apply_p2p_events(first);
        parts.apply_p2p_events(second);
        assert_eq!(parts.status_feed, whole.status_feed);
        assert_eq!(parts.video_status, whole.video_status);
        assert_eq!(parts.friend_address, whole.friend_address);
    }
}
