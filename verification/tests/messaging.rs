use antifa::messaging::{now, seconds_or_zero, ChatMessage, Peer};

#[test]
fn peer_labels() {
    assert_eq!(Peer::Local.label(), "you");
    assert_eq!(Peer::Remote("x.onion".to_owned()).label(), "peer");
    assert_eq!(Peer::System.label(), "system");
}

#[test]
fn messages_are_stamped_now() {
    let before = now();
    let s = ChatMessage::system("notice".to_owned());
    let l = ChatMessage::local("mine".to_owned());
    let after = now();
    assert!(matches!(s.from, Peer::System));
    assert_eq!(s.body, "notice");
    assert!(matches!(l.from, Peer::Local));
    assert_eq!(l.body, "mine");
    assert!(before <= s.timestamp && s.timestamp <= after);
    assert!(before <= l.timestamp && l.timestamp <= after);
    assert!(before > 1_600_000_000);
}

#[test]
fn clock_readings_become_timestamps() {
    assert_eq!(seconds_or_zero(Some(1_700_000_000)), 1_700_000_000);
    assert_eq!(seconds_or_zero(Some(0)), 0);
    assert_eq!(seconds_or_zero(None), 0);
}
