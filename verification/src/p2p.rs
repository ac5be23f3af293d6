//! The decisions of the peer-to-peer transport: what each user command
//! sends and reports, how incoming messages are reported, and the status
//! lines shown for the Tor client and the onion service.
//!
//! The transport itself (Tor client, onion service, streams) runs outside
//! the library; it hands the library plain values and carries out what the
//! library decides.
use vstd::prelude::*;

use crate::app::ConnectionState;
use crate::onion::normalized_onion;
pub use crate::onion::normalize_onion;
use crate::text::{concat, concat3, decimal, decimal_digits};
use crate::tor::TorEvent;
use crate::wire::WireMessage;

verus! {

/// The body of the message a peer sends when it opens a session.
pub const HANDSHAKE_BODY: &'static str = "__antifa_handshake__";

/// The nickname of the local onion service.
pub const SERVICE_NICKNAME: &'static str = "antifa-messenger";

/// The port on which the onion service accepts messages.
pub const SERVICE_PORT: u16 = 17600;

/// The characters of `HANDSHAKE_BODY`.
pub open spec fn handshake_body() -> Seq<char> {
    "__antifa_handshake__"@
}

/// What the transport reports to the user interface.
#[derive(Clone, Debug)]
pub enum P2pEvent {
    Status(ConnectionState),
    PeerConnected(String),
    Info(String),
    Incoming { from: String, body: String },
    VideoFrame { from: String, png: Vec<u8> },
    VideoState { active: bool, label: String },
}

/// What the user interface asks the transport to do.
#[derive(Clone, Debug)]
pub enum P2pCommand {
    Connect(String),
    Send { to: String, body: String },
}

/// The message the local service sends: its normalised address and `body`.
pub fn outgoing_message(from_onion: &str, body: &str) -> (m: WireMessage)
    ensures
        m.from@ == normalized_onion(from_onion@),
        m.body@ == body@,
{
    WireMessage { from: normalize_onion(from_onion), body: String::from_str(body) }
}

/// How a received message is reported: a handshake announces the peer,
/// anything else is a chat message from it.  The sender's address is
/// normalised either way.
pub fn incoming_event(message: WireMessage) -> (e: P2pEvent)
    ensures
        message.body@ == handshake_body() ==> (e matches P2pEvent::PeerConnected(from) && from@
            == normalized_onion(message.from@)),
        message.body@ != handshake_body() ==> (e matches P2pEvent::Incoming { from, body }
            && from@ == normalized_onion(message.from@) && body == message.body),
{
    let from = normalize_onion(message.from.as_str());
    let handshake = String::from_str(HANDSHAKE_BODY);
    proof {
        reveal_strlit("__antifa_handshake__");
    }
    if message.body == handshake {
        P2pEvent::PeerConnected(from)
    } else {
        P2pEvent::Incoming { from, body: message.body }
    }
}

/// Whether an incoming stream is accepted: only a stream opened to
/// `SERVICE_PORT` is.  `begin_port` is the port of a stream-opening request,
/// or `None` for any other kind of request.
pub fn accepts_stream(begin_port: Option<u16>) -> (r: bool)
    ensures
        r == (begin_port == Some(SERVICE_PORT)),
{
    match begin_port {
        Some(port) => port == SERVICE_PORT,
        None => false,
    }
}


/// What a delivery attempt was for.
#[derive(Clone, Copy, Debug, PartialEq, Eq, Structural)]
pub enum DeliveryKind {
    /// Opening a session (a `Connect` command).
    Handshake,
    /// A chat message (a `Send` command).
    Text,
}

/// A message to send to a peer.
#[derive(Clone, Debug)]
pub struct Delivery {
    pub kind: DeliveryKind,
    pub peer: String,
    pub message: WireMessage,
}

/// What the transport does with a user command.
#[derive(Clone, Debug)]
pub enum CommandPlan {
    /// Nothing is sent; the event is reported.
    Refuse(P2pEvent),
    /// The events are reported, then the delivery is attempted.
    Deliver { announce: Vec<P2pEvent>, delivery: Delivery },
}

/// The plan for `cmd`, issued by the service whose address is `local_onion`:
/// the peer's address is normalised, an address that normalises to nothing
/// is refused with a hint, a `Connect` announces the attempt and sends the
/// handshake, and a `Send` sends the body.  Messages carry the normalised
/// local address as their sender.
pub fn plan_command(cmd: P2pCommand, local_onion: &str) -> (plan: CommandPlan)
    ensures
        match cmd {
            P2pCommand::Connect(peer) => if normalized_onion(peer@).len() == 0 {
                plan matches CommandPlan::Refuse(P2pEvent::Info(text)) && text@
                    == "Enter a peer .onion address before connecting."@
            } else {
                plan matches CommandPlan::Deliver { announce, delivery } && announce@.len() == 1
                    && (announce@[0] matches P2pEvent::Status(ConnectionState::Connecting(p))
                    && p@ == normalized_onion(peer@)) && delivery.kind == DeliveryKind::Handshake
                    && delivery.peer@ == normalized_onion(peer@) && delivery.message.from@
                    == normalized_onion(local_onion@) && delivery.message.body@ == handshake_body()
            },
            P2pCommand::Send { to, body } => if normalized_onion(to@).len() == 0 {
                plan matches CommandPlan::Refuse(P2pEvent::Info(text)) && text@
                    == "Enter a peer .onion address before sending."@
            } else {
                plan matches CommandPlan::Deliver { announce, delivery } && announce@.len() == 0
                    && delivery.kind == DeliveryKind::Text && delivery.peer@ == normalized_onion(
                    to@,
                ) && delivery.message.from@ == normalized_onion(local_onion@)
                    && delivery.message.body@ == body@
            },
        },
{
    match cmd {
        P2pCommand::Connect(peer) => {
            let peer = normalize_onion(peer.as_str());
            if peer.unicode_len() == 0 {
                return CommandPlan::Refuse(
                    P2pEvent::Info(
                        String::from_str("Enter a peer .onion address before connecting."),
                    ),
                );
            }
            let mut announce: Vec<P2pEvent> = Vec::new();
            announce.push(P2pEvent::Status(ConnectionState::Connecting(peer.clone())));
            let message = outgoing_message(local_onion, HANDSHAKE_BODY);
            CommandPlan::Deliver {
                announce,
                delivery: Delivery { kind: DeliveryKind::Handshake, peer, message },
            }
        },
        P2pCommand::Send { to, body } => {
            let peer = normalize_onion(to.as_str());
            if peer.unicode_len() == 0 {
                return CommandPlan::Refuse(
                    P2pEvent::Info(String::from_str("Enter a peer .onion address before sending.")),
                );
            }
            let message = outgoing_message(local_onion, body.as_str());
            CommandPlan::Deliver {
                announce: Vec::new(),
                delivery: Delivery { kind: DeliveryKind::Text, peer, message },
            }
        },
    }
}

/// What is reported once a delivery has been attempted.  Success opens (or
/// keeps) the session with the peer.  A failed handshake reports the error
/// and closes the session; a failed chat message only reports the error.
/// `failure` is the error's text.
pub fn delivery_report(kind: DeliveryKind, peer: &str, failure: Option<String>) -> (events: Vec<
    P2pEvent,
>)
    ensures
        match failure {
            None => events@.len() == 1 && (events@[0] matches P2pEvent::Status(
                ConnectionState::Connected(p),
            ) && p@ == peer@),
            Some(err) => match kind {
                DeliveryKind::Handshake => events@.len() == 2 && (events@[0] matches P2pEvent::Info(
                    text,
                ) && text@ == "Failed to connect to "@ + peer@ + ": "@ + err@) && (events@[1] matches P2pEvent::Status(
                    ConnectionState::Disconnected,
                )),
                DeliveryKind::Text => events@.len() == 1 && (events@[0] matches P2pEvent::Info(text)
                    && text@ == "Failed to send to "@ + peer@ + ": "@ + err@),
            },
        },
{
    let mut events: Vec<P2pEvent> = Vec::new();
    match failure {
        None => {
            events.push(P2pEvent::Status(ConnectionState::Connected(String::from_str(peer))));
        },
        Some(err) => match kind {
            DeliveryKind::Handshake => {
                let mut text = concat3("Failed to connect to ", peer, ": ");
                text.append(err.as_str());
                events.push(P2pEvent::Info(text));
                events.push(P2pEvent::Status(ConnectionState::Disconnected));
            },
            DeliveryKind::Text => {
                let mut text = concat3("Failed to send to ", peer, ": ");
                text.append(err.as_str());
                events.push(P2pEvent::Info(text));
            },
        },
    }
    events
}

/// The status line for a bootstrap progress report: `Tor network ready`
/// once the client can carry traffic, otherwise the progress text after
/// `Bootstrapping Tor: `.
pub fn bootstrap_status_label(ready_for_traffic: bool, progress: &str) -> (label: String)
    ensures
        ready_for_traffic ==> label@ == "Tor network ready"@,
        !ready_for_traffic ==> label@ == "Bootstrapping Tor: "@ + progress@,
{
    if ready_for_traffic {
        String::from_str("Tor network ready")
    } else {
        concat("Bootstrapping Tor: ", progress)
    }
}

/// The views of an optional string.
pub open spec fn opt_view(o: Option<String>) -> Option<Seq<char>> {
    match o {
        Some(s) => Some(s@),
        None => None,
    }
}

/// Whether a status line is passed on after the line `last`.
pub open spec fn status_emits(last: Option<Seq<char>>, label: Seq<char>) -> bool {
    last != Some(label)
}

/// Passes status lines on, dropping a line equal to the one passed before.
#[derive(Clone, Debug)]
pub struct StatusDeduper {
    pub last: Option<String>,
}

impl StatusDeduper {
    /// A deduplicator that has passed nothing yet.
    pub fn new() -> (d: Self)
        ensures
            d.last is None,
    {
        StatusDeduper { last: None }
    }

    /// Returns `label` unless it equals the line passed last.
    pub fn observe(&mut self, label: String) -> (r: Option<String>)
        ensures
            status_emits(opt_view(old(self).last), label@) ==> (r == Some(label) && final(self).last
                == Some(label)),
            !status_emits(opt_view(old(self).last), label@) ==> (r is None && final(self).last
                == old(self).last),
            r is Some <==> opt_view(old(self).last) != Some(label@),
    {
        let repeat = match &self.last {
            Some(prev) => *prev == label,
            None => false,
        };
        if repeat {
            None
        } else {
            self.last = Some(label.clone());
            Some(label)
        }
    }
}

/// Once a line has been passed, the same line right after it is dropped.
pub proof fn lemma_status_repeat_dropped(label: Seq<char>)
    ensures
        !status_emits(Some(label), label),
{
}

/// A line is passed on exactly when it differs from the line passed last
/// (or nothing was passed yet): a changed line is never dropped, however
/// much it shares with the one before.
pub proof fn lemma_status_change_passed(last: Option<Seq<char>>, label: Seq<char>)
    ensures
        status_emits(last, label) <==> last != Some(label),
        last is None ==> status_emits(last, label),
        forall|prev: Seq<char>| #[trigger] status_emits(Some(prev), label) <==> prev != label,
{
}

/// The states of an onion service, as the transport reports them.
#[derive(Clone, Copy, Debug, PartialEq, Eq, Structural)]
pub enum ServiceState {
    Shutdown,
    Bootstrapping,
    Degraded,
    Running,
    Recovering,
    Broken,
    /// A state this library does not know.
    Other,
}

/// The status line for the onion service in `state`; `problem` is the
/// description of the current problem, if any.
pub open spec fn service_status_text(state: ServiceState, problem: Option<Seq<char>>) -> Seq<
    char,
> {
    match state {
        ServiceState::Shutdown => "Onion service stopped"@,
        ServiceState::Bootstrapping => "Publishing onion service..."@,
        ServiceState::Degraded => "Onion service reachable with limited capacity"@,
        ServiceState::Running => "Onion service reachable"@,
        ServiceState::Recovering => "Onion service recovering"@,
        ServiceState::Broken => match problem {
            Some(p) => "Onion service failed: "@ + p,
            None => "Onion service failed"@,
        },
        ServiceState::Other => "Onion service state changed"@,
    }
}

/// The status line for the onion service.
pub fn onion_service_status_label(state: ServiceState, problem: Option<String>) -> (label: String)
    ensures
        label@ == service_status_text(state, opt_view(problem)),
{
    match state {
        ServiceState::Shutdown => String::from_str("Onion service stopped"),
        ServiceState::Bootstrapping => String::from_str("Publishing onion service..."),
        ServiceState::Degraded => String::from_str(
            "Onion service reachable with limited capacity",
        ),
        ServiceState::Running => String::from_str("Onion service reachable"),
        ServiceState::Recovering => String::from_str("Onion service recovering"),
        ServiceState::Broken => match problem {
            Some(p) => concat("Onion service failed: ", p.as_str()),
            None => String::from_str("Onion service failed"),
        },
        ServiceState::Other => String::from_str("Onion service state changed"),
    }
}

/// What is reported when the transport stops on an error whose text is
/// `err`: the Tor status, a transport notice, and the closed session.
pub fn transport_failure_reports(err: &str) -> (r: (TorEvent, Vec<P2pEvent>))
    ensures
        r.0 matches TorEvent::Status(s) && s@ == "Tor failed: "@ + err@,
        r.1@.len() == 2,
        r.1@[0] matches P2pEvent::Info(s) && s@ == "Transport error: "@ + err@,
        r.1@[1] matches P2pEvent::Status(ConnectionState::Disconnected),
{
    let mut events: Vec<P2pEvent> = Vec::new();
    events.push(P2pEvent::Info(concat("Transport error: ", err)));
    events.push(P2pEvent::Status(ConnectionState::Disconnected));
    (TorEvent::Status(concat("Tor failed: ", err)), events)
}


/// The notice that the local onion service is configured at `local_onion`.
pub fn service_configured_info(local_onion: &str) -> (e: P2pEvent)
    ensures
        e matches P2pEvent::Info(text) && text@ == "Hidden service configured on "@ + local_onion@
            + " (port "@ + decimal_digits(SERVICE_PORT as nat) + ")"@,
{
    let mut text = concat3("Hidden service configured on ", local_onion, " (port ");
    let port = decimal(SERVICE_PORT as u64);
    text.append(port.as_str());
    text.append(")");
    P2pEvent::Info(text)
}

} // verus!
