//! The state of the chat session shown by the user interface, and how it
//! reacts to events from the transport and to the user's actions.
//!
//! The status feed and the conversation only ever grow: every operation
//! keeps what they held and at most appends to them.
use vstd::prelude::*;

use crate::messaging::{ChatMessage, Peer};
use crate::p2p::P2pEvent;
use crate::text::{concat, concat3, is_blank, trim_ws, trimmed};
use crate::tor::TorEvent;

verus! {

/// Whether a session with a peer is open.
#[derive(Clone, Debug)]
pub enum ConnectionState {
    Disconnected,
    Connecting(String),
    Connected(String),
}

/// The conversation with the current peer.
#[derive(Clone, Debug)]
pub struct Conversation {
    pub peer_label: String,
    pub onion: String,
    pub messages: Vec<ChatMessage>,
}

/// Everything the user interface shows and edits, apart from the widgets
/// and channels themselves.
#[derive(Clone, Debug)]
pub struct MessengerState {
    pub onion_address: String,
    pub tor_status: String,
    pub connection: ConnectionState,
    pub video_active: bool,
    pub video_status: String,
    pub friend_address: String,
    pub friend_alias: String,
    pub message_input: String,
    pub chat: Conversation,
    pub status_feed: Vec<String>,
    pub pending_remote_video: Option<Vec<u8>>,
}

/// What the user asked of the video stream.
#[derive(Clone, Debug)]
pub enum VideoRequest {
    /// Start streaming to this peer.
    Start(String),
    /// Stop streaming.
    Stop,
    /// Nothing to do (no peer to stream to).
    Nothing,
}

/// Where a chat bubble sits.
#[derive(Clone, Copy, Debug, PartialEq, Eq, Structural)]
pub enum BubbleAlignment {
    Left,
    Center,
    Right,
}

/// The alias a session has until the user or the peer names it.
pub open spec fn default_alias() -> Seq<char> {
    "Direct Session"@
}

/// The text describing a connection state.
pub open spec fn connection_text(c: ConnectionState) -> Seq<char> {
    match c {
        ConnectionState::Disconnected => "Disconnected"@,
        ConnectionState::Connecting(p) => "Connecting to "@ + p@,
        ConnectionState::Connected(p) => "Connected to "@ + p@,
    }
}

/// The title of the chat pane for a connection state.
pub open spec fn chat_title_text(c: ConnectionState) -> Seq<char> {
    match c {
        ConnectionState::Connected(p) => "Chat with "@ + p@,
        ConnectionState::Connecting(p) => "Connecting to "@ + p@,
        ConnectionState::Disconnected => "Chat (offline)"@,
    }
}

/// Whether a text is empty once trimmed.
pub open spec fn blank(s: Seq<char>) -> bool {
    trim_ws(s).len() == 0
}

/// `new` is `old` with one more line, whose text is `line`.
pub open spec fn appended_line(old: Seq<String>, new: Seq<String>, line: Seq<char>) -> bool {
    &&& new.len() == old.len() + 1
    &&& new.drop_last() == old
    &&& new.last()@ == line
}

/// `new` is `old` with one more message, from `from`, whose body is `body`.
pub open spec fn appended_message(
    old: Seq<ChatMessage>,
    new: Seq<ChatMessage>,
    from: Peer,
    body: Seq<char>,
) -> bool {
    &&& new.len() == old.len() + 1
    &&& new.drop_last() == old
    &&& new.last().from == from
    &&& new.last().body@ == body
}

/// `b` keeps everything the status feed and the conversation of `a` held.
pub open spec fn keeps_history(a: MessengerState, b: MessengerState) -> bool {
    &&& a.status_feed@.len() <= b.status_feed@.len()
    &&& b.status_feed@.subrange(0, a.status_feed@.len() as int) == a.status_feed@
    &&& a.chat.messages@.len() <= b.chat.messages@.len()
    &&& b.chat.messages@.subrange(0, a.chat.messages@.len() as int) == a.chat.messages@
}

/// Keeping history composes: a state reached through several operations
/// still holds everything the first state's feed and conversation held.
pub proof fn lemma_history_transitive(a: MessengerState, b: MessengerState, c: MessengerState)
    requires
        keeps_history(a, b),
        keeps_history(b, c),
    ensures
        keeps_history(a, c),
{
    let fa = a.status_feed@.len() as int;
    let fb = b.status_feed@.len() as int;
    assert(c.status_feed@.subrange(0, fa) =~= c.status_feed@.subrange(0, fb).subrange(0, fa));
    let ma = a.chat.messages@.len() as int;
    let mb = b.chat.messages@.len() as int;
    assert(c.chat.messages@.subrange(0, ma) =~= c.chat.messages@.subrange(0, mb).subrange(0, ma));
}

/// Every state keeps its own history.
proof fn lemma_keeps_own_history(a: MessengerState)
    ensures
        keeps_history(a, a),
{
    assert(a.status_feed@.subrange(0, a.status_feed@.len() as int) =~= a.status_feed@);
    assert(a.chat.messages@.subrange(0, a.chat.messages@.len() as int) =~= a.chat.messages@);
}

/// How one transport event changes the session state `a` into `b`.
pub open spec fn p2p_step(a: MessengerState, event: P2pEvent, b: MessengerState) -> bool {
    &&& keeps_history(a, b)
    &&& match event {
        P2pEvent::Status(state) => b == (MessengerState {
            connection: state,
            status_feed: b.status_feed,
            ..a
        }) && appended_line(
            a.status_feed@,
            b.status_feed@,
            connection_text(state),
        ),
        P2pEvent::PeerConnected(from) => {
            let alias = if a.friend_alias@ == default_alias() {
                from
            } else {
                a.friend_alias
            };
            &&& b == (MessengerState {
                friend_address: if blank(a.friend_address@) {
                    from
                } else {
                    a.friend_address
                },
                friend_alias: alias,
                chat: Conversation { onion: from, peer_label: alias, ..a.chat },
                connection: ConnectionState::Connected(from),
                status_feed: b.status_feed,
                ..a
            })
            &&& appended_line(
                a.status_feed@,
                b.status_feed@,
                "Peer connected: "@ + from@,
            )
        },
        P2pEvent::Info(info) => b == (MessengerState {
            status_feed: b.status_feed,
            ..a
        }) && appended_line(
            a.status_feed@,
            b.status_feed@,
            "Transport: "@ + info@,
        ),
        P2pEvent::Incoming { from, body } => {
            &&& b == (MessengerState {
                friend_address: if blank(a.friend_address@) {
                    from
                } else {
                    a.friend_address
                },
                chat: Conversation {
                    onion: from,
                    messages: b.chat.messages,
                    ..a.chat
                },
                connection: ConnectionState::Connected(from),
                ..a
            })
            &&& appended_message(
                a.chat.messages@,
                b.chat.messages@,
                Peer::Remote(from),
                body@,
            )
        },
        P2pEvent::VideoFrame { from, png } => b == (MessengerState {
            friend_address: if blank(a.friend_address@) {
                from
            } else {
                a.friend_address
            },
            chat: Conversation { onion: from, ..a.chat },
            connection: ConnectionState::Connected(from),
            video_status: b.video_status,
            pending_remote_video: Some(png),
            ..a
        }) && b.video_status@ == "Receiving experimental video from "@ + from@,
        P2pEvent::VideoState { active, label } => b == (MessengerState {
            video_active: active,
            video_status: label,
            ..a
        }),
    }
}

/// A friend address the user has chosen (one that is not blank) is never
/// replaced by a transport event: only a blank one is filled in from the
/// peer that connects or writes.
pub proof fn lemma_step_keeps_chosen_friend(a: MessengerState, event: P2pEvent, b: MessengerState)
    requires
        p2p_step(a, event, b),
        !blank(a.friend_address@),
    ensures
        b.friend_address == a.friend_address,
{
}

/// Along a run of the session, a friend address that is not blank at some
/// state is the same at every later state.
proof fn lemma_chain_keeps_chosen_friend(
    states: Seq<MessengerState>,
    events: Seq<P2pEvent>,
    i: int,
)
    requires
        p2p_chain(states, events),
        0 <= i <= events.len(),
        !blank(states[0].friend_address@),
    ensures
        states[i].friend_address == states[0].friend_address,
    decreases i,
{
    if i > 0 {
        lemma_chain_keeps_chosen_friend(states, events, i - 1);
        let j = i - 1;
        assert(p2p_step(states[j], events[j], states[j + 1]));
        lemma_step_keeps_chosen_friend(states[j], events[j], states[j + 1]);
    }
}

/// However many transport events arrive, a friend address the user has
/// chosen stays as it was.
pub proof fn lemma_run_keeps_chosen_friend(
    a: MessengerState,
    events: Seq<P2pEvent>,
    c: MessengerState,
)
    requires
        p2p_run(a, events, c),
        !blank(a.friend_address@),
    ensures
        c.friend_address == a.friend_address,
{
    let states = choose|states: Seq<MessengerState>|
        p2p_chain(states, events) && states[0] == a && states.last() == c;
    lemma_chain_keeps_chosen_friend(states, events, events.len() as int);
}

/// `states` is a run of the session through `events`: each state comes from
/// the one before by the event between them.
pub open spec fn p2p_chain(states: Seq<MessengerState>, events: Seq<P2pEvent>) -> bool {
    &&& states.len() == events.len() + 1
    &&& forall|i: int| 0 <= i < events.len() ==> #[trigger] p2p_step(states[i], events[i], states[i + 1])
}

/// The events `events`, taken one at a time in order, can turn `a` into `b`.
pub open spec fn p2p_run(a: MessengerState, events: Seq<P2pEvent>, b: MessengerState) -> bool {
    exists|states: Seq<MessengerState>|
        p2p_chain(states, events) && states[0] == a && states.last() == b
}

/// Running through `e1` and then through `e2` is running through `e1 + e2`,
/// and a run through `e1 + e2` passes through a state that ends a run
/// through `e1` and starts a run through `e2`: a batch of transport events
/// has the effect of its events taken one at a time, in order.
pub proof fn lemma_p2p_run_concat(
    a: MessengerState,
    e1: Seq<P2pEvent>,
    e2: Seq<P2pEvent>,
    c: MessengerState,
)
    ensures
        p2p_run(a, e1 + e2, c) <==> exists|b: MessengerState| #[trigger]
            p2p_run(a, e1, b) && p2p_run(b, e2, c),
{
    let n = e1.len() as int;
    let e = e1 + e2;
    if p2p_run(a, e, c) {
        let s = choose|s: Seq<MessengerState>| p2p_chain(s, e) && s[0] == a && s.last() == c;
        let b = s[n];
        let s1 = s.take(n + 1);
        let s2 = s.skip(n);
        assert forall|i: int| 0 <= i < e1.len() implies #[trigger] p2p_step(
            s1[i],
            e1[i],
            s1[i + 1],
        ) by {
            assert(e[i] == e1[i]);
            assert(p2p_step(s[i], e[i], s[i + 1]));
        }
        assert(p2p_chain(s1, e1) && s1[0] == a && s1.last() == b);
        assert forall|i: int| 0 <= i < e2.len() implies #[trigger] p2p_step(
            s2[i],
            e2[i],
            s2[i + 1],
        ) by {
            assert(e[n + i] == e2[i]);
            assert(p2p_step(s[n + i], e[n + i], s[n + i + 1]));
        }
        assert(p2p_chain(s2, e2) && s2[0] == b && s2.last() == c);
        assert(p2p_run(a, e1, b) && p2p_run(b, e2, c));
    }
    assert forall|b: MessengerState| #[trigger] p2p_run(a, e1, b) && p2p_run(b, e2, c) implies p2p_run(
        a,
        e,
        c,
    ) by {
        let s1 = choose|s: Seq<MessengerState>| p2p_chain(s, e1) && s[0] == a && s.last() == b;
        let s2 = choose|s: Seq<MessengerState>| p2p_chain(s, e2) && s[0] == b && s.last() == c;
        let s = s1 + s2.drop_first();
        assert forall|i: int| 0 <= i < e.len() implies #[trigger] p2p_step(s[i], e[i], s[i + 1]) by {
            if i < n {
                assert(e[i] == e1[i]);
                assert(p2p_step(s1[i], e1[i], s1[i + 1]));
                if i + 1 == n {
                    assert(s[i + 1] == s2[0]);
                }
            } else {
                assert(e[i] == e2[i - n]);
                assert(p2p_step(s2[i - n], e2[i - n], s2[i - n + 1]));
                if i == n {
                    assert(s[i] == s1[n]);
                } else {
                    assert(s[i] == s2[i - n]);
                }
            }
        }
        assert(p2p_chain(s, e) && s[0] == a && s.last() == c);
    }
}

/// Appends `line` to the status feed.
fn push_line(feed: &mut Vec<String>, line: String)
    ensures
        appended_line(old(feed)@, final(feed)@, line@),
        final(feed)@.subrange(0, old(feed)@.len() as int) == old(feed)@,
{
    let ghost before = feed@;
    feed.push(line);
    assert(feed@.drop_last() =~= before);
    assert(feed@.subrange(0, before.len() as int) =~= before);
}

/// Appends `m` to the conversation.
fn push_message(messages: &mut Vec<ChatMessage>, m: ChatMessage)
    ensures
        final(messages)@ == old(messages)@.push(m),
        appended_message(old(messages)@, final(messages)@, m.from, m.body@),
        final(messages)@.subrange(0, old(messages)@.len() as int) == old(messages)@,
{
    let ghost before = messages@;
    messages.push(m);
    assert(messages@.drop_last() =~= before);
    assert(messages@.subrange(0, before.len() as int) =~= before);
}

/// The text describing a connection state.
fn describe_connection(c: &ConnectionState) -> (s: String)
    ensures
        s@ == connection_text(*c),
{
    match c {
        ConnectionState::Disconnected => String::from_str("Disconnected"),
        ConnectionState::Connecting(p) => concat("Connecting to ", p.as_str()),
        ConnectionState::Connected(p) => concat("Connected to ", p.as_str()),
    }
}

/// `title: text`, the text of a status chip.
pub fn chip_label(title: &str, text: &str) -> (s: String)
    ensures
        s@ == title@ + ": "@ + text@,
{
    concat3(title, ": ", text)
}

/// Local messages sit on the right, the peer's on the left and notices in
/// the middle.
pub fn message_alignment(from: &Peer) -> (a: BubbleAlignment)
    ensures
        a == match *from {
            Peer::Local => BubbleAlignment::Right,
            Peer::Remote(_) => BubbleAlignment::Left,
            Peer::System => BubbleAlignment::Center,
        },
{
    match from {
        Peer::Local => BubbleAlignment::Right,
        Peer::Remote(_) => BubbleAlignment::Left,
        Peer::System => BubbleAlignment::Center,
    }
}

impl MessengerState {
    /// The state when the application starts: Tor is bootstrapping, no peer
    /// is set, and the conversation holds a welcome notice.
    pub fn new() -> (s: Self)
        ensures
            s.onion_address@ == Seq::<char>::empty(),
            s.tor_status@ == "Bootstrapping Tor network..."@,
            s.connection == ConnectionState::Disconnected,
            !s.video_active,
            s.video_status@ == "Video idle"@,
            s.friend_address@ == Seq::<char>::empty(),
            s.friend_alias@ == default_alias(),
            s.message_input@ == Seq::<char>::empty(),
            s.chat.peer_label@ == default_alias(),
            s.chat.onion@ == Seq::<char>::empty(),
            s.chat.messages@.len() == 1,
            s.chat.messages@[0].from == Peer::System,
            s.chat.messages@[0].body@
                == "Welcome. Wait for Tor to publish your .onion, then share it with a contact."@,
            s.status_feed@.len() == 1,
            s.status_feed@[0]@ == "App launched"@,
            s.pending_remote_video is None,
    {
        let mut messages: Vec<ChatMessage> = Vec::new();
        messages.push(
            ChatMessage::system(
                String::from_str(
                    "Welcome. Wait for Tor to publish your .onion, then share it with a contact.",
                ),
            ),
        );
        let mut status_feed: Vec<String> = Vec::new();
        status_feed.push(String::from_str("App launched"));
        MessengerState {
            onion_address: String::new(),
            tor_status: String::from_str("Bootstrapping Tor network..."),
            connection: ConnectionState::Disconnected,
            video_active: false,
            video_status: String::from_str("Video idle"),
            friend_address: String::new(),
            friend_alias: String::from_str("Direct Session"),
            message_input: String::new(),
            chat: Conversation {
                peer_label: String::from_str("Direct Session"),
                onion: String::new(),
                messages,
            },
            status_feed,
            pending_remote_video: None,
        }
    }

    /// Takes in an event about the local Tor client: the status line or the
    /// local onion address is updated, and the change is logged.
    pub fn apply_tor_event(&mut self, event: TorEvent)
        ensures
            keeps_history(*old(self), *final(self)),
            match event {
                TorEvent::Status(s) => *final(self) == (MessengerState {
                    tor_status: s,
                    status_feed: final(self).status_feed,
                    ..*old(self)
                }) && appended_line(
                    old(self).status_feed@,
                    final(self).status_feed@,
                    "Tor: "@ + s@,
                ),
                TorEvent::OnionAddress(a) => *final(self) == (MessengerState {
                    onion_address: a,
                    status_feed: final(self).status_feed,
                    ..*old(self)
                }) && appended_line(
                    old(self).status_feed@,
                    final(self).status_feed@,
                    "Hidden service identity ready: "@ + a@,
                ),
            },
    {
        proof {
            lemma_keeps_own_history(*self);
        }
        match event {
            TorEvent::Status(s) => {
                let line = concat("Tor: ", s.as_str());
                self.tor_status = s;
                push_line(&mut self.status_feed, line);
            },
            TorEvent::OnionAddress(addr) => {
                let line = concat("Hidden service identity ready: ", addr.as_str());
                self.onion_address = addr;
                push_line(&mut self.status_feed, line);
            },
        }
    }

    /// Makes `from` the current peer, as any message from a peer does: it
    /// fills the friend address if that was blank, and opens the session.
    fn adopt_peer(&mut self, from: &String)
        ensures
            *final(self) == (MessengerState {
                friend_address: if blank(old(self).friend_address@) {
                    *from
                } else {
                    old(self).friend_address
                },
                chat: Conversation { onion: *from, ..old(self).chat },
                connection: ConnectionState::Connected(*from),
                ..*old(self)
            }),
    {
        if is_blank(self.friend_address.as_str()) {
            self.friend_address = from.clone();
        }
        self.chat.onion = from.clone();
        self.connection = ConnectionState::Connected(from.clone());
    }

    /// Takes in an event from the transport.
    pub fn apply_p2p_event(&mut self, event: P2pEvent)
        ensures
            keeps_history(*old(self), *final(self)),
            p2p_step(*old(self), event, *final(self)),
            !blank(old(self).friend_address@) ==> final(self).friend_address == old(
                self,
            ).friend_address,
    {
        proof {
            lemma_keeps_own_history(*self);
        }
        match event {
            P2pEvent::Status(state) => {
                let line = describe_connection(&state);
                self.connection = state;
                push_line(&mut self.status_feed, line);
            },
            P2pEvent::PeerConnected(from) => {
                if is_blank(self.friend_address.as_str()) {
                    self.friend_address = from.clone();
                }
                self.chat.onion = from.clone();
                let default = String::from_str("Direct Session");
                if self.friend_alias == default {
                    self.friend_alias = from.clone();
                }
                self.chat.peer_label = self.friend_alias.clone();
                self.connection = ConnectionState::Connected(from.clone());
                let line = concat("Peer connected: ", from.as_str());
                push_line(&mut self.status_feed, line);
            },
            P2pEvent::Info(info) => {
                let line = concat("Transport: ", info.as_str());
                push_line(&mut self.status_feed, line);
            },
            P2pEvent::Incoming { from, body } => {
                self.adopt_peer(&from);
                let m = ChatMessage { from: Peer::Remote(from), body, timestamp: crate::messaging::now() };
                push_message(&mut self.chat.messages, m);
            },
            P2pEvent::VideoFrame { from, png } => {
                self.adopt_peer(&from);
                self.video_status = concat("Receiving experimental video from ", from.as_str());
                self.pending_remote_video = Some(png);
            },
            P2pEvent::VideoState { active, label } => {
                self.video_active = active;
                self.video_status = label;
            },
        }
    }

    /// Sends what the user typed to the friend: nothing happens when the
    /// input is blank; without a friend address a notice is added instead.
    /// Otherwise the trimmed input becomes a local message, the input is
    /// cleared, and the friend address and the message are returned for the
    /// transport.
    pub fn send_current_message(&mut self) -> (out: Option<(String, String)>)
        ensures
            keeps_history(*old(self), *final(self)),
            blank(old(self).friend_address@) ==> {
                &&& out is None
                &&& *final(self) == (MessengerState {
                    chat: Conversation { messages: final(self).chat.messages, ..old(self).chat },
                    ..*old(self)
                })
                &&& appended_message(
                    old(self).chat.messages@,
                    final(self).chat.messages@,
                    Peer::System,
                    "Enter a friend's .onion before sending."@,
                )
            },
            !blank(old(self).friend_address@) && blank(old(self).message_input@) ==> out is None
                && *final(self) == *old(self),
            !blank(old(self).friend_address@) && !blank(old(self).message_input@) ==> {
                &&& out matches Some((to, body)) && to == old(self).friend_address && body@
                    == trim_ws(old(self).message_input@)
                &&& *final(self) == (MessengerState {
                    message_input: final(self).message_input,
                    chat: Conversation { messages: final(self).chat.messages, ..old(self).chat },
                    ..*old(self)
                })
                &&& final(self).message_input@ == Seq::<char>::empty()
                &&& appended_message(
                    old(self).chat.messages@,
                    final(self).chat.messages@,
                    Peer::Local,
                    trim_ws(old(self).message_input@),
                )
            },
    {
        proof {
            lemma_keeps_own_history(*self);
        }
        if is_blank(self.friend_address.as_str()) {
            push_message(
                &mut self.chat.messages,
                ChatMessage::system(String::from_str("Enter a friend's .onion before sending.")),
            );
            return None;
        }
        if is_blank(self.message_input.as_str()) {
            return None;
        }
        let body = trimmed(self.message_input.as_str());
        push_message(&mut self.chat.messages, ChatMessage::local(body.clone()));
        self.message_input = String::new();
        Some((self.friend_address.clone(), body))
    }

    /// Starts or stops the video stream.  A running stream is stopped;
    /// otherwise, without a friend address a notice is added, and with one
    /// the stream to that address is started.
    pub fn toggle_video(&mut self) -> (req: VideoRequest)
        ensures
            keeps_history(*old(self), *final(self)),
            old(self).video_active ==> {
                &&& req matches VideoRequest::Stop
                &&& *final(self) == (MessengerState {
                    video_active: false,
                    video_status: final(self).video_status,
                    ..*old(self)
                })
                &&& final(self).video_status@ == "Video stopped"@
            },
            !old(self).video_active && blank(old(self).friend_address@) ==> {
                &&& req matches VideoRequest::Nothing
                &&& *final(self) == (MessengerState {
                    chat: Conversation { messages: final(self).chat.messages, ..old(self).chat },
                    ..*old(self)
                })
                &&& appended_message(
                    old(self).chat.messages@,
                    final(self).chat.messages@,
                    Peer::System,
                    "Enter a friend's .onion before starting video."@,
                )
            },
            !old(self).video_active && !blank(old(self).friend_address@) ==> {
                &&& req matches VideoRequest::Start(to) && to == old(self).friend_address
                &&& *final(self) == (MessengerState {
                    video_active: true,
                    video_status: final(self).video_status,
                    ..*old(self)
                })
                &&& final(self).video_status@ == "Starting experimental video to "@ + trim_ws(
                    old(self).friend_address@,
                )
            },
    {
        proof {
            lemma_keeps_own_history(*self);
        }
        if self.video_active {
            self.video_active = false;
            self.video_status = String::from_str("Video stopped");
            return VideoRequest::Stop;
        }
        if is_blank(self.friend_address.as_str()) {
            push_message(
                &mut self.chat.messages,
                ChatMessage::system(
                    String::from_str("Enter a friend's .onion before starting video."),
                ),
            );
            return VideoRequest::Nothing;
        }
        self.video_active = true;
        let target = trimmed(self.friend_address.as_str());
        self.video_status = concat("Starting experimental video to ", target.as_str());
        VideoRequest::Start(self.friend_address.clone())
    }

    /// The user asked to start a session.  Nothing happens without a friend
    /// address (an address of spaces counts as one); otherwise the session
    /// is marked as connecting, the conversation is labelled, a notice is
    /// added and the address to connect to is returned.
    pub fn start_session(&mut self) -> (peer: Option<String>)
        ensures
            keeps_history(*old(self), *final(self)),
            old(self).friend_address@.len() == 0 ==> peer is None && *final(self) == *old(self),
            old(self).friend_address@.len() > 0 ==> {
                &&& peer == Some(old(self).friend_address)
                &&& *final(self) == (MessengerState {
                    connection: ConnectionState::Connecting(old(self).friend_address),
                    chat: Conversation {
                        peer_label: old(self).friend_alias,
                        onion: old(self).friend_address,
                        messages: final(self).chat.messages,
                    },
                    ..*old(self)
                })
                &&& appended_message(
                    old(self).chat.messages@,
                    final(self).chat.messages@,
                    Peer::System,
                    "Attempting connection to "@ + old(self).friend_alias@ + " ("@
                        + old(self).friend_address@ + ")"@,
                )
            },
    {
        proof {
            lemma_keeps_own_history(*self);
        }
        if self.friend_address.unicode_len() == 0 {
            return None;
        }
        self.connection = ConnectionState::Connecting(self.friend_address.clone());
        self.chat.peer_label = self.friend_alias.clone();
        self.chat.onion = self.friend_address.clone();
        let mut notice = concat3(
            "Attempting connection to ",
            self.friend_alias.as_str(),
            " (",
        );
        notice.append(self.friend_address.as_str());
        notice.append(")");
        push_message(&mut self.chat.messages, ChatMessage::system(notice));
        Some(self.friend_address.clone())
    }

    /// Hands out the video frame received last, if any, and forgets it.
    pub fn take_pending_video(&mut self) -> (png: Option<Vec<u8>>)
        ensures
            png == old(self).pending_remote_video,
            *final(self) == (MessengerState { pending_remote_video: None, ..*old(self) }),
    {
        let mut png: Option<Vec<u8>> = None;
        std::mem::swap(&mut png, &mut self.pending_remote_video);
        png
    }

    /// Logs that a received frame could not be decoded; `err` is the reason.
    pub fn record_video_decode_failure(&mut self, err: &str)
        ensures
            keeps_history(*old(self), *final(self)),
            *final(self) == (MessengerState {
                status_feed: final(self).status_feed,
                ..*old(self)
            }),
            appended_line(
                old(self).status_feed@,
                final(self).status_feed@,
                "Video decode failed: "@ + err@,
            ),
    {
        proof {
            lemma_keeps_own_history(*self);
        }
        push_line(&mut self.status_feed, concat("Video decode failed: ", err));
    }

    /// The text describing the session.
    pub fn connection_label(&self) -> (s: String)
        ensures
            s@ == connection_text(self.connection),
    {
        describe_connection(&self.connection)
    }

    /// The title of the chat pane.
    pub fn active_chat_title(&self) -> (s: String)
        ensures
            s@ == chat_title_text(self.connection),
    {
        match &self.connection {
            ConnectionState::Connected(peer) => concat("Chat with ", peer.as_str()),
            ConnectionState::Connecting(peer) => concat("Connecting to ", peer.as_str()),
            ConnectionState::Disconnected => String::from_str("Chat (offline)"),
        }
    }

    /// The caption of the video button.
    pub fn video_button_label(&self) -> (s: &'static str)
        ensures
            self.video_active ==> s@ == "Stop Video"@,
            !self.video_active ==> s@ == "Start Video"@,
    {
        if self.video_active {
            "Stop Video"
        } else {
            "Start Video"
        }
    }

    /// Takes in a batch of transport events, one at a time and in order.
    pub fn apply_p2p_events(&mut self, events: Vec<P2pEvent>)
        ensures
            keeps_history(*old(self), *final(self)),
            p2p_run(*old(self), events@, *final(self)),
            !blank(old(self).friend_address@) ==> final(self).friend_address == old(
                self,
            ).friend_address,
    {
        let ghost orig = events@;
        let ghost start = *self;
        let ghost mut states: Seq<MessengerState> = seq![*self];
        let ghost mut k: int = 0;
        let mut events = events;
        proof {
            lemma_keeps_own_history(*self);
            assert(orig.skip(0) =~= orig);
            assert(orig.take(0) =~= Seq::<P2pEvent>::empty());
        }
        while events.len() > 0
            invariant
                0 <= k <= orig.len(),
                events@ == orig.skip(k),
                p2p_chain(states, orig.take(k)),
                states[0] == start,
                states.last() == *self,
                keeps_history(start, *self),
                !blank(start.friend_address@) ==> self.friend_address == start.friend_address,
            decreases events@.len(),
        {
            let e = events.remove(0);
            let ghost before = *self;
            self.apply_p2p_event(e);
            proof {
                let old_states = states;
                states = states.push(*self);
                assert(e == orig[k]);
                assert(orig.skip(k).remove(0) =~= orig.skip(k + 1));
                let t = orig.take(k + 1);
                assert forall|i: int| 0 <= i < t.len() implies #[trigger] p2p_step(
                    states[i],
                    t[i],
                    states[i + 1],
                ) by {
                    if i < k {
                        assert(t[i] == orig.take(k)[i]);
                        assert(p2p_step(old_states[i], orig.take(k)[i], old_states[i + 1]));
                    } else {
                        assert(states[i] == before);
                    }
                }
                lemma_history_transitive(start, before, *self);
                k = k + 1;
            }
        }
        proof {
            assert(orig.take(k) =~= orig);
            assert(p2p_chain(states, orig) && states[0] == start && states.last() == *self);
        }
    }
}

} // verus!
