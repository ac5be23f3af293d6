//! Chat messages and their timestamps.
use vstd::prelude::*;

verus! {

/// Who wrote a chat message.
#[derive(Clone, Debug)]
pub enum Peer {
    Local,
    Remote(String),
    System,
}

/// The short label shown for each kind of author.
pub open spec fn peer_label(p: Peer) -> Seq<char> {
    match p {
        Peer::Local => "you"@,
        Peer::Remote(_) => "peer"@,
        Peer::System => "system"@,
    }
}

impl Peer {
    /// `you`, `peer` or `system`.
    pub fn label(&self) -> (r: &'static str)
        ensures
            r@ == peer_label(*self),
    {
        match self {
            Peer::Local => "you",
            Peer::Remote(_) => "peer",
            Peer::System => "system",
        }
    }
}

/// One line of the conversation.
#[derive(Clone, Debug)]
pub struct ChatMessage {
    pub from: Peer,
    pub body: String,
    pub timestamp: u64,
}

impl ChatMessage {
    /// A notice from the application itself, stamped with the current time.
    pub fn system(body: String) -> (m: Self)
        ensures
            m.from == Peer::System,
            m.body == body,
    {
        ChatMessage { from: Peer::System, body, timestamp: now() }
    }

    /// A message written by the local user, stamped with the current time.
    pub fn local(body: String) -> (m: Self)
        ensures
            m.from == Peer::Local,
            m.body == body,
    {
        ChatMessage { from: Peer::Local, body, timestamp: now() }
    }
}

#[verifier::external_type_specification]
#[verifier::external_body]
pub struct ExSystemTime(std::time::SystemTime);

#[verifier::external_type_specification]
#[verifier::external_body]
pub struct ExSystemTimeError(std::time::SystemTimeError);

/// Calls `SystemTime::now`: the wall-clock time, about which nothing is
/// promised.
#[verifier::external_body]
fn system_time_now() -> std::time::SystemTime {
    std::time::SystemTime::now()
}

/// Calls `SystemTime::duration_since` with `UNIX_EPOCH`; it fails when the
/// clock is set before 1970.  Nothing is promised about the result.
#[verifier::external_body]
fn since_unix_epoch(t: &std::time::SystemTime) -> Result<
    core::time::Duration,
    std::time::SystemTimeError,
> {
    t.duration_since(std::time::UNIX_EPOCH)
}

/// Calls `Duration::as_secs`: the whole seconds of a duration (the type is
/// opaque here, so nothing is promised).
#[verifier::external_body]
fn whole_seconds(d: &core::time::Duration) -> u64 {
    d.as_secs()
}

/// The timestamp for a clock reading: the whole seconds since the Unix
/// epoch, or 0 when the clock reads before the epoch (`None`).
pub open spec fn timestamp_of(reading: Option<u64>) -> u64 {
    match reading {
        Some(secs) => secs,
        None => 0,
    }
}

/// Turns a clock reading into a timestamp: its whole seconds since the Unix
/// epoch, or 0 for a clock set before the epoch.
pub fn seconds_or_zero(reading: Option<u64>) -> (r: u64)
    ensures
        r == timestamp_of(reading),
{
    match reading {
        Some(secs) => secs,
        None => 0,
    }
}

/// Reads the wall clock: the whole seconds since the Unix epoch, or `None`
/// when the clock is set before the epoch.  What the clock reads is not
/// known here.
fn clock_reading() -> Option<u64> {
    let t = system_time_now();
    match since_unix_epoch(&t) {
        Ok(d) => Some(whole_seconds(&d)),
        Err(_) => None,
    }
}

/// Seconds since the Unix epoch according to the wall clock, or 0 when the
/// clock is set before the epoch.  The value comes from the clock, so nothing
/// is promised of it; the rule from reading to timestamp is
/// `seconds_or_zero`.
pub fn now() -> u64 {
    seconds_or_zero(clock_reading())
}

} // verus!
