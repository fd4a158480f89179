use vstd::prelude::*;

use crate::conflict_resolution::SyncEntity;
use crate::vector_clock::VectorClock;

verus! {

/// A message of the synchronisation protocol.
#[derive(Debug)]
pub enum SyncMessage {
    /// A change to one entity, sent by a client and forwarded to the others.
    Delta {
        entity_type: String,
        /// A UUID as a 128-bit integer.
        entity_id: u128,
        data: serde_json::Value,
        vector_clock: VectorClock,
        device_id: String,
    },
    /// Two copies of an entity that could not be ordered (sent by the coordinator only).
    Conflict { entity_id: u128, local: SyncEntity, remote: SyncEntity },
}

/// Where one client connection stands.
#[derive(Debug, Clone, Copy, PartialEq, Eq, Structural)]
pub enum SessionState {
    Connected,
    Receiving,
    /// Terminal: a client that comes back opens a new session.
    Disconnected,
}

/// What happened on a client connection.
#[derive(Debug, Clone, Copy, PartialEq, Eq, Structural)]
pub enum SessionEvent {
    /// A text frame that decoded as a sync message.
    Message,
    /// A text frame that did not decode.
    Malformed,
    /// A frame of another kind (binary, ping, pong).
    OtherFrame,
    /// The client closed its side.
    Closed,
    /// Reading from or writing to the transport failed.
    TransportError,
    /// The client fell behind and its bounded outbound channel overran.
    Overrun,
}

/// What the coordinator does in answer to an event.
#[derive(Debug, Clone, Copy, PartialEq, Eq, Structural)]
pub enum SessionAction {
    /// Forward the message to every other connected client.
    Forward,
    /// Tell the client its message was rejected; nothing else changes.
    Reject,
    /// Do nothing.
    Ignore,
    /// Drop the client from the connected set and end its session.
    Disconnect,
}

pub open spec fn session_step(
    state: SessionState,
    event: SessionEvent,
) -> (SessionState, SessionAction) {
    match state {
        SessionState::Disconnected => (SessionState::Disconnected, SessionAction::Ignore),
        _ => match event {
            SessionEvent::Message => (SessionState::Receiving, SessionAction::Forward),
            SessionEvent::Malformed => (SessionState::Receiving, SessionAction::Reject),
            SessionEvent::OtherFrame => (SessionState::Receiving, SessionAction::Ignore),
            _ => (SessionState::Disconnected, SessionAction::Disconnect),
        },
    }
}

/// The next state of a client session and the action to take.
pub fn on_event(state: SessionState, event: SessionEvent) -> (r: (SessionState, SessionAction))
    ensures
        r == session_step(state, event),
{
    match state {
        SessionState::Disconnected => (SessionState::Disconnected, SessionAction::Ignore),
        _ => match event {
            SessionEvent::Message => (SessionState::Receiving, SessionAction::Forward),
            SessionEvent::Malformed => (SessionState::Receiving, SessionAction::Reject),
            SessionEvent::OtherFrame => (SessionState::Receiving, SessionAction::Ignore),
            _ => (SessionState::Disconnected, SessionAction::Disconnect),
        },
    }
}

/// A disconnected session stays disconnected, whatever happens next.
pub proof fn lemma_disconnected_is_terminal(event: SessionEvent)
    ensures
        session_step(SessionState::Disconnected, event).0 == SessionState::Disconnected,
        session_step(SessionState::Disconnected, event).1 != SessionAction::Forward,
{
}

pub open spec fn names(v: Seq<String>) -> Seq<Seq<char>> {
    v.map_values(|s: String| s@)
}

/// `s` with every occurrence of `x` taken out, order kept.
pub open spec fn without(s: Seq<Seq<char>>, x: Seq<char>) -> Seq<Seq<char>>
    decreases s.len(),
{
    if s.len() == 0 {
        Seq::empty()
    } else if s.last() == x {
        without(s.drop_last(), x)
    } else {
        without(s.drop_last(), x).push(s.last())
    }
}

/// The devices connected to the coordinator, in the order they connected.
#[derive(Debug)]
pub struct ClientRegistry {
    devices: Vec<String>,
}

impl View for ClientRegistry {
    type V = Seq<Seq<char>>;

    closed spec fn view(&self) -> Seq<Seq<char>> {
        names(self.devices@)
    }
}

impl ClientRegistry {
    pub fn new() -> (r: ClientRegistry)
        ensures
            r@ == Seq::<Seq<char>>::empty(),
    {
        let r = ClientRegistry { devices: Vec::new() };
        proof {
            assert(r@ =~= Seq::<Seq<char>>::empty());
        }
        r
    }

    /// Whether `device_id` is connected.
    pub fn contains(&self, device_id: &str) -> (r: bool)
        ensures
            r == self@.contains(device_id@),
    {
        let key = String::from_str(device_id);
        let mut i: usize = 0;
        while i < self.devices.len()
            invariant
                i <= self.devices@.len(),
                self@ == names(self.devices@),
                key@ == device_id@,
                forall|k: int| 0 <= k < i ==> #[trigger] self.devices@[k]@ != key@,
            decreases self.devices@.len() - i,
        {
            if self.devices[i] == key {
                proof {
                    assert(self@[i as int] == self.devices@[i as int]@);
                }
                return true;
            }
            i = i + 1;
        }
        proof {
            if self@.contains(device_id@) {
                let k = choose|k: int| 0 <= k < self@.len() && self@[k] == device_id@;
                assert(self.devices@[k]@ == device_id@);
            }
        }
        false
    }

    /// Every connected device but `sender`, in connection order: the clients a message
    /// from `sender` goes to.
    pub fn recipients(&self, sender: &str) -> (r: Vec<String>)
        ensures
            names(r@) == without(self@, sender@),
    {
        let key = String::from_str(sender);
        let mut out: Vec<String> = Vec::new();
        let mut i: usize = 0;
        while i < self.devices.len()
            invariant
                i <= self.devices@.len(),
                self@ == names(self.devices@),
                key@ == sender@,
                names(out@) == without(self@.take(i as int), sender@),
            decreases self.devices@.len() - i,
        {
            let ghost before = out@;
            proof {
                assert(self@.take(i + 1).drop_last() =~= self@.take(i as int));
            }
            if !(self.devices[i] == key) {
                out.push(self.devices[i].clone());
                proof {
                    assert(names(out@) =~= names(before).push(self@[i as int]));
                }
            }
            i = i + 1;
        }
        proof {
            assert(self@.take(self@.len() as int) =~= self@);
        }
        out
    }

    /// Registers a device; one already connected is left as it is.
    pub fn connect(&mut self, device_id: String)
        ensures
            final(self)@ == if old(self)@.contains(device_id@) {
                old(self)@
            } else {
                old(self)@.push(device_id@)
            },
    {
        if !self.contains(device_id.as_str()) {
            let ghost before = self.devices@;
            self.devices.push(device_id);
            proof {
                assert(names(self.devices@) =~= names(before).push(device_id@));
            }
        }
    }

    /// Removes a device from the connected set.
    pub fn disconnect(&mut self, device_id: &str)
        ensures
            final(self)@ == without(old(self)@, device_id@),
    {
        let rest = self.recipients(device_id);
        self.devices = rest;
    }
}

} // verus!
