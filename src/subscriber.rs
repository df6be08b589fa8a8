//! The decisions of the subscribing task: connect, subscribe, receive, and
//! hand each inbound message to the handler registered for its topic.

use vstd::prelude::*;
use crate::connection::{ConnState, LinkError, RETRY_DELAY_MS};
use crate::topics::{MqttTopics, topic_of_text};

verus! {

/// What the subscribing task observed since its last action.
#[derive(Debug)]
pub enum SubEvent {
    /// A timer ran out, or the task has just started.
    Tick,
    /// The transport connected and the broker accepted the handshake.
    ConnectOk,
    ConnectFailed(LinkError),
    /// A message arrived under this topic string.
    Received(String),
    /// No message arrived within the receive timeout.
    ReceiveTimeout,
    ReceiveFailed(LinkError),
}

/// What the subscribing task is to do next.
#[derive(Debug, Clone, Copy, PartialEq, Eq, Structural)]
pub enum SubAction {
    /// Open a new transport and perform the handshake.
    Connect,
    /// Wait this many milliseconds, then report `Tick`.
    RetryAfter(u64),
    /// Subscribe to the topic of every registered handler, then report `Tick`.
    SubscribeAll,
    /// Wait for the next message.
    Receive,
    /// Hand the message to the handler of this channel, then receive again.
    Dispatch(MqttTopics),
    /// No handler takes the message's topic: log it, drop it, receive again.
    Discard,
    /// Discard the connection.
    Reset,
}

/// The handler that takes a message under topic string `topic`, if any.
pub open spec fn registered_handler(handlers: Seq<MqttTopics>, topic: Seq<char>) -> Option<MqttTopics> {
    match topic_of_text(topic) {
        Some(t) => if handlers.contains(t) {
            Some(t)
        } else {
            None
        },
        None => None,
    }
}

/// The state after `ev` in state `st`.
pub open spec fn subscriber_next_state(st: ConnState, ev: SubEvent) -> ConnState {
    match st {
        ConnState::Disconnected => ConnState::Connecting,
        ConnState::Connecting => if ev is ConnectOk {
            ConnState::Connected
        } else {
            ConnState::Connecting
        },
        _ => match ev {
            SubEvent::ReceiveTimeout => ConnState::Disconnected,
            SubEvent::ReceiveFailed(LinkError::Transport) => ConnState::Disconnected,
            _ => ConnState::Connected,
        },
    }
}

/// The action for `ev` in state `st`, with `handlers` registered.
pub open spec fn subscriber_action(st: ConnState, ev: SubEvent, handlers: Seq<MqttTopics>) -> SubAction {
    match st {
        ConnState::Disconnected => SubAction::Connect,
        ConnState::Connecting => match ev {
            SubEvent::ConnectOk => SubAction::SubscribeAll,
            SubEvent::ConnectFailed(_) => SubAction::RetryAfter(RETRY_DELAY_MS),
            _ => SubAction::Connect,
        },
        _ => match ev {
            SubEvent::ReceiveTimeout => SubAction::Reset,
            SubEvent::ReceiveFailed(LinkError::Transport) => SubAction::Reset,
            SubEvent::Received(topic) => match registered_handler(handlers, topic@) {
                Some(t) => SubAction::Dispatch(t),
                None => SubAction::Discard,
            },
            _ => SubAction::Receive,
        },
    }
}

/// The subscribing task's connection state and its registered handlers.
pub struct Subscriber {
    pub state: ConnState,
    pub handlers: Vec<MqttTopics>,
}

impl Subscriber {
    /// A task that has not connected yet, with a handler for each of `handlers`.
    pub fn new(handlers: Vec<MqttTopics>) -> (r: Self)
        ensures
            r.state == ConnState::Disconnected,
            r.handlers@ == handlers@,
    {
        Subscriber { state: ConnState::Disconnected, handlers }
    }

    /// The topic strings to subscribe to, one per registered handler.
    pub fn subscriptions(&self) -> (r: Vec<String>)
        ensures
            r@.len() == self.handlers@.len(),
            forall|i: int| 0 <= i < r@.len() ==> #[trigger] r@[i]@ == crate::topics::topic_text(
                self.handlers@[i],
            ),
    {
        let mut out: Vec<String> = Vec::new();
        let mut i: usize = 0;
        while i < self.handlers.len()
            invariant
                0 <= i <= self.handlers@.len(),
                out@.len() == i,
                forall|j: int| 0 <= j < i ==> #[trigger] out@[j]@ == crate::topics::topic_text(
                    self.handlers@[j],
                ),
            decreases self.handlers@.len() - i,
        {
            out.push(self.handlers[i].to_string());
            i = i + 1;
        }
        out
    }

    /// The handler registered for topic string `topic`, if any.
    pub fn handler_for(&self, topic: &str) -> (r: Option<MqttTopics>)
        ensures
            r == registered_handler(self.handlers@, topic@),
    {
        match MqttTopics::from_wire(topic) {
            Some(t) => {
                let mut i: usize = 0;
                while i < self.handlers.len()
                    invariant
                        0 <= i <= self.handlers@.len(),
                        forall|j: int| 0 <= j < i ==> self.handlers@[j] != t,
                        topic_of_text(topic@) == Some(t),
                    decreases self.handlers@.len() - i,
                {
                    if self.handlers[i] == t {
                        assert(self.handlers@[i as int] == t);
                        assert(self.handlers@.contains(t));
                        return Some(t);
                    }
                    i = i + 1;
                }
                None
            },
            None => None,
        }
    }

    /// Moves to the next state on `ev` and returns the action to perform.
    /// A message that no handler takes, or a protocol error while receiving,
    /// keeps the connection; a transport failure or a timeout drops it.
    pub fn step(&mut self, ev: SubEvent) -> (r: SubAction)
        ensures
            final(self).state == subscriber_next_state(old(self).state, ev),
            final(self).handlers@ == old(self).handlers@,
            r == subscriber_action(old(self).state, ev, old(self).handlers@),
    {
        match self.state {
            ConnState::Disconnected => {
                self.state = ConnState::Connecting;
                SubAction::Connect
            },
            ConnState::Connecting => match ev {
                SubEvent::ConnectOk => {
                    self.state = ConnState::Connected;
                    SubAction::SubscribeAll
                },
                SubEvent::ConnectFailed(_) => SubAction::RetryAfter(RETRY_DELAY_MS),
                _ => SubAction::Connect,
            },
            _ => match ev {
                SubEvent::ReceiveTimeout => {
                    self.state = ConnState::Disconnected;
                    SubAction::Reset
                },
                SubEvent::ReceiveFailed(LinkError::Transport) => {
                    self.state = ConnState::Disconnected;
                    SubAction::Reset
                },
                SubEvent::Received(topic) => {
                    self.state = ConnState::Connected;
                    match self.handler_for(topic.as_str()) {
                        Some(t) => SubAction::Dispatch(t),
                        None => SubAction::Discard,
                    }
                },
                _ => {
                    self.state = ConnState::Connected;
                    SubAction::Receive
                },
            },
        }
    }
}

} // verus!
