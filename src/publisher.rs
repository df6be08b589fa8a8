//! The decisions of the publishing task: when to connect, retry, send the
//! next queued envelope, or give up its connection. The task itself performs
//! each action and reports back what happened.

use vstd::prelude::*;
use vstd::utf8::*;
use crate::channel::BoundedChannel;
use crate::connection::{ConnState, LinkError, IDLE_POLL_MS, RETRY_DELAY_MS};
use crate::envelope::{Envelope, envelope_text, MAX_PAYLOAD_BYTES};

verus! {

/// What the publishing task observed since its last action.
#[derive(Debug, Clone, Copy, PartialEq, Eq, Structural)]
pub enum PubEvent {
    /// A timer ran out, or the task has just started.
    Tick,
    /// The transport connected and the broker accepted the handshake.
    ConnectOk,
    ConnectFailed(LinkError),
    SendOk,
    SendFailed(LinkError),
}

/// What the publishing task is to do next.
#[derive(Debug)]
pub enum PubAction {
    /// Open a new transport and perform the handshake.
    Connect,
    /// Wait this many milliseconds, then report `Tick`.
    RetryAfter(u64),
    /// Publish `payload`, the wire text of the envelope, under its topic.
    Publish(Envelope, String),
    /// The envelope's wire text does not fit its buffer; it is dropped.
    DropEnvelope(Envelope),
    /// Nothing is queued: wait this many milliseconds, then report `Tick`.
    IdleWait(u64),
    /// Discard the connection; the envelope whose send failed is lost.
    Reset,
}

/// Whether the wire text of `e` fits its buffer.
pub open spec fn fits_payload(e: Envelope) -> bool {
    encode_utf8(envelope_text(e)).len() <= MAX_PAYLOAD_BYTES
}

/// Whether, on `ev` in state `st`, the task takes the next queued envelope.
pub open spec fn takes_next(st: ConnState, ev: PubEvent) -> bool {
    match st {
        ConnState::Disconnected => false,
        ConnState::Connecting => ev == PubEvent::ConnectOk,
        _ => !(ev is SendFailed),
    }
}

/// The state after `ev` in state `st`, with `q` queued.
pub open spec fn publisher_next_state(st: ConnState, ev: PubEvent, q: Seq<Envelope>) -> ConnState {
    if takes_next(st, ev) {
        if q.len() > 0 {
            ConnState::Draining
        } else {
            ConnState::Connected
        }
    } else {
        match st {
            ConnState::Disconnected => ConnState::Connecting,
            ConnState::Connecting => ConnState::Connecting,
            _ => ConnState::Disconnected,
        }
    }
}

/// The queue after `ev` in state `st`, with `q` queued: the oldest envelope
/// leaves it only when the task takes the next one.
pub open spec fn publisher_next_queue(st: ConnState, ev: PubEvent, q: Seq<Envelope>) -> Seq<
    Envelope,
> {
    if takes_next(st, ev) && q.len() > 0 {
        q.drop_first()
    } else {
        q
    }
}

/// Whether `a` is the action for `ev` in state `st`, with `q` queued.
pub open spec fn publisher_action(a: PubAction, st: ConnState, ev: PubEvent, q: Seq<Envelope>) -> bool {
    if takes_next(st, ev) {
        if q.len() > 0 {
            if fits_payload(q[0]) {
                a matches PubAction::Publish(e, t) && e == q[0] && t@ == envelope_text(q[0])
            } else {
                a == PubAction::DropEnvelope(q[0])
            }
        } else {
            a == PubAction::IdleWait(IDLE_POLL_MS)
        }
    } else {
        match st {
            ConnState::Disconnected => a == PubAction::Connect,
            ConnState::Connecting => if ev is ConnectFailed {
                a == PubAction::RetryAfter(RETRY_DELAY_MS)
            } else {
                a == PubAction::Connect
            },
            _ => a == PubAction::Reset,
        }
    }
}

/// The envelope that the task takes on `ev` in state `st`, with `q` queued.
pub open spec fn publisher_taken(st: ConnState, ev: PubEvent, q: Seq<Envelope>) -> Seq<Envelope> {
    if takes_next(st, ev) && q.len() > 0 {
        seq![q[0]]
    } else {
        Seq::empty()
    }
}

/// One thing that happens around the queue: a producer offers an envelope,
/// or the publishing task takes a step on an event.
#[derive(Debug, Clone, Copy, PartialEq, Eq, Structural)]
pub enum Activity {
    Produce(Envelope),
    Step(PubEvent),
}

/// What one activity does, from state `st` with `q` queued in a queue of
/// `cap` slots: the new state and queue, the envelopes taken by the task, and
/// the envelopes the queue accepted. A producer's offer is accepted exactly
/// when a slot is free, as `BoundedChannel::try_send` does; a refused
/// producer waits and offers again later.
pub open spec fn activity_outcome(st: ConnState, a: Activity, q: Seq<Envelope>, cap: nat) -> (
    ConnState,
    Seq<Envelope>,
    Seq<Envelope>,
    Seq<Envelope>,
) {
    match a {
        Activity::Produce(e) => if q.len() < cap {
            (st, q.push(e), Seq::empty(), seq![e])
        } else {
            (st, q, Seq::empty(), Seq::empty())
        },
        Activity::Step(ev) => (
            publisher_next_state(st, ev, q),
            publisher_next_queue(st, ev, q),
            publisher_taken(st, ev, q),
            Seq::empty(),
        ),
    }
}

/// What the activities `acts` do, one after another, from state `st` with
/// `q` queued in a queue of `cap` slots: the final state and queue, every
/// envelope the task took, in order, and every envelope the queue accepted,
/// in order.
pub open spec fn run(st: ConnState, acts: Seq<Activity>, q: Seq<Envelope>, cap: nat) -> (
    ConnState,
    Seq<Envelope>,
    Seq<Envelope>,
    Seq<Envelope>,
)
    decreases acts.len(),
{
    if acts.len() == 0 {
        (st, q, Seq::empty(), Seq::empty())
    } else {
        let first = activity_outcome(st, acts[0], q, cap);
        let rest = run(first.0, acts.drop_first(), first.1, cap);
        (rest.0, rest.1, first.2 + rest.2, first.3 + rest.3)
    }
}

/// First in, first out, with producers and the publishing task interleaved
/// in any way: the envelopes the task takes, followed by those still queued,
/// are those queued at the start followed by those accepted since, in the
/// order they were accepted. So an envelope accepted before another is
/// published before it, none is skipped, and the queue never holds more than
/// its capacity.
pub proof fn lemma_pipeline_fifo(st: ConnState, acts: Seq<Activity>, q: Seq<Envelope>, cap: nat)
    requires
        q.len() <= cap,
    ensures
        run(st, acts, q, cap).2 + run(st, acts, q, cap).1 == q + run(st, acts, q, cap).3,
        run(st, acts, q, cap).1.len() <= cap,
    decreases acts.len(),
{
    if acts.len() > 0 {
        let first = activity_outcome(st, acts[0], q, cap);
        lemma_pipeline_fifo(first.0, acts.drop_first(), first.1, cap);
        let rest = run(first.0, acts.drop_first(), first.1, cap);
        assert(first.2 + first.1 =~= q + first.3) by {
            if acts[0] is Step && takes_next(st, acts[0]->Step_0) && q.len() > 0 {
                assert(seq![q[0]] + q.drop_first() =~= q);
            }
        }
        assert(first.2 + rest.2 + rest.1 =~= q + (first.3 + rest.3)) by {
            assert(first.2 + rest.2 + rest.1 =~= first.2 + (rest.2 + rest.1));
            assert(first.2 + (first.1 + rest.3) =~= (first.2 + first.1) + rest.3);
        }
    }
}

/// Failed connect attempts, however many, with producers enqueueing in
/// between, leave the task connecting, take nothing from the queue, and
/// leave it holding what it held plus what was accepted meanwhile.
pub proof fn lemma_reconnect_keeps_queue(acts: Seq<Activity>, q: Seq<Envelope>, cap: nat)
    requires
        forall|i: int|
            0 <= i < acts.len() && #[trigger] acts[i] is Step ==> acts[i]->Step_0 is ConnectFailed,
    ensures
        run(ConnState::Connecting, acts, q, cap).0 == ConnState::Connecting,
        run(ConnState::Connecting, acts, q, cap).2 == Seq::<Envelope>::empty(),
        run(ConnState::Connecting, acts, q, cap).1 == q + run(ConnState::Connecting, acts, q, cap).3,
    decreases acts.len(),
{
    if acts.len() == 0 {
        assert(q + Seq::<Envelope>::empty() =~= q);
    } else {
        let first = activity_outcome(ConnState::Connecting, acts[0], q, cap);
        assert forall|i: int|
            0 <= i < acts.drop_first().len() && #[trigger] acts.drop_first()[i] is Step implies acts.drop_first()[i]->Step_0 is ConnectFailed by {
            assert(acts.drop_first()[i] == acts[i + 1]);
        }
        if acts[0] is Step {
            assert(acts[0]->Step_0 is ConnectFailed);
        }
        lemma_reconnect_keeps_queue(acts.drop_first(), first.1, cap);
        let rest = run(first.0, acts.drop_first(), first.1, cap);
        assert(first.0 == ConnState::Connecting);
        assert(first.2 =~= Seq::<Envelope>::empty());
        assert(first.2 + rest.2 =~= Seq::<Envelope>::empty());
        assert(first.1 =~= q + first.3);
        assert(rest.1 =~= q + (first.3 + rest.3));
    }
}

/// A failed send while connected drops the task to disconnected and loses
/// only the envelope in flight: everything then queued stays queued, and
/// what follows runs exactly as from a disconnected task holding that queue,
/// so those envelopes are published after reconnecting, in order, before
/// any accepted later.
pub proof fn lemma_send_failure_keeps_queue(
    st: ConnState,
    e: LinkError,
    acts: Seq<Activity>,
    q: Seq<Envelope>,
    cap: nat,
)
    requires
        st == ConnState::Connected || st == ConnState::Draining,
        acts.len() > 0,
        acts[0] == Activity::Step(PubEvent::SendFailed(e)),
        q.len() <= cap,
    ensures
        run(st, acts, q, cap) == run(ConnState::Disconnected, acts.drop_first(), q, cap),
        run(st, acts, q, cap).2 + run(st, acts, q, cap).1 == q + run(st, acts, q, cap).3,
{
    let rest = run(ConnState::Disconnected, acts.drop_first(), q, cap);
    assert(Seq::<Envelope>::empty() + rest.2 =~= rest.2);
    assert(Seq::<Envelope>::empty() + rest.3 =~= rest.3);
    lemma_pipeline_fifo(st, acts, q, cap);
}

/// The publishing task's connection state.
pub struct Publisher {
    pub state: ConnState,
}

impl Publisher {
    /// A task that has not connected yet.
    pub fn new() -> (r: Self)
        ensures
            r.state == ConnState::Disconnected,
    {
        Publisher { state: ConnState::Disconnected }
    }

    /// Takes the next queued envelope, if any, and says what to do with it.
    fn take_next(ch: &mut BoundedChannel<Envelope>) -> (r: (ConnState, PubAction))
        requires
            old(ch).wf(),
        ensures
            final(ch).wf(),
            final(ch).capacity() == old(ch).capacity(),
            final(ch).view() == publisher_next_queue(ConnState::Connected, PubEvent::Tick, old(ch).view()),
            r.0 == publisher_next_state(ConnState::Connected, PubEvent::Tick, old(ch).view()),
            publisher_action(r.1, ConnState::Connected, PubEvent::Tick, old(ch).view()),
    {
        match ch.try_receive() {
            Some(e) => match e.serialize() {
                Ok(text) => (ConnState::Draining, PubAction::Publish(e, text)),
                Err(_) => (ConnState::Draining, PubAction::DropEnvelope(e)),
            },
            None => (ConnState::Connected, PubAction::IdleWait(IDLE_POLL_MS)),
        }
    }

    /// Moves to the next state on `ev` and returns the action to perform.
    /// Queued envelopes leave `ch` only one at a time, oldest first, and only
    /// while connected: connect failures leave it untouched.
    pub fn step(&mut self, ch: &mut BoundedChannel<Envelope>, ev: PubEvent) -> (r: PubAction)
        requires
            old(ch).wf(),
        ensures
            final(ch).wf(),
            final(ch).capacity() == old(ch).capacity(),
            final(self).state == publisher_next_state(old(self).state, ev, old(ch).view()),
            final(ch).view() == publisher_next_queue(old(self).state, ev, old(ch).view()),
            publisher_action(r, old(self).state, ev, old(ch).view()),
    {
        match self.state {
            ConnState::Disconnected => {
                self.state = ConnState::Connecting;
                PubAction::Connect
            },
            ConnState::Connecting => match ev {
                PubEvent::ConnectOk => {
                    let (s, a) = Publisher::take_next(ch);
                    self.state = s;
                    a
                },
                PubEvent::ConnectFailed(_) => PubAction::RetryAfter(RETRY_DELAY_MS),
                _ => PubAction::Connect,
            },
            _ => match ev {
                PubEvent::SendFailed(_) => {
                    self.state = ConnState::Disconnected;
                    PubAction::Reset
                },
                _ => {
                    let (s, a) = Publisher::take_next(ch);
                    self.state = s;
                    a
                },
            },
        }
    }
}

} // verus!
