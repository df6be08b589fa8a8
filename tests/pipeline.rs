use hyped_core::channel::BoundedChannel;
use hyped_core::connection::{ConnState, LinkError, IDLE_POLL_MS, RETRY_DELAY_MS};
use hyped_core::envelope::{Envelope, Source};
use hyped_core::logger::{LogAction, LogLevel, LogTarget, Logger};
use hyped_core::publisher::{PubAction, PubEvent, Publisher};
use hyped_core::subscriber::{SubAction, SubEvent, Subscriber};
use hyped_core::topics::MqttTopics;

fn env(task_id: u8, status: bool) -> Envelope {
    Envelope { topic: MqttTopics::Acceleration, task_id, status }
}

#[test]
fn topic_strings() {
    assert_eq!(MqttTopics::Acceleration.to_string(), "acceleration");
    assert_eq!(MqttTopics::CommandSender.to_string(), "command_sender");
    assert_eq!(MqttTopics::from_wire("acceleration"), Some(MqttTopics::Acceleration));
    assert_eq!(MqttTopics::from_wire("command_sender"), Some(MqttTopics::CommandSender));
    assert_eq!(MqttTopics::from_wire("accel"), None);
    assert_eq!(MqttTopics::from_wire(""), None);
}

#[test]
fn envelope_wire_text() {
    assert_eq!(
        env(0, true).serialize(),
        Ok("{\"header\":{\"topic\":\"acceleration\",\"task_id\":0},\"status\":true}".to_string())
    );
    let e = Envelope { topic: MqttTopics::CommandSender, task_id: 255, status: false };
    assert_eq!(
        e.serialize(),
        Ok("{\"header\":{\"topic\":\"command_sender\",\"task_id\":255},\"status\":false}".to_string())
    );
    assert_eq!(
        env(42, false).serialize(),
        Ok("{\"header\":{\"topic\":\"acceleration\",\"task_id\":42},\"status\":false}".to_string())
    );
}

#[test]
fn producers_tag_their_envelopes() {
    assert_eq!(Envelope::observe(Source::Button, true), env(0, true));
    assert_eq!(Envelope::observe(Source::MainLoop, true), env(1, false));
    assert_eq!(Envelope::observe(Source::FiveSeconds, false), env(2, false));
    assert_eq!(Source::from_task_id(0), Some(Source::Button));
    assert_eq!(Source::from_task_id(2), Some(Source::FiveSeconds));
    assert_eq!(Source::from_task_id(3), None);
}

#[test]
fn sixty_fifth_send_waits_for_a_free_slot() {
    let mut ch: BoundedChannel<Envelope> = BoundedChannel::new(64);
    for i in 0..64u8 {
        assert_eq!(ch.try_send(env(i, false)), Ok(()));
    }
    assert!(ch.is_full());
    assert_eq!(ch.len(), 64);
    assert_eq!(ch.try_send(env(64, true)), Err(env(64, true)));
    assert_eq!(ch.len(), 64);
    assert_eq!(ch.try_receive(), Some(env(0, false)));
    assert_eq!(ch.try_send(env(64, true)), Ok(()));
    assert_eq!(ch.len(), 64);
}

#[test]
fn channel_is_first_in_first_out_across_wraparound() {
    let mut ch: BoundedChannel<u32> = BoundedChannel::new(3);
    assert!(ch.is_empty());
    assert_eq!(ch.try_receive(), None);
    assert_eq!(ch.try_send(1), Ok(()));
    assert_eq!(ch.try_send(2), Ok(()));
    assert_eq!(ch.try_receive(), Some(1));
    assert_eq!(ch.try_send(3), Ok(()));
    assert_eq!(ch.try_send(4), Ok(()));
    assert_eq!(ch.try_send(5), Err(5));
    assert_eq!(ch.try_drain_all(), vec![2, 3, 4]);
    assert!(ch.is_empty());
    assert_eq!(ch.capacity_of(), 3);
}

#[test]
fn failed_connects_keep_the_queue() {
    let mut ch: BoundedChannel<Envelope> = BoundedChannel::new(4);
    ch.try_send(env(0, true)).unwrap();
    ch.try_send(env(1, false)).unwrap();
    let mut p = Publisher::new();
    assert!(matches!(p.step(&mut ch, PubEvent::Tick), PubAction::Connect));
    assert_eq!(p.state, ConnState::Connecting);
    for _ in 0..5 {
        let a = p.step(&mut ch, PubEvent::ConnectFailed(LinkError::Transport));
        assert!(matches!(a, PubAction::RetryAfter(d) if d == RETRY_DELAY_MS));
        assert_eq!(p.state, ConnState::Connecting);
        assert!(matches!(p.step(&mut ch, PubEvent::Tick), PubAction::Connect));
        assert_eq!(ch.len(), 2);
    }
    let a = p.step(&mut ch, PubEvent::ConnectFailed(LinkError::Protocol));
    assert!(matches!(a, PubAction::RetryAfter(_)));
    assert_eq!(ch.len(), 2);
    match p.step(&mut ch, PubEvent::ConnectOk) {
        PubAction::Publish(e, _) => assert_eq!(e, env(0, true)),
        other => panic!("unexpected {:?}", other),
    }
}

#[test]
fn send_failure_drops_in_flight_and_keeps_the_rest() {
    let mut ch: BoundedChannel<Envelope> = BoundedChannel::new(8);
    for i in 0..3u8 {
        ch.try_send(env(i, false)).unwrap();
    }
    let mut p = Publisher::new();
    p.step(&mut ch, PubEvent::Tick);
    match p.step(&mut ch, PubEvent::ConnectOk) {
        PubAction::Publish(e, text) => {
            assert_eq!(e, env(0, false));
            assert_eq!(
                text,
                "{\"header\":{\"topic\":\"acceleration\",\"task_id\":0},\"status\":false}"
            );
        }
        other => panic!("unexpected {:?}", other),
    }
    assert_eq!(p.state, ConnState::Draining);
    match p.step(&mut ch, PubEvent::SendOk) {
        PubAction::Publish(e, _) => assert_eq!(e, env(1, false)),
        other => panic!("unexpected {:?}", other),
    }
    assert!(matches!(
        p.step(&mut ch, PubEvent::SendFailed(LinkError::Transport)),
        PubAction::Reset
    ));
    assert_eq!(p.state, ConnState::Disconnected);
    assert_eq!(ch.len(), 1);
    assert!(matches!(p.step(&mut ch, PubEvent::Tick), PubAction::Connect));
    match p.step(&mut ch, PubEvent::ConnectOk) {
        PubAction::Publish(e, _) => assert_eq!(e, env(2, false)),
        other => panic!("unexpected {:?}", other),
    }
    let a = p.step(&mut ch, PubEvent::SendOk);
    assert!(matches!(a, PubAction::IdleWait(d) if d == IDLE_POLL_MS));
    assert_eq!(p.state, ConnState::Connected);
    assert!(ch.is_empty());
}

#[test]
fn unknown_topic_is_discarded_without_reconnecting() {
    let mut s = Subscriber::new(vec![MqttTopics::CommandSender]);
    assert_eq!(s.step(SubEvent::Tick), SubAction::Connect);
    assert_eq!(s.step(SubEvent::ConnectFailed(LinkError::Transport)), SubAction::RetryAfter(RETRY_DELAY_MS));
    assert_eq!(s.step(SubEvent::Tick), SubAction::Connect);
    assert_eq!(s.step(SubEvent::ConnectOk), SubAction::SubscribeAll);
    assert_eq!(s.subscriptions(), vec!["command_sender".to_string()]);
    assert_eq!(s.step(SubEvent::Tick), SubAction::Receive);
    assert_eq!(s.step(SubEvent::Received("nobody_listens".to_string())), SubAction::Discard);
    assert_eq!(s.state, ConnState::Connected);
    assert_eq!(s.step(SubEvent::Received("acceleration".to_string())), SubAction::Discard);
    assert_eq!(
        s.step(SubEvent::Received("command_sender".to_string())),
        SubAction::Dispatch(MqttTopics::CommandSender)
    );
    assert_eq!(s.step(SubEvent::ReceiveFailed(LinkError::Protocol)), SubAction::Receive);
    assert_eq!(s.state, ConnState::Connected);
    assert_eq!(s.step(SubEvent::ReceiveTimeout), SubAction::Reset);
    assert_eq!(s.state, ConnState::Disconnected);
}

#[test]
fn subscriber_transport_failure_reconnects() {
    let mut s = Subscriber::new(vec![MqttTopics::Acceleration, MqttTopics::CommandSender]);
    s.step(SubEvent::Tick);
    s.step(SubEvent::ConnectOk);
    assert_eq!(s.handler_for("acceleration"), Some(MqttTopics::Acceleration));
    assert_eq!(s.step(SubEvent::ReceiveFailed(LinkError::Transport)), SubAction::Reset);
    assert_eq!(s.state, ConnState::Disconnected);
    assert_eq!(s.step(SubEvent::Tick), SubAction::Connect);
    assert_eq!(s.state, ConnState::Connecting);
}

#[test]
fn logger_filters_by_level() {
    let l = Logger::new(LogLevel::Info, LogTarget::Console);
    assert_eq!(l.log(LogLevel::Debug), LogAction::Skip);
    assert_eq!(l.log(LogLevel::Info), LogAction::Console(LogLevel::Info));
    assert_eq!(l.log(LogLevel::Error), LogAction::Console(LogLevel::Error));
    let m = Logger::new(LogLevel::Warn, LogTarget::Mqtt);
    assert_eq!(m.log(LogLevel::Info), LogAction::Skip);
    assert_eq!(m.log(LogLevel::Warn), LogAction::Mqtt);
    assert!(LogLevel::Error.at_least(&LogLevel::Debug));
    assert!(!LogLevel::Debug.at_least(&LogLevel::Info));
}

#[test]
fn interleaved_producers_are_published_in_acceptance_order() {
    let mut ch: BoundedChannel<Envelope> = BoundedChannel::new(2);
    let mut p = Publisher::new();
    let mut published = Vec::new();
    ch.try_send(env(0, false)).unwrap();
    p.step(&mut ch, PubEvent::Tick);
    ch.try_send(env(1, true)).unwrap();
    assert_eq!(ch.try_send(env(9, true)), Err(env(9, true)));
    assert!(matches!(
        p.step(&mut ch, PubEvent::ConnectFailed(LinkError::Transport)),
        PubAction::RetryAfter(_)
    ));
    assert_eq!(ch.len(), 2);
    p.step(&mut ch, PubEvent::Tick);
    let mut ev = PubEvent::ConnectOk;
    for next in 2..5u8 {
        match p.step(&mut ch, ev) {
            PubAction::Publish(e, _) => published.push(e),
            other => panic!("unexpected {:?}", other),
        }
        ch.try_send(env(next, false)).unwrap();
        ev = PubEvent::SendOk;
    }
    assert_eq!(ch.try_drain_all(), vec![env(3, false), env(4, false)]);
    assert_eq!(published, vec![env(0, false), env(1, true), env(2, false)]);
}
