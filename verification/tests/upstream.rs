use websocket_relay::hub::{Delivery, Hub};
use websocket_relay::upstream::{
    upstream_url, Frame, UpstreamAction, UpstreamEvent, UpstreamFailure, UpstreamReader,
    UpstreamState, UPSTREAM_LOST_EXIT_CODE,
};

fn text(s: &str) -> UpstreamEvent {
    UpstreamEvent::Frame(Frame::Text(s.to_string()))
}

#[test]
fn url_is_built_from_the_port() {
    assert_eq!(upstream_url("8080"), "ws://localhost:8080/Messages");
    assert_eq!(upstream_url("+80"), "ws://localhost:+80/Messages");
    assert_eq!(upstream_url(""), "ws://localhost:/Messages");
}

#[test]
fn exit_code_for_upstream_lost() {
    assert_eq!(UPSTREAM_LOST_EXIT_CODE, 1);
    assert!(0 < UPSTREAM_LOST_EXIT_CODE && UPSTREAM_LOST_EXIT_CODE <= 255);
    assert_ne!(UPSTREAM_LOST_EXIT_CODE % 256, 0);
}

#[test]
fn reader_starts_connecting_then_streams() {
    let mut hub = Hub::new(4);
    let mut reader = UpstreamReader::new();
    assert_eq!(reader.state(), UpstreamState::Connecting);
    assert_eq!(reader.handle(&mut hub, UpstreamEvent::Connected), UpstreamAction::Continue);
    assert_eq!(reader.state(), UpstreamState::Streaming);
    assert_eq!(reader.handle(&mut hub, UpstreamEvent::Connected), UpstreamAction::Continue);
    assert_eq!(reader.state(), UpstreamState::Streaming);
}

#[test]
fn text_frames_are_published_in_order() {
    let mut hub = Hub::new(4);
    let s = hub.subscribe().unwrap();
    let mut reader = UpstreamReader::new();
    reader.handle(&mut hub, UpstreamEvent::Connected);
    for m in ["one", "two", "three"] {
        assert_eq!(reader.handle(&mut hub, text(m)), UpstreamAction::Continue);
    }
    assert_eq!(hub.receive(s), Delivery::Message("one".to_string()));
    assert_eq!(hub.receive(s), Delivery::Message("two".to_string()));
    assert_eq!(hub.receive(s), Delivery::Message("three".to_string()));
    assert_eq!(hub.receive(s), Delivery::Idle);
}

#[test]
fn other_frames_are_ignored() {
    let mut hub = Hub::new(4);
    let s = hub.subscribe().unwrap();
    let mut reader = UpstreamReader::new();
    reader.handle(&mut hub, UpstreamEvent::Connected);
    for frame in [Frame::Binary, Frame::Ping, Frame::Pong, Frame::Close, Frame::Raw] {
        assert_eq!(
            reader.handle(&mut hub, UpstreamEvent::Frame(frame)),
            UpstreamAction::Continue
        );
    }
    assert_eq!(reader.state(), UpstreamState::Streaming);
    assert_eq!(hub.receive(s), Delivery::Idle);
    reader.handle(&mut hub, text("after"));
    assert_eq!(hub.receive(s), Delivery::Message("after".to_string()));
}

#[test]
fn frame_before_the_connection_is_not_published() {
    let mut hub = Hub::new(4);
    let s = hub.subscribe().unwrap();
    let mut reader = UpstreamReader::new();
    assert_eq!(reader.handle(&mut hub, text("early")), UpstreamAction::Continue);
    assert_eq!(reader.state(), UpstreamState::Connecting);
    assert_eq!(hub.receive(s), Delivery::Idle);
}

#[test]
fn failure_to_connect_is_fatal() {
    let mut hub = Hub::new(4);
    let s = hub.subscribe().unwrap();
    let mut reader = UpstreamReader::new();
    assert_eq!(
        reader.handle(&mut hub, UpstreamEvent::Lost(UpstreamFailure::ConnectFailed)),
        UpstreamAction::Exit { code: 1, failure: UpstreamFailure::ConnectFailed }
    );
    assert_eq!(reader.state(), UpstreamState::Terminated);
    assert!(!hub.is_live());
    assert_eq!(hub.receive(s), Delivery::Closed);
}

#[test]
fn read_error_is_fatal_and_nothing_is_delivered_afterwards() {
    let mut hub = Hub::new(4);
    let s = hub.subscribe().unwrap();
    let mut reader = UpstreamReader::new();
    reader.handle(&mut hub, UpstreamEvent::Connected);
    reader.handle(&mut hub, text("undelivered"));
    assert_eq!(
        reader.handle(&mut hub, UpstreamEvent::Lost(UpstreamFailure::ReadFailed)),
        UpstreamAction::Exit { code: UPSTREAM_LOST_EXIT_CODE, failure: UpstreamFailure::ReadFailed }
    );
    assert_eq!(reader.state(), UpstreamState::Terminated);
    assert_eq!(hub.receive(s), Delivery::Closed);
    assert_eq!(reader.handle(&mut hub, text("late")), UpstreamAction::Halt);
    assert_eq!(reader.handle(&mut hub, UpstreamEvent::Connected), UpstreamAction::Halt);
    assert_eq!(
        reader.handle(&mut hub, UpstreamEvent::Lost(UpstreamFailure::Closed)),
        UpstreamAction::Halt
    );
    assert_eq!(reader.state(), UpstreamState::Terminated);
    assert!(!hub.is_live());
    assert_eq!(hub.subscribe(), None);
    assert_eq!(hub.receive(s), Delivery::Closed);
}

#[test]
fn upstream_close_is_fatal() {
    let mut hub = Hub::new(4);
    let mut reader = UpstreamReader::new();
    reader.handle(&mut hub, UpstreamEvent::Connected);
    assert_eq!(
        reader.handle(&mut hub, UpstreamEvent::Lost(UpstreamFailure::Closed)),
        UpstreamAction::Exit { code: 1, failure: UpstreamFailure::Closed }
    );
    assert_eq!(reader.state(), UpstreamState::Terminated);
}
