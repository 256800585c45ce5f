use std::ops::ControlFlow;
use ws_bench::frame::{ClientFrame, Violation};
use ws_bench::message::ClientMessage;
use ws_bench::server::{process_ws_message, Echo, EchoPhase, WRITE_FACTOR};

fn request(client_id: usize, msg_id: usize, created_at: u128) -> ClientMessage {
    ClientMessage { client_id, msg_id, msg: String::from("abcXYZ019"), created_at }
}

#[test]
fn fan_out_factor_is_four() {
    assert_eq!(WRITE_FACTOR, 4);
}

#[test]
fn process_ws_message_hands_a_request_on() {
    let flow = process_ws_message(ClientFrame::Request(request(1, 2, 3)));
    assert_eq!(flow, ControlFlow::Continue(Some(request(1, 2, 3))));
}

#[test]
fn process_ws_message_stops_on_close() {
    assert_eq!(process_ws_message(ClientFrame::Close), ControlFlow::Break(()));
}

#[test]
fn process_ws_message_skips_other_frames() {
    assert_eq!(process_ws_message(ClientFrame::Other), ControlFlow::Continue(None));
}

#[test]
fn echo_sends_each_response_four_times() {
    let mut echo = Echo::new();
    assert_eq!(echo.phase(), EchoPhase::Listening);
    assert_eq!(echo.pending(), 0);
    let response = echo.on_frame(ClientFrame::Request(request(9, 1, 100)), 120).unwrap();
    assert_eq!(response.client_id, 9);
    assert_eq!(response.msg_id, 1);
    assert_eq!(response.msg, "abcXYZ019");
    assert_eq!(response.created_at, 120);
    assert_eq!(response.client_ts, 100);
    assert_eq!(response.server_latency, 20);
    let mut sends = 0;
    while echo.phase() == EchoPhase::Replying {
        assert_eq!(echo.pending(), 4 - sends);
        echo.on_sent(true);
        sends += 1;
    }
    assert_eq!(sends, 4);
    assert_eq!(echo.phase(), EchoPhase::Listening);
    assert_eq!(echo.pending(), 0);
}

#[test]
fn echo_answers_request_after_request() {
    let mut echo = Echo::new();
    let mut sends = 0;
    for k in 0..25usize {
        let response = echo.on_frame(ClientFrame::Request(request(3, k, 10)), 10);
        assert_eq!(response.unwrap().msg_id, k);
        while echo.phase() == EchoPhase::Replying {
            echo.on_sent(true);
            sends += 1;
        }
    }
    assert_eq!(sends, 100);
}

#[test]
fn echo_gives_up_when_a_send_fails() {
    let mut echo = Echo::new();
    assert!(echo.on_frame(ClientFrame::Request(request(9, 1, 100)), 120).is_some());
    echo.on_sent(true);
    echo.on_sent(false);
    assert_eq!(echo.phase(), EchoPhase::Lost);
    assert_eq!(echo.pending(), 0);
    echo.on_sent(true);
    assert_eq!(echo.phase(), EchoPhase::Lost);
    assert!(echo.on_frame(ClientFrame::Request(request(9, 2, 100)), 120).is_none());
    assert_eq!(echo.phase(), EchoPhase::Lost);
}

#[test]
fn echo_does_not_read_while_it_replies() {
    let mut echo = Echo::new();
    assert!(echo.on_frame(ClientFrame::Request(request(9, 1, 100)), 120).is_some());
    assert!(echo.on_frame(ClientFrame::Request(request(9, 2, 100)), 121).is_none());
    echo.on_stream_end();
    assert_eq!(echo.phase(), EchoPhase::Replying);
    assert_eq!(echo.pending(), 4);
}

#[test]
fn echo_stops_on_close() {
    let mut echo = Echo::new();
    assert!(echo.on_frame(ClientFrame::Close, 5).is_none());
    assert_eq!(echo.phase(), EchoPhase::Closed);
    assert!(echo.on_frame(ClientFrame::Request(request(9, 2, 1)), 6).is_none());
    assert_eq!(echo.phase(), EchoPhase::Closed);
}

#[test]
fn echo_stops_when_the_stream_ends() {
    let mut echo = Echo::new();
    echo.on_stream_end();
    assert_eq!(echo.phase(), EchoPhase::Closed);
}

#[test]
fn echo_skips_other_frames() {
    let mut echo = Echo::new();
    assert!(echo.on_frame(ClientFrame::Other, 5).is_none());
    assert_eq!(echo.phase(), EchoPhase::Listening);
    assert_eq!(echo.pending(), 0);
}

#[test]
fn echo_ignores_send_results_while_listening() {
    let mut echo = Echo::new();
    echo.on_sent(false);
    assert_eq!(echo.phase(), EchoPhase::Listening);
    echo.on_sent(true);
    assert_eq!(echo.phase(), EchoPhase::Listening);
}

#[test]
fn echo_fails_on_an_undecodable_payload() {
    let mut echo = Echo::new();
    assert!(echo.on_frame(ClientFrame::Malformed, 5).is_none());
    assert_eq!(echo.phase(), EchoPhase::Failed(Violation::Undecodable));
    assert_eq!(echo.pending(), 0);
    // nothing is read or sent after that
    assert!(echo.on_frame(ClientFrame::Request(request(9, 2, 1)), 6).is_none());
    echo.on_sent(true);
    echo.on_stream_end();
    assert_eq!(echo.phase(), EchoPhase::Failed(Violation::Undecodable));
}

#[test]
fn echo_answers_a_request_from_the_future_with_no_latency() {
    let mut echo = Echo::new();
    let response = echo.on_frame(ClientFrame::Request(request(9, 1, 121)), 120).unwrap();
    assert_eq!(response.created_at, 120);
    assert_eq!(response.client_ts, 121);
    assert_eq!(response.server_latency, 0);
    assert_eq!(echo.phase(), EchoPhase::Replying);
    assert_eq!(echo.pending(), 4);
}
