use ws_bench::frame::{ServerFrame, Violation};
use ws_bench::message::ServerMessage;
use ws_bench::receiver::{expected_frames, process_message, violation_in, Receiver, RecvPhase};

fn reply(client_id: usize, msg_id: usize, created_at: u128) -> ServerMessage {
    ServerMessage {
        client_id,
        msg_id,
        msg: String::from("padding"),
        created_at,
        client_ts: created_at - 2,
        server_latency: 2,
    }
}

#[test]
fn process_message_formats_a_response_of_the_session() {
    let res = process_message(4, ServerFrame::Message(reply(4, 1, 50)), 58);
    assert_eq!(res, Some(String::from("58,4,1,50,48,8,2\n")));
}

#[test]
fn process_message_takes_a_close_frame_as_the_end() {
    assert_eq!(process_message(4, ServerFrame::Close, 58), None);
}

#[test]
fn a_response_of_another_session_is_a_violation() {
    let frame = ServerFrame::Message(reply(5, 1, 50));
    assert_eq!(violation_in(4, &frame), Some(Violation::ForeignClient));
    assert_eq!(violation_in(5, &frame), None);
}

#[test]
fn process_message_counts_no_latency_for_a_response_from_the_future() {
    let frame = ServerFrame::Message(reply(4, 1, 59));
    assert_eq!(violation_in(4, &frame), None);
    let res = process_message(4, frame, 58);
    assert_eq!(res, Some(String::from("58,4,1,59,57,0,2\n")));
}

#[test]
fn a_close_frame_is_no_violation() {
    assert_eq!(violation_in(4, &ServerFrame::Close), None);
}

#[test]
fn an_undecodable_payload_is_a_violation() {
    assert_eq!(violation_in(4, &ServerFrame::Malformed), Some(Violation::Undecodable));
}

#[test]
fn a_frame_of_another_kind_is_a_violation() {
    assert_eq!(violation_in(4, &ServerFrame::Other), Some(Violation::UnexpectedFrame));
}

#[test]
fn expected_frames_is_the_product() {
    assert_eq!(expected_frames(1, 1, 4), Some(4));
    assert_eq!(expected_frames(5, 3, 4), Some(60));
    assert_eq!(expected_frames(2, 2, 4), Some(16));
    assert_eq!(expected_frames(7, 11, 13), Some(1001));
}

#[test]
fn expected_frames_of_an_empty_run_is_zero() {
    assert_eq!(expected_frames(0, 9, 4), Some(0));
    assert_eq!(expected_frames(9, 0, 4), Some(0));
    assert_eq!(expected_frames(9, 9, 0), Some(0));
    assert_eq!(expected_frames(usize::MAX, usize::MAX, 0), Some(0));
    assert_eq!(expected_frames(0, usize::MAX, usize::MAX), Some(0));
}

#[test]
fn expected_frames_that_do_not_fit() {
    assert_eq!(expected_frames(usize::MAX, 2, 1), None);
    assert_eq!(expected_frames(usize::MAX, 1, 2), None);
    assert_eq!(expected_frames(1 << (usize::BITS / 2), 1 << (usize::BITS / 2), 1), None);
    assert_eq!(expected_frames(usize::MAX, 1, 1), Some(usize::MAX));
}

#[test]
fn receiver_completes_on_the_expected_count() {
    let mut rx = Receiver::new(1, 3);
    assert_eq!(rx.phase(), RecvPhase::Receiving);
    assert_eq!(rx.client_id(), 1);
    assert_eq!(rx.expected(), 3);
    let mut lines = Vec::new();
    for k in 0..3usize {
        assert!(rx.is_receiving());
        let line = rx.on_frame(ServerFrame::Message(reply(1, k, 10)), 11);
        lines.push(line.unwrap());
        assert_eq!(rx.received(), k + 1);
    }
    assert_eq!(rx.phase(), RecvPhase::Complete);
    assert!(!rx.is_receiving());
    assert_eq!(lines, vec!["11,1,0,10,8,1,2\n", "11,1,1,10,8,1,2\n", "11,1,2,10,8,1,2\n"]);
}

#[test]
fn receiver_that_expects_nothing_is_complete_at_once() {
    let mut rx = Receiver::new(1, 0);
    assert_eq!(rx.phase(), RecvPhase::Complete);
    assert!(!rx.is_receiving());
    assert_eq!(rx.on_frame(ServerFrame::Message(reply(1, 0, 10)), 11), None);
    assert_eq!(rx.received(), 0);
    assert_eq!(rx.phase(), RecvPhase::Complete);
}

#[test]
fn receiver_ignores_frames_after_completion() {
    let mut rx = Receiver::new(1, 1);
    assert!(rx.on_frame(ServerFrame::Message(reply(1, 0, 10)), 11).is_some());
    assert_eq!(rx.on_frame(ServerFrame::Message(reply(1, 1, 10)), 11), None);
    assert_eq!(rx.on_frame(ServerFrame::Close, 11), None);
    rx.on_stream_end();
    assert_eq!(rx.phase(), RecvPhase::Complete);
    assert_eq!(rx.received(), 1);
}

#[test]
fn receiver_stops_early_on_a_close_frame() {
    let mut rx = Receiver::new(1, 4);
    assert!(rx.on_frame(ServerFrame::Message(reply(1, 0, 10)), 11).is_some());
    assert_eq!(rx.on_frame(ServerFrame::Close, 12), None);
    assert_eq!(rx.phase(), RecvPhase::Closed);
    assert_eq!(rx.on_frame(ServerFrame::Message(reply(1, 1, 10)), 13), None);
    assert_eq!(rx.received(), 1);
}

#[test]
fn receiver_stops_early_when_the_stream_ends() {
    let mut rx = Receiver::new(1, 4);
    assert!(rx.on_frame(ServerFrame::Message(reply(1, 0, 10)), 11).is_some());
    rx.on_stream_end();
    assert_eq!(rx.phase(), RecvPhase::Lost);
    assert!(!rx.is_receiving());
    assert_eq!(rx.received(), 1);
}

#[test]
fn receiver_fails_on_each_violation() {
    let mut rx = Receiver::new(1, 4);
    assert_eq!(rx.on_frame(ServerFrame::Message(reply(2, 0, 10)), 11), None);
    assert_eq!(rx.phase(), RecvPhase::Failed(Violation::ForeignClient));

    let mut rx = Receiver::new(1, 4);
    assert_eq!(rx.on_frame(ServerFrame::Malformed, 11), None);
    assert_eq!(rx.phase(), RecvPhase::Failed(Violation::Undecodable));

    let mut rx = Receiver::new(1, 4);
    assert_eq!(rx.on_frame(ServerFrame::Other, 11), None);
    assert_eq!(rx.phase(), RecvPhase::Failed(Violation::UnexpectedFrame));
    assert_eq!(rx.received(), 0);
    assert!(!rx.is_receiving());
}

#[test]
fn receiver_records_rows_of_its_own_session_only() {
    let mut rx = Receiver::new(6, 100);
    let mut lines = Vec::new();
    for k in 0..10usize {
        if let Some(line) = rx.on_frame(ServerFrame::Message(reply(6, k, 20 + k as u128)), 40) {
            lines.push(line);
        }
    }
    assert_eq!(lines.len(), 10);
    for line in &lines {
        let fields: Vec<&str> = line.trim_end().split(',').collect();
        assert_eq!(fields.len(), 7);
        assert_eq!(fields[1], "6");
    }
}

#[test]
fn receiver_records_a_response_from_the_future() {
    let mut rx = Receiver::new(1, 4);
    let line = rx.on_frame(ServerFrame::Message(reply(1, 0, 12)), 11);
    assert_eq!(line, Some(String::from("11,1,0,12,10,0,2\n")));
    assert_eq!(rx.phase(), RecvPhase::Receiving);
    assert_eq!(rx.received(), 1);
}

#[test]
fn receiver_keeps_the_order_of_arrival() {
    let mut rx = Receiver::new(0, 3);
    let a = rx.on_frame(ServerFrame::Message(reply(0, 2, 10)), 11).unwrap();
    let b = rx.on_frame(ServerFrame::Message(reply(0, 0, 10)), 12).unwrap();
    let c = rx.on_frame(ServerFrame::Message(reply(0, 1, 10)), 13).unwrap();
    assert_eq!(a, "11,0,2,10,8,1,2\n");
    assert_eq!(b, "12,0,0,10,8,2,2\n");
    assert_eq!(c, "13,0,1,10,8,3,2\n");
}
