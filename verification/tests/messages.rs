use ws_bench::message::{
    latency_ms, random_padding, ClientMessage, ServerMessage, FIXED_FIELD_BYTES, MSG_SIZE, PADDING_LEN,
};

#[test]
fn padding_length_is_the_target_size_less_the_fixed_fields() {
    assert_eq!(MSG_SIZE, 1024);
    assert_eq!(FIXED_FIELD_BYTES, 32);
    assert_eq!(PADDING_LEN, 992);
}

#[test]
fn new_request_keeps_its_arguments() {
    let m = ClientMessage::new(1_700_000_000_000, 17, 5);
    assert_eq!(m.client_id, 17);
    assert_eq!(m.msg_id, 5);
    assert_eq!(m.created_at, 1_700_000_000_000);
}

#[test]
fn new_request_has_alphanumeric_padding_of_fixed_length() {
    for msg_id in 0..20 {
        let m = ClientMessage::new(1, 2, msg_id);
        assert_eq!(m.msg.chars().count(), PADDING_LEN);
        assert_eq!(m.msg.len(), PADDING_LEN);
        assert!(m.msg.chars().all(|c| c.is_ascii_alphanumeric()));
    }
}

#[test]
fn padding_is_drawn_afresh_each_time() {
    let a = ClientMessage::new(1, 2, 3);
    let b = ClientMessage::new(1, 2, 3);
    assert_ne!(a.msg, b.msg);
    let first = a.msg.chars().next().unwrap();
    assert!(a.msg.chars().any(|c| c != first));
}

#[test]
fn random_padding_of_any_length() {
    assert_eq!(random_padding(0), "");
    let p = random_padding(1);
    assert_eq!(p.len(), 1);
    assert!(p.chars().all(|c| c.is_ascii_alphanumeric()));
    let p = random_padding(5000);
    assert_eq!(p.len(), 5000);
    assert!(p.chars().all(|c| c.is_ascii_alphanumeric()));
}

#[test]
fn reply_preserves_identifiers_and_padding() {
    let request = ClientMessage {
        client_id: 42,
        msg_id: 7,
        msg: String::from("pad \"quoted\" \u{e9}\n"),
        created_at: 1_000,
    };
    let response = ServerMessage::reply_to(request.clone(), 1_250);
    assert_eq!(response.client_id, request.client_id);
    assert_eq!(response.msg_id, request.msg_id);
    assert_eq!(response.msg, request.msg);
    assert_eq!(response.client_ts, 1_000);
    assert_eq!(response.created_at, 1_250);
    assert_eq!(response.server_latency, 250);
}

#[test]
fn reply_at_the_very_stamp_of_the_request_has_no_latency() {
    let request = ClientMessage { client_id: 0, msg_id: 0, msg: String::new(), created_at: 77 };
    let response = ServerMessage::reply_to(request, 77);
    assert_eq!(response.server_latency, 0);
    assert_eq!(response.created_at, 77);
    assert_eq!(response.client_ts, 77);
}

#[test]
fn reply_to_a_fresh_request_keeps_its_padding() {
    let request = ClientMessage::new(5, 1, 2);
    let padding = request.msg.clone();
    let response = ServerMessage::reply_to(request, 9);
    assert_eq!(response.msg, padding);
    assert_eq!(response.server_latency, 4);
}

#[test]
fn row_of_a_reply_has_ordered_timestamps() {
    let request = ClientMessage { client_id: 3, msg_id: 9, msg: String::from("x"), created_at: 100 };
    let response = ServerMessage::reply_to(request, 130);
    let line = response.format(175);
    assert_eq!(line, "175,3,9,130,100,45,30\n");
    let fields: Vec<u128> =
        line.trim_end().split(',').map(|f| f.parse::<u128>().unwrap()).collect();
    assert!(fields[0] >= fields[3] && fields[3] >= fields[4]);
    assert_eq!(fields[5], fields[0] - fields[3]);
    assert_eq!(fields[6], fields[3] - fields[4]);
}

#[test]
fn format_takes_the_widest_values() {
    let m = ServerMessage {
        client_id: usize::MAX,
        msg_id: usize::MAX,
        msg: String::new(),
        created_at: u128::MAX,
        client_ts: u128::MAX,
        server_latency: u128::MAX,
    };
    let line = m.format(u128::MAX);
    let expected = format!(
        "{},{},{},{},{},{},{}\n",
        u128::MAX,
        usize::MAX,
        usize::MAX,
        u128::MAX,
        u128::MAX,
        0,
        u128::MAX
    );
    assert_eq!(line, expected);
}

#[test]
fn latency_is_the_difference_or_zero() {
    assert_eq!(latency_ms(100, 130), 30);
    assert_eq!(latency_ms(100, 100), 0);
    assert_eq!(latency_ms(130, 100), 0);
    assert_eq!(latency_ms(0, u128::MAX), u128::MAX);
    assert_eq!(latency_ms(u128::MAX, 0), 0);
}

#[test]
fn reply_to_a_request_from_the_future_has_no_latency() {
    let request = ClientMessage { client_id: 1, msg_id: 2, msg: String::from("p"), created_at: 90 };
    let response = ServerMessage::reply_to(request, 80);
    assert_eq!(response.created_at, 80);
    assert_eq!(response.client_ts, 90);
    assert_eq!(response.server_latency, 0);
}

#[test]
fn format_of_a_response_from_the_future_has_no_client_latency() {
    let m = ServerMessage {
        client_id: 1,
        msg_id: 2,
        msg: String::new(),
        created_at: 500,
        client_ts: 490,
        server_latency: 10,
    };
    assert_eq!(m.format(499), "499,1,2,500,490,0,10\n");
}
