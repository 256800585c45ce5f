use ws_bench::fleet::{after_attempt, client_ids, socket_config, ConnectStep, MAX_WRITE_BUFFER_BYTES};

#[test]
fn client_ids_are_the_numbers_below_the_count() {
    assert_eq!(client_ids(0), Vec::<usize>::new());
    assert_eq!(client_ids(1), vec![0]);
    assert_eq!(client_ids(5), vec![0, 1, 2, 3, 4]);
    let ids = client_ids(1000);
    assert_eq!(ids.len(), 1000);
    for (i, id) in ids.iter().enumerate() {
        assert_eq!(*id, i);
    }
}

#[test]
fn socket_writes_eagerly_and_takes_any_size() {
    let config = socket_config();
    assert_eq!(config.write_buffer_size, 0);
    assert_eq!(config.max_write_buffer_size, 1_000_000);
    assert_eq!(MAX_WRITE_BUFFER_BYTES, 1_000_000);
    assert_eq!(config.max_message_size, None);
    assert_eq!(config.max_frame_size, None);
    assert!(config.accept_unmasked_frames);
}

#[test]
fn handshake_is_retried_at_once_until_it_succeeds() {
    for _ in 0..1000 {
        assert_eq!(after_attempt(false), ConnectStep::Retry(0));
    }
    assert_eq!(after_attempt(true), ConnectStep::Ready);
}
