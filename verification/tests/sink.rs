use ws_bench::csv::csv_header;
use ws_bench::sink::{Sink, SinkAction, SinkEvent, SinkPhase, SINK_BUFFER_BYTES};

const HEADER: &str =
    "timestamp,client_id,msg_id,server_created_at,client_created_at,client_latency,server_latency\n";

/// Feeds the events to a fresh sink and gathers what it asks to write.
fn file_after(events: Vec<SinkEvent>) -> (String, Sink) {
    let mut sink = Sink::new();
    let mut file = String::new();
    for event in events {
        if let SinkAction::Write(text) = sink.on_event(event) {
            file.push_str(&text);
        }
    }
    (file, sink)
}

#[test]
fn sink_buffer_is_ten_mebibytes() {
    assert_eq!(SINK_BUFFER_BYTES, 10_485_760);
}

#[test]
fn sink_writes_the_header_first() {
    let mut sink = Sink::new();
    assert_eq!(sink.phase(), SinkPhase::Fresh);
    assert_eq!(sink.on_event(SinkEvent::Opened), SinkAction::Write(String::from(HEADER)));
    assert_eq!(sink.phase(), SinkPhase::Draining);
    assert_eq!(csv_header(), HEADER);
}

#[test]
fn sink_writes_lines_as_they_come() {
    let (file, sink) = file_after(vec![
        SinkEvent::Opened,
        SinkEvent::Line(String::from("5,1,0,4,3,1,1\n")),
        SinkEvent::Line(String::from("6,0,0,4,3,2,1\n")),
        SinkEvent::Line(String::from("7,1,1,4,3,3,1\n")),
    ]);
    assert_eq!(file, format!("{}5,1,0,4,3,1,1\n6,0,0,4,3,2,1\n7,1,1,4,3,3,1\n", HEADER));
    assert_eq!(sink.phase(), SinkPhase::Draining);
    assert!(!sink.is_flushed());
}

#[test]
fn sink_flushes_when_every_sender_is_gone() {
    let mut sink = Sink::new();
    sink.on_event(SinkEvent::Opened);
    sink.on_event(SinkEvent::Line(String::from("5,1,0,4,3,1,1\n")));
    assert_eq!(sink.on_event(SinkEvent::Disconnected), SinkAction::Flush);
    assert!(sink.is_flushed());
    assert_eq!(sink.on_event(SinkEvent::Line(String::from("x"))), SinkAction::Idle);
    assert_eq!(sink.on_event(SinkEvent::Disconnected), SinkAction::Idle);
    assert_eq!(sink.on_event(SinkEvent::Opened), SinkAction::Idle);
    assert_eq!(sink.phase(), SinkPhase::Flushed);
}

#[test]
fn sink_takes_nothing_before_the_file_is_open() {
    let mut sink = Sink::new();
    assert_eq!(sink.on_event(SinkEvent::Line(String::from("5,1,0,4,3,1,1\n"))), SinkAction::Idle);
    assert_eq!(sink.on_event(SinkEvent::Disconnected), SinkAction::Idle);
    assert_eq!(sink.phase(), SinkPhase::Fresh);
}

#[test]
fn sink_writes_the_header_once() {
    let (file, _) = file_after(vec![SinkEvent::Opened, SinkEvent::Opened, SinkEvent::Opened]);
    assert_eq!(file, HEADER);
}

#[test]
fn sink_of_a_run_without_rows_holds_the_header_alone() {
    let (file, sink) = file_after(vec![SinkEvent::Opened, SinkEvent::Disconnected]);
    assert_eq!(file, HEADER);
    assert!(sink.is_flushed());
}
