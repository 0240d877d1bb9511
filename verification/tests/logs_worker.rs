use macgyver_rs::logs::worker::{decode_chunk, StreamWorker, WorkerState};
use macgyver_rs::logs::{LogRecord, StreamEndpoint};

fn record(label: &str, text: &str) -> LogRecord {
    LogRecord { source_label: label.to_string(), text: text.to_string() }
}

#[test]
fn chunk_becomes_a_record_under_the_label() {
    assert_eq!(decode_chunk("prod-api", b"hello\n"), Some(record("prod-api", "hello\n")));
}

#[test]
fn empty_chunk_is_an_empty_record() {
    assert_eq!(decode_chunk("l", &[]), Some(record("l", "")));
}

#[test]
fn chunk_of_several_bytes_per_character_decodes() {
    let bytes = vec![0xC3, 0xA9, 0xE2, 0x82, 0xAC, 0xF0, 0x9F, 0x98, 0x80, b'\n'];
    assert_eq!(decode_chunk("l", &bytes), Some(record("l", "é€😀\n")));
}

#[test]
fn chunk_that_is_not_utf8_is_dropped() {
    assert_eq!(decode_chunk("l", &[0xFF, 0xFE]), None);
    assert_eq!(decode_chunk("l", &[b'a', 0x80]), None);
}

#[test]
fn truncated_overlong_and_surrogate_chunks_are_dropped() {
    assert_eq!(decode_chunk("l", &[0xE2, 0x82]), None);
    assert_eq!(decode_chunk("l", &[0xC0, 0x80]), None);
    assert_eq!(decode_chunk("l", &[0xED, 0xA0, 0x80]), None);
    assert_eq!(decode_chunk("l", &[0xF4, 0x90, 0x80, 0x80]), None);
}

#[test]
fn new_worker_reads_its_endpoint() {
    let endpoint = StreamEndpoint {
        source_label: "prod-api".into(),
        namespace: "prod".into(),
        entity_id: "api-1".into(),
        container_id: "api".into(),
    };
    let worker = StreamWorker::new(endpoint.clone());
    assert_eq!(worker.endpoint, endpoint);
    assert_eq!(worker.state, WorkerState::Reading);
    assert!(worker.is_live());
}

#[test]
fn suspended_worker_is_live_and_exited_is_not() {
    let endpoint = StreamEndpoint {
        source_label: "l".into(),
        namespace: "n".into(),
        entity_id: "e".into(),
        container_id: "c".into(),
    };
    let suspended =
        StreamWorker { endpoint: endpoint.clone(), state: WorkerState::Suspended(record("l", "x")) };
    assert!(suspended.is_live());
    let exited = StreamWorker { endpoint, state: WorkerState::Exited };
    assert!(!exited.is_live());
}
