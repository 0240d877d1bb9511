use macgyver_rs::cli_args::NamespaceAndService;
use macgyver_rs::logs::channel::CHANNEL_CAPACITY;
use macgyver_rs::logs::discovery::{resolve_all, Entity, TargetInventory};
use macgyver_rs::logs::relay::{Action, Event, ExitReason, Relay, WorkerReport};
use macgyver_rs::logs::{self, StreamEndpoint};

fn endpoint(label: &str, entity_id: &str) -> StreamEndpoint {
    StreamEndpoint {
        source_label: label.to_string(),
        namespace: "ns".to_string(),
        entity_id: entity_id.to_string(),
        container_id: "main".to_string(),
    }
}

fn closed(worker: usize) -> Event {
    Event::Closed { worker, reason: ExitReason::EndOfStream }
}

fn chunk(worker: usize, text: &str) -> Event {
    Event::Chunk { worker, bytes: text.as_bytes().to_vec() }
}

fn drain_all(relay: &mut Relay) -> (Vec<String>, Action) {
    let mut lines = Vec::new();
    loop {
        match relay.step(Event::Drain) {
            Action::Emit(line) => lines.push(line),
            Action::Filtered => {}
            last => return (lines, last),
        }
    }
}

#[test]
fn one_worker_is_created_for_each_endpoint() {
    let pod = |name: &str| Entity { name: Some(name.into()), sub_components: vec!["api".into()] };
    let inventories = vec![
        TargetInventory {
            target: NamespaceAndService { namespace: "prod".into(), service: "api".into() },
            entities: vec![pod("api-1"), pod("api-2")],
        },
        TargetInventory {
            target: NamespaceAndService { namespace: "dev".into(), service: "api".into() },
            entities: vec![pod("api-9")],
        },
        TargetInventory {
            target: NamespaceAndService { namespace: "qa".into(), service: "api".into() },
            entities: vec![],
        },
    ];
    let endpoints = resolve_all(&inventories);
    assert_eq!(endpoints.len(), 3);
    let relay = Relay::new("CTX".into(), None, endpoints.clone(), CHANNEL_CAPACITY);
    assert_eq!(relay.worker_count(), 3);
    for (i, wanted) in endpoints.iter().enumerate() {
        assert_eq!(relay.endpoint(i), Some(wanted));
        assert!(relay.is_live(i));
    }
    assert_eq!(relay.endpoint(0).unwrap().source_label, "prod-api");
    assert_eq!(relay.endpoint(1).unwrap().source_label, "prod-api");
    assert_eq!(relay.endpoint(2).unwrap().source_label, "dev-api");
    assert_eq!(relay.endpoint(3), None);
    assert!(!relay.is_live(3));
}

#[test]
fn run_without_endpoints_finishes_at_once() {
    let mut relay = Relay::new("CTX".into(), None, Vec::new(), CHANNEL_CAPACITY);
    assert_eq!(relay.worker_count(), 0);
    assert_eq!(relay.step(Event::Drain), Action::Finished);
}

#[test]
fn single_endpoint_emits_its_three_lines() {
    let mut relay =
        Relay::new("CTX".into(), None, vec![endpoint("ns-svc", "pod-1")], CHANNEL_CAPACITY);
    for text in ["a\n", "b\n", "c\n"] {
        assert_eq!(relay.step(chunk(0, text)), Action::Forwarded);
    }
    assert_eq!(relay.queued(), 3);
    assert_eq!(relay.step(Event::Drain), Action::Emit("CTX - ns-svc - a".into()));
    assert_eq!(relay.step(Event::Drain), Action::Emit("CTX - ns-svc - b".into()));
    assert_eq!(relay.step(Event::Drain), Action::Emit("CTX - ns-svc - c".into()));
    assert_eq!(relay.step(Event::Drain), Action::Idle);
    assert_eq!(relay.step(closed(0)), Action::Exited);
    assert_eq!(relay.step(Event::Drain), Action::Finished);
}

#[test]
fn two_endpoints_emit_eight_lines_each_in_its_order() {
    let mut relay = Relay::new(
        "CTX".into(),
        None,
        vec![endpoint("ns-one", "pod-1"), endpoint("ns-two", "pod-2")],
        CHANNEL_CAPACITY,
    );
    let arrivals = [(1, "t0"), (0, "o0"), (1, "t1"), (1, "t2"), (0, "o1"), (1, "t3"), (0, "o2"), (1, "t4")];
    for (worker, text) in arrivals {
        assert_eq!(relay.step(chunk(worker, &format!("{text}\n"))), Action::Forwarded);
    }
    assert_eq!(relay.step(closed(0)), Action::Exited);
    assert_eq!(relay.step(closed(1)), Action::Exited);
    let (lines, last) = drain_all(&mut relay);
    assert_eq!(last, Action::Finished);
    assert_eq!(lines.len(), 8);
    let of = |label: &str| -> Vec<String> {
        lines.iter().filter(|l| l.starts_with(&format!("CTX - {label} - "))).cloned().collect()
    };
    assert_eq!(of("ns-one"), vec!["CTX - ns-one - o0", "CTX - ns-one - o1", "CTX - ns-one - o2"]);
    assert_eq!(
        of("ns-two"),
        vec![
            "CTX - ns-two - t0",
            "CTX - ns-two - t1",
            "CTX - ns-two - t2",
            "CTX - ns-two - t3",
            "CTX - ns-two - t4"
        ]
    );
}

#[test]
fn pattern_holds_back_lines_that_lack_it() {
    let mut relay = Relay::new(
        "CTX".into(),
        Some("ERROR".into()),
        vec![endpoint("ns-svc", "pod-1")],
        CHANNEL_CAPACITY,
    );
    assert_eq!(relay.step(chunk(0, "404 error\n")), Action::Forwarded);
    assert_eq!(relay.step(chunk(0, "ERROR: timeout\n")), Action::Forwarded);
    assert_eq!(relay.step(Event::Drain), Action::Filtered);
    assert_eq!(relay.step(Event::Drain), Action::Emit("CTX - ns-svc - ERROR: timeout".into()));
}

#[test]
fn full_queue_suspends_the_worker_and_loses_nothing() {
    let mut relay = Relay::new("CTX".into(), None, vec![endpoint("ns-svc", "pod-1")], 2);
    assert_eq!(relay.step(chunk(0, "1\n")), Action::Forwarded);
    assert_eq!(relay.step(chunk(0, "2\n")), Action::Forwarded);
    assert_eq!(relay.step(chunk(0, "3\n")), Action::Suspended);
    assert_eq!(relay.queued(), 2);
    assert_eq!(relay.step(Event::Resume { worker: 0 }), Action::Suspended);
    assert_eq!(relay.step(chunk(0, "4\n")), Action::Refused);
    assert_eq!(relay.step(closed(0)), Action::Refused);
    assert!(relay.is_live(0));
    assert_eq!(relay.step(Event::Drain), Action::Emit("CTX - ns-svc - 1".into()));
    assert_eq!(relay.step(Event::Resume { worker: 0 }), Action::Forwarded);
    assert_eq!(relay.step(chunk(0, "4\n")), Action::Suspended);
    assert_eq!(relay.step(Event::Drain), Action::Emit("CTX - ns-svc - 2".into()));
    assert_eq!(relay.step(Event::Drain), Action::Emit("CTX - ns-svc - 3".into()));
    assert_eq!(relay.step(Event::Drain), Action::Idle);
    assert_eq!(relay.step(Event::Resume { worker: 0 }), Action::Forwarded);
    assert_eq!(relay.step(closed(0)), Action::Exited);
    assert_eq!(relay.step(Event::Drain), Action::Emit("CTX - ns-svc - 4".into()));
    assert_eq!(relay.step(Event::Drain), Action::Finished);
}

#[test]
fn paused_sink_with_many_workers_yields_every_record() {
    let workers = 4;
    let per_worker = 10;
    let endpoints = (0..workers).map(|w| endpoint(&format!("ns-{w}"), "pod")).collect();
    let mut relay = Relay::new("CTX".into(), None, endpoints, 3);
    let mut next = vec![0; workers];
    let mut suspended = vec![false; workers];
    let mut lines = Vec::new();
    let mut round = 0;
    loop {
        let mut progressed = false;
        for w in 0..workers {
            if suspended[w] {
                if relay.step(Event::Resume { worker: w }) == Action::Forwarded {
                    suspended[w] = false;
                    progressed = true;
                }
            } else if next[w] < per_worker {
                match relay.step(chunk(w, &format!("{}\n", next[w]))) {
                    Action::Forwarded => {}
                    Action::Suspended => suspended[w] = true,
                    other => panic!("unexpected answer {other:?}"),
                }
                next[w] += 1;
                progressed = true;
            } else if relay.is_live(w) {
                assert_eq!(relay.step(closed(w)), Action::Exited);
                progressed = true;
            }
        }
        round += 1;
        if round % 3 == 0 || !progressed {
            match relay.step(Event::Drain) {
                Action::Emit(line) => lines.push(line),
                Action::Finished => break,
                Action::Idle => {}
                other => panic!("unexpected answer {other:?}"),
            }
        }
    }
    assert_eq!(lines.len(), workers * per_worker);
    for w in 0..workers {
        let prefix = format!("CTX - ns-{w} - ");
        let mine: Vec<&str> =
            lines.iter().filter_map(|l| l.strip_prefix(prefix.as_str())).collect();
        let wanted: Vec<String> = (0..per_worker).map(|i| i.to_string()).collect();
        assert_eq!(mine, wanted);
    }
}

#[test]
fn undecodable_chunk_is_dropped_and_the_worker_reads_on() {
    let mut relay =
        Relay::new("CTX".into(), None, vec![endpoint("ns-svc", "pod-1")], CHANNEL_CAPACITY);
    assert_eq!(relay.step(chunk(0, "before\n")), Action::Forwarded);
    assert_eq!(
        relay.step(Event::Chunk { worker: 0, bytes: vec![0xFF, 0xFE, b'\n'] }),
        Action::Dropped
    );
    assert!(relay.is_live(0));
    assert_eq!(relay.queued(), 1);
    assert_eq!(relay.step(chunk(0, "after\n")), Action::Forwarded);
    assert_eq!(relay.step(Event::Drain), Action::Emit("CTX - ns-svc - before".into()));
    assert_eq!(relay.step(Event::Drain), Action::Emit("CTX - ns-svc - after".into()));
    assert_eq!(relay.step(Event::Drain), Action::Idle);
}

#[test]
fn exit_of_one_worker_leaves_the_others_at_work() {
    let mut relay = Relay::new(
        "CTX".into(),
        None,
        vec![endpoint("ns-one", "pod-1"), endpoint("ns-two", "pod-2")],
        CHANNEL_CAPACITY,
    );
    assert_eq!(relay.step(chunk(0, "last words\n")), Action::Forwarded);
    assert_eq!(relay.step(closed(0)), Action::Exited);
    assert!(!relay.is_live(0));
    assert!(relay.is_live(1));
    assert_eq!(relay.step(chunk(0, "ghost\n")), Action::Refused);
    assert_eq!(relay.step(closed(0)), Action::Refused);
    assert_eq!(relay.step(chunk(1, "still here\n")), Action::Forwarded);
    assert_eq!(relay.step(Event::Drain), Action::Emit("CTX - ns-one - last words".into()));
    assert_eq!(relay.step(Event::Drain), Action::Emit("CTX - ns-two - still here".into()));
    assert_eq!(relay.step(Event::Drain), Action::Idle);
    assert_eq!(relay.step(closed(1)), Action::Exited);
    assert_eq!(relay.step(Event::Drain), Action::Finished);
}

#[test]
fn run_is_not_over_while_records_are_queued() {
    let mut relay =
        Relay::new("CTX".into(), None, vec![endpoint("ns-svc", "pod-1")], CHANNEL_CAPACITY);
    assert_eq!(relay.step(chunk(0, "x\n")), Action::Forwarded);
    assert_eq!(relay.step(closed(0)), Action::Exited);
    assert_eq!(relay.step(Event::Drain), Action::Emit("CTX - ns-svc - x".into()));
    assert_eq!(relay.step(Event::Drain), Action::Finished);
    assert_eq!(relay.step(Event::Drain), Action::Finished);
}

#[test]
fn events_for_unknown_workers_are_refused() {
    let mut relay =
        Relay::new("CTX".into(), None, vec![endpoint("ns-svc", "pod-1")], CHANNEL_CAPACITY);
    assert_eq!(relay.step(chunk(1, "x\n")), Action::Refused);
    assert_eq!(relay.step(Event::Resume { worker: 1 }), Action::Refused);
    assert_eq!(relay.step(closed(7)), Action::Refused);
    assert_eq!(relay.step(Event::Resume { worker: 0 }), Action::Refused);
    assert_eq!(relay.queued(), 0);
    assert!(relay.is_live(0));
}

#[test]
fn methods_answer_as_the_events_do() {
    let mut relay = Relay::new("CTX".into(), None, vec![endpoint("ns-svc", "pod-1")], 1);
    assert_eq!(relay.send_message_to_channel(0, b"a\n".to_vec()), Action::Forwarded);
    assert_eq!(relay.send_message_to_channel(0, b"b\n".to_vec()), Action::Suspended);
    assert_eq!(relay.resume(0), Action::Suspended);
    assert_eq!(relay.drain(), Action::Emit("CTX - ns-svc - a".into()));
    assert_eq!(relay.resume(0), Action::Forwarded);
    assert_eq!(relay.close(0, ExitReason::EndOfStream), Action::Exited);
    assert_eq!(relay.drain(), Action::Emit("CTX - ns-svc - b".into()));
    assert_eq!(relay.drain(), Action::Finished);
}

#[test]
fn reports_count_dropped_chunks_and_keep_exit_reasons() {
    let mut relay = Relay::new(
        "CTX".into(),
        None,
        vec![endpoint("ns-one", "pod-1"), endpoint("ns-two", "pod-2")],
        CHANNEL_CAPACITY,
    );
    let nothing = WorkerReport { dropped: 0, exit: None };
    assert_eq!(relay.report(0), Some(nothing));
    assert_eq!(relay.report(1), Some(nothing));
    assert_eq!(relay.report(2), None);
    assert_eq!(relay.step(Event::Chunk { worker: 0, bytes: vec![0x80] }), Action::Dropped);
    assert_eq!(relay.step(chunk(0, "fine\n")), Action::Forwarded);
    assert_eq!(relay.step(Event::Chunk { worker: 0, bytes: vec![0xC3] }), Action::Dropped);
    assert_eq!(relay.report(0), Some(WorkerReport { dropped: 2, exit: None }));
    assert_eq!(relay.report(1), Some(nothing));
    assert_eq!(
        relay.step(Event::Closed { worker: 0, reason: ExitReason::StreamError }),
        Action::Exited
    );
    assert_eq!(
        relay.step(Event::Closed { worker: 1, reason: ExitReason::EndOfStream }),
        Action::Exited
    );
    assert_eq!(
        relay.report(0),
        Some(WorkerReport { dropped: 2, exit: Some(ExitReason::StreamError) })
    );
    assert_eq!(
        relay.report(1),
        Some(WorkerReport { dropped: 0, exit: Some(ExitReason::EndOfStream) })
    );
    assert_eq!(
        relay.step(Event::Closed { worker: 0, reason: ExitReason::EndOfStream }),
        Action::Refused
    );
    assert_eq!(
        relay.report(0),
        Some(WorkerReport { dropped: 2, exit: Some(ExitReason::StreamError) })
    );
}

#[test]
fn what_went_wrong_is_never_shown() {
    let mut relay =
        Relay::new("CTX".into(), None, vec![endpoint("ns-svc", "pod-1")], CHANNEL_CAPACITY);
    assert_eq!(relay.step(Event::Chunk { worker: 0, bytes: vec![0xFF] }), Action::Dropped);
    assert_eq!(relay.step(Event::Drain), Action::Idle);
    assert_eq!(
        relay.step(Event::Closed { worker: 0, reason: ExitReason::StreamError }),
        Action::Exited
    );
    assert_eq!(relay.step(Event::Drain), Action::Finished);
}

#[test]
fn run_is_set_up_from_the_targets() {
    let pod = |name: &str, parts: &[&str]| Entity {
        name: Some(name.into()),
        sub_components: parts.iter().map(|p| p.to_string()).collect(),
    };
    let inventories = vec![
        TargetInventory {
            target: NamespaceAndService { namespace: "prod".into(), service: "api".into() },
            entities: vec![pod("api-1", &["proxy", "api"]), pod("db-0", &["postgres"])],
        },
        TargetInventory {
            target: NamespaceAndService { namespace: "prod".into(), service: "web".into() },
            entities: vec![pod("web-1", &["web"]), pod("web-2", &["web"])],
        },
    ];
    let mut relay = logs::process("PROD".into(), Some("ERROR".into()), &inventories);
    assert_eq!(relay.worker_count(), 3);
    let labels: Vec<&str> =
        (0..3).map(|w| relay.endpoint(w).unwrap().source_label.as_str()).collect();
    assert_eq!(labels, vec!["prod-api", "prod-web", "prod-web"]);
    let pods: Vec<&str> = (0..3).map(|w| relay.endpoint(w).unwrap().entity_id.as_str()).collect();
    assert_eq!(pods, vec!["api-1", "web-1", "web-2"]);
    assert_eq!(relay.queued(), 0);
    for i in 0..CHANNEL_CAPACITY {
        assert_eq!(relay.step(chunk(i % 3, "ERROR\n")), Action::Forwarded);
    }
    assert_eq!(relay.step(chunk(0, "one too many\n")), Action::Suspended);
    assert_eq!(relay.step(Event::Drain), Action::Emit("PROD - prod-api - ERROR".into()));
    assert_eq!(relay.step(Event::Drain), Action::Emit("PROD - prod-web - ERROR".into()));
    assert_eq!(relay.step(Event::Resume { worker: 0 }), Action::Forwarded);
}
