use superman::protocols::gearman::{Packet, Request, Response};
use superman::state::assignee::{decline, Assignment};
use superman::state::order::{OrderAction, OrderEvent};
use superman::state::reader::Read;
use superman::state::worker::{ExitAction, ExitStage, RunAction, RunEvent, Timeout, Worker};
use superman::state::State;

fn worker(name: &str, concurrency: usize) -> Worker {
    let mut state = State::create("superman", "0.1.0", "host");
    state.start_worker(name, "/home/code/bin/run-order", concurrency, Timeout::from_secs(1));
    state.take(name).unwrap()
}

fn job(handle: &str, name: &[u8]) -> Response {
    Response::JobAssignUniq {
        handle: handle.as_bytes().to_vec(),
        name: name.to_vec(),
        unique: b"u".to_vec(),
        workload: b"W".to_vec(),
    }
}

fn frame_of(response: Response) -> Vec<u8> {
    Packet::response(response).unwrap().to_bytes().unwrap()
}

fn solicit(assignment: Assignment) -> bool {
    match assignment {
        Assignment::Accepted { solicit, .. } => solicit,
        other => panic!("not accepted: {:?}", other),
    }
}

fn cant_do(name: &str) -> Request {
    Request::CantDo { name: name.as_bytes().to_vec() }
}

#[test]
fn concurrency_solicitation() {
    let mut worker = worker("fn", 3);
    assert_eq!(worker.current_load, 0);
    assert!(solicit(worker.assignee(job("H1", b"fn"))));
    assert_eq!(worker.current_load, 1);
    assert!(solicit(worker.assignee(job("H2", b"fn"))));
    assert_eq!(worker.current_load, 2);
    assert!(!solicit(worker.assignee(job("H3", b"fn"))));
    assert_eq!(worker.current_load, 3);
}

#[test]
fn shutdown_with_in_flight_work() {
    let mut state = State::create("superman", "0.1.0", "host");
    state.start_worker("fn", "/bin/run", 2, Timeout::from_secs(1));
    let mut worker = state.take("fn").unwrap();
    let mut first = match worker.assignee(job("H1", b"fn")) {
        Assignment::Accepted { order, .. } => order,
        other => panic!("not accepted: {:?}", other),
    };
    let mut second = match worker.assignee(job("H2", b"fn")) {
        Assignment::Accepted { order, .. } => order,
        other => panic!("not accepted: {:?}", other),
    };
    state.put(worker);

    let mut wire: Vec<Request> = Vec::new();
    let mut sent_cant = false;
    let mut stage = ExitStage::Waiting;

    let worker = state.take("fn").unwrap();
    assert_eq!(worker.exitter(stage), (ExitStage::Waiting, ExitAction::AwaitExit));
    state.put(worker);

    assert!(state.stop_worker("fn"));
    let mut worker = state.take("fn").unwrap();
    assert!(worker.exit.burnt());

    let (next, action) = worker.exitter(stage);
    assert_eq!(action, ExitAction::CloseResponses);
    stage = next;
    let (next, action) = worker.exitter(stage);
    assert_eq!(action, ExitAction::AwaitOrders);
    assert_eq!(next, ExitStage::Draining);

    let mut pending: Vec<Request> = Vec::new();
    if let OrderAction::Send(request) = first.run(OrderEvent::Exited { code: 0 }) {
        pending.push(request);
    }
    worker.finished();
    assert_eq!(worker.exitter(stage).1, ExitAction::AwaitOrders);
    if let OrderAction::Send(request) = second.run(OrderEvent::Exited { code: 1 }) {
        pending.push(request);
    }
    worker.finished();
    assert_eq!(worker.current_load, 0);

    for request in pending {
        wire.extend(worker.writer(&mut sent_cant, Some(request)));
    }

    let (next, action) = worker.exitter(stage);
    assert_eq!(action, ExitAction::CloseRequests);
    assert_eq!(next, ExitStage::Done);
    assert_eq!(worker.exitter(next), (ExitStage::Done, ExitAction::Finished));
    wire.extend(worker.writer(&mut sent_cant, None));

    let complete = Request::WorkComplete { handle: b"H1".to_vec(), data: Vec::new() };
    let exception = Request::WorkException {
        handle: b"H2".to_vec(),
        data: br#"{"error":"order process exited with code=1"}"#.to_vec(),
    };
    assert_eq!(wire.iter().filter(|r| **r == cant_do("fn")).count(), 1);
    assert_eq!(wire.iter().filter(|r| **r == complete).count(), 1);
    assert_eq!(wire.iter().filter(|r| **r == exception).count(), 1);
    assert_eq!(wire, vec![cant_do("fn"), complete, exception]);
    assert!(worker.writer(&mut sent_cant, None).is_empty());
}

#[test]
fn the_withdrawal_goes_before_the_first_request_after_the_burn() {
    let mut worker = worker("fn", 2);
    let mut sent_cant = false;
    let mut wire: Vec<Request> = Vec::new();
    wire.extend(worker.writer(&mut sent_cant, Some(Request::PreSleep)));
    assert!(!sent_cant);
    worker.exit.burn();
    wire.extend(worker.writer(
        &mut sent_cant,
        Some(Request::WorkComplete { handle: b"H1".to_vec(), data: Vec::new() }),
    ));
    assert!(sent_cant);
    wire.extend(worker.writer(&mut sent_cant, Some(Request::GrabJobUniq)));
    wire.extend(worker.writer(&mut sent_cant, None));
    assert_eq!(
        wire,
        vec![
            Request::PreSleep,
            cant_do("fn"),
            Request::WorkComplete { handle: b"H1".to_vec(), data: Vec::new() },
            Request::GrabJobUniq,
        ]
    );
    assert_eq!(wire.iter().filter(|r| **r == cant_do("fn")).count(), 1);
}

#[test]
fn a_writer_without_requests_still_withdraws() {
    let worker = worker("Test::sleep", 2);
    let mut sent_cant = false;
    assert_eq!(worker.writer(&mut sent_cant, None), vec![cant_do("Test::sleep")]);
    assert!(sent_cant);
    assert_eq!(worker.writer(&mut sent_cant, None), Vec::<Request>::new());
}

#[test]
fn jobs_for_another_function_are_not_taken_on() {
    let mut worker = worker("fn", 2);
    assert!(matches!(worker.assignee(job("H1", b"other")), Assignment::WrongFunction));
    assert!(matches!(worker.assignee(job("H1", b"fn2")), Assignment::WrongFunction));
    assert!(matches!(worker.assignee(job("H1", b"f")), Assignment::WrongFunction));
    assert!(matches!(worker.assignee(job("H1", b"")), Assignment::WrongFunction));
    assert!(matches!(worker.assignee(job("H1", b"fn\0\0")), Assignment::WrongFunction));
    assert!(matches!(worker.assignee(job("H1", b"\xff\xfe")), Assignment::WrongFunction));
    assert_eq!(worker.current_load, 0);
    assert!(solicit(worker.assignee(job("H1", b"fn\0"))));
    assert_eq!(worker.current_load, 1);
    assert!(worker.serves(&b"fn".to_vec()));
    assert!(worker.serves(&b"fn\0".to_vec()));
    assert!(!worker.serves(&b"\0".to_vec()));
}

#[test]
fn other_responses_are_unexpected() {
    let mut worker = worker("fn", 2);
    assert!(matches!(worker.assignee(Response::Noop), Assignment::Unexpected));
    assert!(matches!(worker.assignee(Response::NoJob), Assignment::Unexpected));
    assert_eq!(worker.current_load, 0);
}

#[test]
fn the_load_stays_within_the_limit() {
    let mut worker = worker("fn", 2);
    assert!(solicit(worker.assignee(job("H1", b"fn"))));
    assert!(!solicit(worker.assignee(job("H2", b"fn"))));
    match worker.assignee(job("H3", b"fn")) {
        Assignment::Overloaded { handle } => {
            assert_eq!(handle, b"H3");
            assert_eq!(decline(handle), Request::WorkFail { handle: b"H3".to_vec() });
        }
        other => panic!("not refused: {:?}", other),
    }
    assert_eq!(worker.current_load, 2);
    assert!(worker.finished());
    assert_eq!(worker.current_load, 1);
    assert!(worker.finished());
    assert_eq!(worker.current_load, 0);
    assert!(worker.finished());
    assert_eq!(worker.current_load, 0);
    let mut idle = Worker { concurrency: 0, ..worker };
    assert!(matches!(
        idle.assignee(job("H4", b"fn")),
        Assignment::Overloaded { handle } if handle == b"H4"
    ));
    assert!(!idle.finished());
}

#[test]
fn any_interleaving_ends_idle() {
    let mut worker = worker("fn", 3);
    let steps = [true, true, false, true, true, true, false, false, true, false, false, false];
    let mut in_flight = 0;
    for (i, assign) in steps.iter().enumerate() {
        if *assign {
            let handle = format!("H{}", i);
            if let Assignment::Accepted { .. } = worker.assignee(job(&handle, b"fn")) {
                in_flight += 1;
            }
        } else if in_flight > 0 {
            worker.finished();
            in_flight -= 1;
        }
        assert!(worker.current_load <= worker.concurrency);
        assert_eq!(worker.current_load, in_flight);
    }
    while in_flight > 0 {
        worker.finished();
        in_flight -= 1;
    }
    assert_eq!(worker.current_load, 0);
}

#[test]
fn the_handshake() {
    let mut worker = worker("Test::sleep", 2);
    assert_eq!(worker.client_id, "superman::v0.1.0::host::Test::sleep=2");
    let expected = vec![
        Request::SetClientId { id: b"superman::v0.1.0::host::Test::sleep=2".to_vec() },
        Request::CanDo { name: b"Test::sleep".to_vec() },
        Request::PreSleep,
    ];
    assert_eq!(worker.handshake(), expected);
    match worker.run(RunEvent::Connected) {
        RunAction::Greet { requests } => assert_eq!(requests, expected),
        other => panic!("no greeting: {:?}", other),
    }
}

#[test]
fn the_supervisor_unwinds_after_an_unexpected_failure() {
    let mut worker = worker("fn", 2);
    assert!(matches!(worker.run(RunEvent::Joined { failed: false }), RunAction::Stopped));
    assert!(!worker.exit.burnt());
    assert!(matches!(worker.run(RunEvent::Joined { failed: true }), RunAction::Unwind));
    assert!(worker.exit.burnt());
    assert!(matches!(worker.run(RunEvent::Joined { failed: true }), RunAction::Stopped));
    assert!(matches!(worker.run(RunEvent::Joined { failed: false }), RunAction::Stopped));
}

#[test]
fn the_reader_routes_frames() {
    let mut worker = worker("fn", 1);
    let mut buffer: Vec<u8> = Vec::new();
    assert!(matches!(worker.reader(&mut buffer), Read::Wait));

    buffer.extend(frame_of(Response::Noop));
    buffer.extend(frame_of(Response::NoJob));
    buffer.extend(frame_of(job("H1", b"fn")));
    buffer.extend(frame_of(Response::Noop));
    match worker.reader(&mut buffer) {
        Read::Enqueue(request) => assert_eq!(request, Request::GrabJobUniq),
        other => panic!("not enqueued: {:?}", other),
    }
    assert!(matches!(worker.reader(&mut buffer), Read::Ignored));
    match worker.reader(&mut buffer) {
        Read::Forward(response) => {
            assert_eq!(response, job("H1", b"fn"));
            worker.assignee(response);
        }
        other => panic!("not forwarded: {:?}", other),
    }
    assert_eq!(worker.current_load, 1);
    assert!(matches!(worker.reader(&mut buffer), Read::Ignored));
    assert!(buffer.is_empty());
    assert!(matches!(worker.reader(&mut buffer), Read::Wait));
}

#[test]
fn the_reader_passes_over_what_it_does_not_know() {
    let worker = worker("fn", 1);
    let mut buffer: Vec<u8> = Vec::new();
    buffer.extend(b"\0RES");
    buffer.extend(19_u32.to_be_bytes());
    buffer.extend(3_u32.to_be_bytes());
    buffer.extend(b"err");
    buffer.extend(Packet::request(Request::PreSleep).unwrap().to_bytes().unwrap());
    let reads = worker.drain(&mut buffer);
    assert_eq!(reads.len(), 2);
    assert!(matches!(reads[0], Read::Ignored));
    assert!(matches!(reads[1], Read::Ignored));
    assert!(buffer.is_empty());
}

#[test]
fn frames_may_arrive_in_pieces() {
    let worker = worker("fn", 2);
    let mut stream = frame_of(job("H1", b"fn"));
    stream.extend(frame_of(Response::Noop));
    stream.extend(frame_of(job("H2", b"fn")));
    for cut in 0..=stream.len() {
        let mut buffer: Vec<u8> = Vec::new();
        let mut reads = worker.received(&mut buffer, &stream[..cut]);
        reads.extend(worker.received(&mut buffer, &stream[cut..]));
        assert!(buffer.is_empty());
        assert_eq!(reads.len(), 3, "cut at {}", cut);
        assert!(matches!(&reads[0], Read::Forward(r) if *r == job("H1", b"fn")));
        assert!(matches!(&reads[1], Read::Enqueue(Request::GrabJobUniq)));
        assert!(matches!(&reads[2], Read::Forward(r) if *r == job("H2", b"fn")));
    }
    let mut buffer: Vec<u8> = Vec::new();
    let mut count = 0;
    for byte in &stream {
        count += worker.received(&mut buffer, &[*byte]).len();
    }
    assert_eq!(count, 3);
}

#[test]
fn garbage_is_thrown_away_and_later_frames_come_through() {
    let worker = worker("fn", 2);
    let mut buffer: Vec<u8> = Vec::new();
    let garbage = b"HTTP/1.1 400 Bad Request\r\n".to_vec();
    let reads = worker.received(&mut buffer, &garbage);
    assert_eq!(reads.len(), 1);
    assert!(matches!(reads[0], Read::Discarded { bytes } if bytes == garbage.len()));
    assert!(buffer.is_empty());

    let mut frames = frame_of(job("H1", b"fn"));
    frames.extend(frame_of(job("H2", b"fn")));
    let reads = worker.received(&mut buffer, &frames);
    assert_eq!(reads.len(), 2);
    assert!(matches!(&reads[0], Read::Forward(r) if *r == job("H1", b"fn")));
    assert!(matches!(&reads[1], Read::Forward(r) if *r == job("H2", b"fn")));
    assert!(buffer.is_empty());
}

#[test]
fn what_arrives_with_garbage_goes_with_it() {
    let worker = worker("fn", 2);
    let mut buffer: Vec<u8> = Vec::new();
    let mut bytes = b"garbage!".to_vec();
    bytes.extend(frame_of(Response::Noop));
    let reads = worker.received(&mut buffer, &bytes);
    assert_eq!(reads.len(), 1);
    assert!(matches!(reads[0], Read::Discarded { bytes: 20 }));
    assert!(buffer.is_empty());

    let mut bytes = frame_of(Response::Noop);
    bytes.extend(b"garbage!");
    let reads = worker.received(&mut buffer, &bytes);
    assert_eq!(reads.len(), 2);
    assert!(matches!(reads[0], Read::Enqueue(Request::GrabJobUniq)));
    assert!(matches!(reads[1], Read::Discarded { bytes: 8 }));
}

#[test]
fn a_busy_worker_does_not_grab() {
    let mut worker = worker("fn", 1);
    worker.assignee(job("H1", b"fn"));
    let mut buffer = frame_of(Response::Noop);
    assert!(matches!(worker.reader(&mut buffer), Read::Ignored));
    worker.finished();
    let mut buffer = frame_of(Response::Noop);
    assert!(matches!(worker.reader(&mut buffer), Read::Enqueue(Request::GrabJobUniq)));
}

#[test]
fn the_engine_registers_and_stops_workers() {
    let mut state = State::create("superman", "1.2.3", "box");
    assert_eq!(state.base_id, "superman::v1.2.3::box");
    assert!(!state.wait());
    assert!(!state.stop_worker("fn"));
    assert!(state.take("fn").is_none());

    state.start_worker("fn", "/bin/run", 10, Timeout::new(3, 7).unwrap());
    state.start_worker("other", "/bin/other", 18446744073709551615, Timeout::from_secs(0));
    let other = state.take("other").unwrap();
    assert_eq!(other.client_id, "superman::v1.2.3::box::other=18446744073709551615");
    state.put(other);

    assert!(state.stop_worker("fn"));
    assert!(state.stop_worker("fn"));
    let stopped = state.take("fn").unwrap();
    assert_eq!(stopped.name, "fn");
    assert_eq!(stopped.executor, "/bin/run");
    assert_eq!(stopped.concurrency, 10);
    assert_eq!(stopped.timeout, Timeout::new(3, 7).unwrap());
    assert_eq!(stopped.client_id, "superman::v1.2.3::box::fn=10");
    assert_eq!(stopped.current_load, 0);
    assert!(stopped.exit.burnt());
    assert!(state.take("fn").is_none());
    assert!(!state.take("other").unwrap().exit.burnt());

    state.running.burn();
    assert!(state.wait());
}

#[test]
fn starting_a_worker_again_replaces_it() {
    let mut state = State::create("superman", "1", "h");
    state.start_worker("fn", "/bin/run", 1, Timeout::from_secs(1));
    state.stop_worker("fn");
    state.start_worker("fn", "/bin/other", 2, Timeout::from_secs(1));
    let worker = state.take("fn").unwrap();
    assert!(!worker.exit.burnt());
    assert_eq!(worker.executor, "/bin/other");
    assert_eq!(worker.client_id, "superman::v1::h::fn=2");
}

#[test]
fn timeouts() {
    assert_eq!(Some(Timeout::from_secs(5)), Timeout::new(5, 0));
    assert_eq!(Timeout::from_secs(5).secs(), 5);
    assert_eq!(Timeout::from_secs(5).nanos(), 0);
    let timeout = Timeout::new(1, 999_999_999).unwrap();
    assert_eq!(timeout.secs(), 1);
    assert_eq!(timeout.nanos(), 999_999_999);
    assert_eq!(Timeout::new(1, 1_000_000_000), None);
    assert_eq!(Timeout::new(u64::MAX, u32::MAX), None);
}
