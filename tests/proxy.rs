use hyprlance::proxy::{
    accept_step, connect_failure, connect_reply, plan_connection, read_outcome, relay_step,
    route_of, tunnel_result, AcceptAction, AcceptOutcome, ConnectOutcome, ProxyError,
    ReadOutcome, RelayAction, Reply, Route, WorkerRegistry, BUFFER_SIZE, PROXY_URL,
};

#[test]
fn connect_request_routes_to_its_target() {
    let r = route_of("CONNECT example.com:443 HTTP/1.1\r\nHost: example.com:443\r\n\r\n");
    assert_eq!(r, Route::Connect("example.com:443".to_string()));
}

#[test]
fn connect_without_target_is_invalid() {
    assert_eq!(route_of("CONNECT\r\n\r\n"), Route::MissingTarget);
}

#[test]
fn non_connect_requests_are_rejected() {
    assert_eq!(route_of("GET http://a/ HTTP/1.1\r\n\r\n"), Route::Reject);
    assert_eq!(route_of("POST /x HTTP/1.1\r\n\r\n"), Route::Reject);
    assert_eq!(route_of(""), Route::Reject);
    assert_eq!(route_of("connect a:1 HTTP/1.1"), Route::Reject);
}

#[test]
fn plan_always_carries_the_observation() {
    let p = plan_connection(b"GET /p HTTP/1.1\r\nCookie: s=1\r\n\r\n");
    assert_eq!(p.observation.method, "GET");
    assert_eq!(p.observation.cookies, vec!["s=1".to_string()]);
    assert_eq!(p.route, Route::Reject);
    let q = plan_connection(b"CONNECT h:1 HTTP/1.1\r\n\r\n");
    assert_eq!(q.observation.method, "CONNECT");
    assert_eq!(q.route, Route::Connect("h:1".to_string()));
}

#[test]
fn wire_replies_are_exact() {
    assert_eq!(Reply::Established.text(), "HTTP/1.1 200 Connection established\r\n\r\n");
    assert_eq!(Reply::BadGateway.text(), "HTTP/1.1 502 Bad Gateway\r\n\r\n");
    assert_eq!(Reply::BadRequest.text(), "HTTP/1.1 400 Bad Request\r\n\r\n");
}

#[test]
fn failed_connect_gets_bad_gateway() {
    assert_eq!(connect_reply(ConnectOutcome::Connected), Reply::Established);
    assert_eq!(connect_reply(ConnectOutcome::Unresolved), Reply::BadGateway);
    assert_eq!(connect_reply(ConnectOutcome::Unreachable), Reply::BadGateway);
    assert_eq!(connect_failure(ConnectOutcome::Unreachable), Err(ProxyError::OriginUnreachable));
}

#[test]
fn relay_reacts_to_each_read() {
    assert_eq!(relay_step(read_outcome(17)), RelayAction::Forward(17));
    assert_eq!(relay_step(read_outcome(BUFFER_SIZE)), RelayAction::Forward(4096));
    assert_eq!(relay_step(read_outcome(0)), RelayAction::Finish);
    assert_eq!(relay_step(ReadOutcome::TimedOut), RelayAction::Retry);
    assert_eq!(relay_step(ReadOutcome::Failed), RelayAction::Abort);
}

#[test]
fn tunnel_fails_if_either_direction_fails() {
    assert_eq!(tunnel_result(true, true), Ok(()));
    assert_eq!(tunnel_result(false, true), Err(ProxyError::RelayFailed));
    assert_eq!(tunnel_result(true, false), Err(ProxyError::RelayFailed));
}

#[test]
fn accept_loop_stops_when_flag_is_down() {
    assert_eq!(accept_step(false, AcceptOutcome::Accepted), AcceptAction::Stop);
    assert_eq!(accept_step(true, AcceptOutcome::Accepted), AcceptAction::Spawn);
    assert_eq!(accept_step(true, AcceptOutcome::WouldBlock), AcceptAction::Sleep);
    assert_eq!(accept_step(true, AcceptOutcome::Failed), AcceptAction::Skip);
}

#[test]
fn proxy_url_is_local() {
    assert_eq!(PROXY_URL, "http://127.0.0.1:8080");
}

#[test]
fn plan_decodes_invalid_bytes_lossily() {
    let p = plan_connection(&[0x43, 0x4f, 0x4e, 0x4e, 0x45, 0x43, 0x54, 0x20, 0xff, 0x3a, 0x31]);
    assert_eq!(p.observation.url, "\u{fffd}:1");
    assert_eq!(p.route, Route::Connect("\u{fffd}:1".to_string()));
}

#[test]
fn registry_drains_every_recorded_worker() {
    let mut r: WorkerRegistry<u32> = WorkerRegistry::new();
    assert_eq!(r.len(), 0);
    r.record(3);
    r.record(1);
    r.record(2);
    assert_eq!(r.len(), 3);
    assert_eq!(r.drain(), vec![3, 1, 2]);
    assert_eq!(r.len(), 0);
    assert!(r.drain().is_empty());
}
