use arcane_swarm::command_dispatcher::DispatchError;
use arcane_swarm::http_api::{content_length, refusal_response, route_request, HttpRoute, SubmitRefusal};

#[test]
fn requests_are_routed_by_method_and_path() {
    assert_eq!(route_request("GET /telemetry/stream HTTP/1.1"), HttpRoute::TelemetryStream);
    assert_eq!(route_request("POST /commands/submit HTTP/1.1"), HttpRoute::SubmitCommand);
    assert_eq!(route_request("GET /commands/submit HTTP/1.1"), HttpRoute::NotFound);
    assert_eq!(route_request(""), HttpRoute::NotFound);
}

#[test]
fn refused_submissions_get_status_and_reason() {
    let (status, body) = refusal_response(SubmitRefusal::Dispatch(DispatchError::NoActiveDrivers));
    assert_eq!(status, 400);
    assert!(body.contains("no_active_drivers"));
    let (status, _) = refusal_response(SubmitRefusal::NoDispatcher);
    assert_eq!(status, 503);
    let (status, body) = refusal_response(SubmitRefusal::BadRequest);
    assert_eq!((status, body.as_str()), (400, r#"{"error":"bad_request"}"#));
}

#[test]
fn body_length_comes_from_the_content_length_header() {
    let head = "POST /commands/submit HTTP/1.1\r\nHost: x\r\nContent-Type: application/json\r\nContent-Length: 57\r\nConnection: close\r\n\r\n";
    assert_eq!(content_length(head), 57);
    assert_eq!(content_length("POST / HTTP/1.1\r\ncontent-length:12\r\n\r\n"), 12);
    assert_eq!(content_length("POST / HTTP/1.1\r\n  CONTENT-LENGTH :  7  \r\n\r\n"), 7);
    // Absent, or not a number: no body.
    assert_eq!(content_length("GET /telemetry/stream HTTP/1.1\r\n\r\n"), 0);
    assert_eq!(content_length("POST / HTTP/1.1\r\nContent-Length: ten\r\n\r\n"), 0);
    // The first line that declares a usable length wins.
    assert_eq!(content_length("POST / HTTP/1.1\r\nContent-Length: x\r\nContent-Length: 3\r\nContent-Length: 4\r\n"), 3);
}
