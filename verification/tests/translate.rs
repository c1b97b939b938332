use hibernatx_backend::client_request::{decode_request, Request};
use hibernatx_backend::client_response::encode_response;
use hibernatx_backend::gateway::{
    book_pc_response, get_address, get_status_response, NodeOutcome,
};
use hibernatx_backend::json_error::JsonError;
use hibernatx_backend::tcp_request::{encode_command, Get, TCPRequest};

fn book(room: &str, pc: &str, outcome: NodeOutcome) -> String {
    match book_pc_response(room.to_string(), &pc.to_string(), &outcome) {
        Ok(resp) => encode_response(&resp),
        Err(e) => panic!("booking unexpectedly failed: {}", e.to_string()),
    }
}

#[test]
fn decode_get_status_request() {
    match decode_request("{\"command\":\"PCPGetStatus\",\"room\":\"room1\"}") {
        Some(Request::PCPGetStatus(g)) => assert_eq!(g.room, "room1"),
        _ => panic!("status request not recognized"),
    }
}

#[test]
fn decode_book_pc_request() {
    match decode_request("{\"room\":\"r\",\"command\":\"PCPBookPC\",\"pc\":\"p\"}") {
        Some(Request::PCPBookPC(b)) => {
            assert_eq!(b.room, "r");
            assert_eq!(b.pc, "p");
        }
        _ => panic!("booking request not recognized, field order should not matter"),
    }
}

#[test]
fn decode_request_rejects_malformed_and_unknown() {
    assert!(decode_request("{not json").is_none());
    assert!(decode_request("{\"command\":\"PCPShutdown\",\"room\":\"r\"}").is_none());
    assert!(decode_request("{\"command\":\"PCPBookPC\",\"room\":\"r\"}").is_none());
    assert!(decode_request("{\"command\":\"PCPGetStatus\"}").is_none());
}

#[test]
fn error_envelope_is_json() {
    let e = JsonError::new("expected value at line 1");
    assert_eq!(e.to_json_text(), "{\"error\":\"expected value at line 1\"}");
}

#[test]
fn status_scenario_full_round() {
    // The client asks for room1; the address table knows it; the node
    // answers with one machine that is off.
    let req = match decode_request("{\"command\":\"PCPGetStatus\",\"room\":\"room1\"}") {
        Some(Request::PCPGetStatus(g)) => g,
        _ => panic!("request not recognized"),
    };
    let table = "{\"room1\":\"127.0.0.1:9001\"}";
    let addr = get_address(&req.room, table).expect("room1 should resolve");
    assert_eq!(addr, "127.0.0.1:9001");
    let command = TCPRequest::Get(Get { nodes: "*".to_string() });
    assert_eq!(
        encode_command(&command),
        "{\"action_type\":\"get\",\"nodes\":\"*\"}"
    );
    let reply = "{\"device_id\":\"room1\",\"nodes\":{\"pcA\":\"off\"}}".to_string();
    let resp = get_status_response(req.room, &NodeOutcome::Replied(reply))
        .expect("a node list answers the request");
    assert_eq!(
        encode_response(&resp),
        "{\"command\":\"PCPReturnStatus\",\"room\":\"room1\",\"result\":\"success\",\"status\":{\"pcA\":\"off\"}}"
    );
}

#[test]
fn booking_scenario_already_on() {
    // Same setup; the node reports the machine was already on.
    let req = match decode_request("{\"command\":\"PCPBookPC\",\"room\":\"room1\",\"pc\":\"pcA\"}") {
        Some(Request::PCPBookPC(b)) => b,
        _ => panic!("request not recognized"),
    };
    let table = "{\"room1\":\"127.0.0.1:9001\"}";
    get_address(&req.room, table).expect("room1 should resolve");
    let reply = "{\"device_id\":\"room1\",\"nodes\":{\"pcA\":\"already_on\"}}".to_string();
    let resp = book_pc_response(req.room, &req.pc, &NodeOutcome::Replied(reply))
        .expect("a node list answers the request");
    assert_eq!(
        encode_response(&resp),
        "{\"command\":\"PCPBookResult\",\"room\":\"room1\",\"result\":\"already_booked\"}"
    );
}

#[test]
fn booking_verdicts_cover_all_four_cases() {
    let on = "{\"device_id\":\"r\",\"nodes\":{\"pcA\":\"on\"}}";
    let off = "{\"device_id\":\"r\",\"nodes\":{\"pcA\":\"off\"}}";
    let already = "{\"device_id\":\"r\",\"nodes\":{\"pcA\":\"already_on\"}}";
    let other = "{\"device_id\":\"r\",\"nodes\":{\"pcA\":\"rebooting\"}}";
    let absent = "{\"device_id\":\"r\",\"nodes\":{\"pcB\":\"on\"}}";
    for (reply, result) in [
        (on, "success"),
        (off, "node_error"),
        (already, "already_booked"),
        (other, "not_found"),
        (absent, "not_found"),
    ] {
        let body = book("r", "pcA", NodeOutcome::Replied(reply.to_string()));
        assert_eq!(
            body,
            format!("{{\"command\":\"PCPBookResult\",\"room\":\"r\",\"result\":\"{}\"}}", result)
        );
    }
}

#[test]
fn booking_status_reply_means_not_found() {
    let body = book(
        "r",
        "pcA",
        NodeOutcome::Replied("{\"device_id\":\"dev\",\"status\":\"denied\"}".to_string()),
    );
    assert_eq!(
        body,
        "{\"command\":\"PCPBookResult\",\"room\":\"dev\",\"result\":\"not_found\"}"
    );
}

#[test]
fn missing_room_answers_not_found() {
    let resp = get_status_response("ghost".to_string(), &NodeOutcome::AddressMissing)
        .expect("a missing room is a result, not an error");
    assert_eq!(
        encode_response(&resp),
        "{\"command\":\"PCPReturnStatus\",\"room\":\"ghost\",\"result\":\"not_found\",\"status\":{}}"
    );
    let body = book("ghost", "pcA", NodeOutcome::AddressMissing);
    assert_eq!(
        body,
        "{\"command\":\"PCPBookResult\",\"room\":\"ghost\",\"result\":\"not_found\"}"
    );
}

#[test]
fn transport_failure_answers_communication_failed() {
    let resp = get_status_response("room1".to_string(), &NodeOutcome::ExchangeFailed)
        .expect("a failed exchange is a result, not an error");
    assert_eq!(
        encode_response(&resp),
        "{\"command\":\"PCPReturnStatus\",\"room\":\"room1\",\"result\":\"node_communication_failed\",\"status\":{}}"
    );
    let body = book("room1", "pcA", NodeOutcome::ExchangeFailed);
    assert_eq!(
        body,
        "{\"command\":\"PCPBookResult\",\"room\":\"room1\",\"result\":\"node_communication_failed\"}"
    );
}

#[test]
fn status_reply_to_get_status_is_an_error() {
    match get_status_response(
        "room1".to_string(),
        &NodeOutcome::Replied("{\"device_id\":\"room1\",\"status\":\"busy\"}".to_string()),
    ) {
        Err(e) => assert_eq!(e.to_string(), "busy"),
        Ok(_) => panic!("a status reply means the node declined to answer"),
    }
}

#[test]
fn malformed_reply_is_an_error() {
    match get_status_response(
        "room1".to_string(),
        &NodeOutcome::Replied("{broken".to_string()),
    ) {
        Err(e) => assert_eq!(e.to_string(), "invalid JSON in node reply"),
        Ok(_) => panic!("a malformed reply must not pass"),
    }
}

#[test]
fn get_address_outcomes() {
    let table = "{\"room1\":\"10.0.0.1:9\",\"room1\":\"10.0.0.2:9\",\"room2\":\"10.0.0.3:9\"}";
    assert_eq!(get_address("room1", table).unwrap(), "10.0.0.2:9");
    assert_eq!(get_address("room2", table).unwrap(), "10.0.0.3:9");
    match get_address("room3", table) {
        Err(e) => assert_eq!(e.to_string(), "Room not found in address lookup table"),
        Ok(_) => panic!("an absent room must not resolve"),
    }
    match get_address("room1", "{oops") {
        Err(e) => assert_eq!(e.to_string(), "invalid JSON in address table"),
        Ok(_) => panic!("a malformed table must not resolve"),
    }
    match get_address("room1", "{\"room1\":{}}") {
        Err(e) => assert_eq!(e.to_string(), "invalid address table entry"),
        Ok(_) => panic!("a non-string entry must not resolve"),
    }
}
