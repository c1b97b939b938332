use hibernatx_backend::gateway::classify_admin_reply;
use hibernatx_backend::tcp_return::{decode_reply, decode_status, TCPReturn};

#[test]
fn decode_node_list_reply() {
    let line = "{\"device_id\":\"room1\",\"nodes\":{\"pcA\":\"off\"}}";
    match decode_reply(line) {
        Some(TCPReturn::NodeList(nl)) => {
            assert_eq!(nl.device_id, "room1");
            assert_eq!(nl.nodes, vec![("pcA".to_string(), "off".to_string())]);
        }
        _ => panic!("node list reply not recognized"),
    }
}

#[test]
fn decode_status_reply() {
    let line = "{\"device_id\":\"room1\",\"status\":\"busy\"}";
    match decode_reply(line) {
        Some(TCPReturn::Status(st)) => {
            assert_eq!(st.device_id, "room1");
            assert_eq!(st.status, "busy");
        }
        _ => panic!("status reply not recognized"),
    }
}

#[test]
fn node_list_shape_wins_over_status() {
    let line = "{\"device_id\":\"d\",\"nodes\":{},\"status\":\"ok\"}";
    match decode_reply(line) {
        Some(TCPReturn::NodeList(nl)) => {
            assert_eq!(nl.device_id, "d");
            assert_eq!(nl.nodes.len(), 0);
        }
        _ => panic!("ambiguous reply should read as a node list first"),
    }
}

#[test]
fn decode_reply_tolerates_whitespace_and_newline() {
    let line = " { \"device_id\" : \"r\" ,\t\"nodes\" : { \"a\" : \"on\" } }\n";
    match decode_reply(line) {
        Some(TCPReturn::NodeList(nl)) => {
            assert_eq!(nl.device_id, "r");
            assert_eq!(nl.nodes, vec![("a".to_string(), "on".to_string())]);
        }
        _ => panic!("whitespace around tokens should be accepted"),
    }
}

#[test]
fn decode_reply_reads_repeated_fields_last_wins() {
    let line = "{\"device_id\":\"first\",\"device_id\":\"second\",\"nodes\":{}}";
    match decode_reply(line) {
        Some(TCPReturn::NodeList(nl)) => assert_eq!(nl.device_id, "second"),
        _ => panic!("repeated field should read last-one-wins"),
    }
}

#[test]
fn decode_reply_rejects_malformed() {
    assert!(decode_reply("{not json").is_none());
    assert!(decode_reply("").is_none());
    assert!(decode_reply("{\"device_id\":\"d\"}").is_none());
    assert!(decode_reply("{\"nodes\":{}}").is_none());
    assert!(decode_reply("{\"device_id\":{},\"nodes\":{}}").is_none());
}

#[test]
fn decode_reply_unescapes_strings() {
    let line = "{\"device_id\":\"a\\\"b\\\\c\\u0041\",\"status\":\"s\\nt\"}";
    match decode_reply(line) {
        Some(TCPReturn::Status(st)) => {
            assert_eq!(st.device_id, "a\"b\\cA");
            assert_eq!(st.status, "s\nt");
        }
        _ => panic!("escaped reply not recognized"),
    }
}

#[test]
fn decode_status_ignores_other_fields() {
    let line = "{\"device_id\":\"d\",\"nodes\":{},\"status\":\"ok\"}";
    match decode_status(line) {
        Some(st) => {
            assert_eq!(st.device_id, "d");
            assert_eq!(st.status, "ok");
        }
        None => panic!("status fields should be read whatever stands beside them"),
    }
}

#[test]
fn admin_reply_ok_is_success() {
    assert!(classify_admin_reply("{\"device_id\":\"d\",\"status\":\"ok\"}").is_ok());
}

#[test]
fn admin_reply_error_is_surfaced_verbatim() {
    match classify_admin_reply("{\"device_id\":\"d\",\"status\":\"no such node\"}") {
        Err(e) => assert_eq!(e.to_string(), "no such node"),
        Ok(()) => panic!("a status other than ok is an error"),
    }
}

#[test]
fn admin_reply_malformed_is_error() {
    match classify_admin_reply("{oops") {
        Err(e) => assert_eq!(e.to_string(), "invalid JSON in node reply"),
        Ok(()) => panic!("malformed reply must not pass"),
    }
}

#[test]
fn decode_reply_reads_unicode_escapes() {
    let line = "{\"device_id\":\"caf\\u00e9\",\"status\":\"\\u2603\"}";
    match decode_reply(line) {
        Some(TCPReturn::Status(st)) => {
            assert_eq!(st.device_id, "café");
            assert_eq!(st.status, "☃");
        }
        _ => panic!("unicode escapes not decoded"),
    }
}

#[test]
fn decode_reply_rejects_surrogate_escape() {
    assert!(decode_reply("{\"device_id\":\"\\ud800\",\"status\":\"x\"}").is_none());
}

#[test]
fn decode_reply_rejects_raw_control_character() {
    assert!(decode_reply("{\"device_id\":\"a\nb\",\"status\":\"x\"}").is_none());
}

#[test]
fn decode_reply_rejects_truncated_escape() {
    assert!(decode_reply("{\"device_id\":\"a\\").is_none());
    assert!(decode_reply("{\"device_id\":\"\\u00\"}").is_none());
}
