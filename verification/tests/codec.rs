use hibernatx_backend::tcp_request::{
    decode_command, encode_command, AddNode, Get, RemoveNode, SetNodes, TCPRequest, UpdateNode,
};

fn get(pattern: &str) -> TCPRequest {
    TCPRequest::Get(Get { nodes: pattern.to_string() })
}

#[test]
fn encode_get_is_canonical() {
    let c = get("*");
    assert_eq!(encode_command(&c), "{\"action_type\":\"get\",\"nodes\":\"*\"}");
}

#[test]
fn encode_set_is_canonical() {
    let c = TCPRequest::SetNodes(SetNodes {
        nodes: vec![("pcA".to_string(), "on".to_string())],
    });
    assert_eq!(
        encode_command(&c),
        "{\"action_type\":\"set\",\"nodes\":{\"pcA\":\"on\"}}"
    );
}

#[test]
fn encode_set_many_pairs() {
    let c = TCPRequest::SetNodes(SetNodes {
        nodes: vec![
            ("a".to_string(), "on".to_string()),
            ("b".to_string(), "off".to_string()),
        ],
    });
    assert_eq!(
        encode_command(&c),
        "{\"action_type\":\"set\",\"nodes\":{\"a\":\"on\",\"b\":\"off\"}}"
    );
}

#[test]
fn encode_set_empty_map() {
    let c = TCPRequest::SetNodes(SetNodes { nodes: vec![] });
    assert_eq!(encode_command(&c), "{\"action_type\":\"set\",\"nodes\":{}}");
}

#[test]
fn encode_add_node_is_canonical() {
    let c = TCPRequest::AddNode(AddNode {
        node_id: "n1".to_string(),
        hostname: "host1".to_string(),
        mac_address: "aa:bb".to_string(),
    });
    assert_eq!(
        encode_command(&c),
        "{\"action_type\":\"add_node\",\"node_id\":\"n1\",\"hostname\":\"host1\",\"mac_address\":\"aa:bb\"}"
    );
}

#[test]
fn encode_escapes_quotes_and_controls() {
    let c = get("a\"b\\c\nd");
    assert_eq!(
        encode_command(&c),
        "{\"action_type\":\"get\",\"nodes\":\"a\\\"b\\\\c\\u000ad\"}"
    );
}

#[test]
fn round_trip_get() {
    let c = get("*");
    let text = encode_command(&c);
    match decode_command(&text) {
        Some(TCPRequest::Get(g)) => assert_eq!(g.nodes, "*"),
        _ => panic!("get command did not round trip"),
    }
}

#[test]
fn round_trip_get_with_escapes() {
    let c = get("we\"ird\\pat\ttern\u{1}");
    let text = encode_command(&c);
    match decode_command(&text) {
        Some(TCPRequest::Get(g)) => assert_eq!(g.nodes, "we\"ird\\pat\ttern\u{1}"),
        _ => panic!("escaped get command did not round trip"),
    }
}

#[test]
fn round_trip_set() {
    let c = TCPRequest::SetNodes(SetNodes {
        nodes: vec![
            ("pcA".to_string(), "on".to_string()),
            ("pcB".to_string(), "off".to_string()),
        ],
    });
    let text = encode_command(&c);
    match decode_command(&text) {
        Some(TCPRequest::SetNodes(s)) => {
            assert_eq!(s.nodes.len(), 2);
            assert_eq!(s.nodes[0], ("pcA".to_string(), "on".to_string()));
            assert_eq!(s.nodes[1], ("pcB".to_string(), "off".to_string()));
        }
        _ => panic!("set command did not round trip"),
    }
}

#[test]
fn round_trip_set_empty() {
    let c = TCPRequest::SetNodes(SetNodes { nodes: vec![] });
    let text = encode_command(&c);
    match decode_command(&text) {
        Some(TCPRequest::SetNodes(s)) => assert_eq!(s.nodes.len(), 0),
        _ => panic!("empty set command did not round trip"),
    }
}

#[test]
fn round_trip_add_update_remove() {
    let a = TCPRequest::AddNode(AddNode {
        node_id: "n1".to_string(),
        hostname: "h".to_string(),
        mac_address: "m".to_string(),
    });
    match decode_command(&encode_command(&a)) {
        Some(TCPRequest::AddNode(x)) => {
            assert_eq!(x.node_id, "n1");
            assert_eq!(x.hostname, "h");
            assert_eq!(x.mac_address, "m");
        }
        _ => panic!("add_node did not round trip"),
    }
    let u = TCPRequest::UpdateNode(UpdateNode {
        node_id: "n2".to_string(),
        hostname: "h2".to_string(),
        mac_address: "m2".to_string(),
    });
    match decode_command(&encode_command(&u)) {
        Some(TCPRequest::UpdateNode(x)) => {
            assert_eq!(x.node_id, "n2");
            assert_eq!(x.hostname, "h2");
            assert_eq!(x.mac_address, "m2");
        }
        _ => panic!("update_node did not round trip"),
    }
    let r = TCPRequest::RemoveNode(RemoveNode { node_id: "n3".to_string() });
    match decode_command(&encode_command(&r)) {
        Some(TCPRequest::RemoveNode(x)) => assert_eq!(x.node_id, "n3"),
        _ => panic!("remove_node did not round trip"),
    }
}

#[test]
fn decode_command_rejects_noise() {
    assert!(decode_command("{not json").is_none());
    assert!(decode_command("").is_none());
    assert!(decode_command("{\"action_type\":\"get\",\"nodes\":\"*\"} ").is_none());
    assert!(decode_command("{\"action_type\":\"boom\",\"nodes\":\"*\"}").is_none());
}

#[test]
fn round_trip_non_ascii() {
    let c = get("café–☃");
    let text = encode_command(&c);
    match decode_command(&text) {
        Some(TCPRequest::Get(g)) => assert_eq!(g.nodes, "café–☃"),
        _ => panic!("non-ascii pattern did not round trip"),
    }
}
