//! Outbound node commands and their wire form: a JSON object whose
//! `action_type` field names the command in lower snake case (`get`, `set`,
//! `add_node`, `update_node`, `remove_node`), written canonically (fields in
//! a fixed order, no whitespace). That casing is part of the node-protocol
//! contract. A symmetric decoder for the canonical form stands beside the
//! encoder, so the two can be held against each other.

use vstd::prelude::*;
use crate::json::{
    append_flat_object, append_json_string, at_closing_brace_end, lemma_parse_encoded_flat_object,
    lemma_parse_encoded_string, match_lit, pairs_model, parse_flat_object, parse_string,
    spec_encode_flat_object, spec_encode_string, spec_parse_flat_object, spec_parse_string,
    spec_starts_with, to_chars,
};

verus! {

/// `get`: ask for the power state of the nodes matching a pattern
/// (`"*"` stands for all of them).
pub struct Get {
    pub nodes: String,
}

/// `set`: ask that each named node be brought to the named power state.
pub struct SetNodes {
    pub nodes: Vec<(String, String)>,
}

/// `add_node`: register a node with the device.
pub struct AddNode {
    pub node_id: String,
    pub hostname: String,
    pub mac_address: String,
}

/// `update_node`: change a node's registration.
pub struct UpdateNode {
    pub node_id: String,
    pub hostname: String,
    pub mac_address: String,
}

/// `remove_node`: drop a node's registration.
pub struct RemoveNode {
    pub node_id: String,
}

/// A command sent to a node device, discriminated on the wire by the
/// `action_type` field.
pub enum TCPRequest {
    Get(Get),
    SetNodes(SetNodes),
    AddNode(AddNode),
    UpdateNode(UpdateNode),
    RemoveNode(RemoveNode),
}

/// Mathematical image of a `TCPRequest`.
#[allow(inconsistent_fields)]
pub enum CommandModel {
    Get { nodes: Seq<char> },
    SetNodes { nodes: Seq<(Seq<char>, Seq<char>)> },
    AddNode { node_id: Seq<char>, hostname: Seq<char>, mac_address: Seq<char> },
    UpdateNode { node_id: Seq<char>, hostname: Seq<char>, mac_address: Seq<char> },
    RemoveNode { node_id: Seq<char> },
}

impl View for TCPRequest {
    type V = CommandModel;

    open spec fn view(&self) -> CommandModel {
        match self {
            TCPRequest::Get(g) => CommandModel::Get { nodes: g.nodes@ },
            TCPRequest::SetNodes(t) => CommandModel::SetNodes { nodes: pairs_model(t.nodes@) },
            TCPRequest::AddNode(a) => CommandModel::AddNode {
                node_id: a.node_id@,
                hostname: a.hostname@,
                mac_address: a.mac_address@,
            },
            TCPRequest::UpdateNode(u) => CommandModel::UpdateNode {
                node_id: u.node_id@,
                hostname: u.hostname@,
                mac_address: u.mac_address@,
            },
            TCPRequest::RemoveNode(d) => CommandModel::RemoveNode { node_id: d.node_id@ },
        }
    }
}

pub open spec fn lit_get_prefix() -> Seq<char> {
    "{\"action_type\":\"get\",\"nodes\":"@
}

pub open spec fn lit_set_prefix() -> Seq<char> {
    "{\"action_type\":\"set\",\"nodes\":"@
}

pub open spec fn lit_add_prefix() -> Seq<char> {
    "{\"action_type\":\"add_node\",\"node_id\":"@
}

pub open spec fn lit_update_prefix() -> Seq<char> {
    "{\"action_type\":\"update_node\",\"node_id\":"@
}

pub open spec fn lit_remove_prefix() -> Seq<char> {
    "{\"action_type\":\"remove_node\",\"node_id\":"@
}

pub open spec fn lit_hostname() -> Seq<char> {
    ",\"hostname\":"@
}

pub open spec fn lit_mac() -> Seq<char> {
    ",\"mac_address\":"@
}

pub open spec fn lit_close() -> Seq<char> {
    "}"@
}

/// The canonical wire text of a command.
pub open spec fn spec_encode_command(m: CommandModel) -> Seq<char> {
    match m {
        CommandModel::Get { nodes } => lit_get_prefix() + spec_encode_string(nodes) + lit_close(),
        CommandModel::SetNodes { nodes } => lit_set_prefix() + spec_encode_flat_object(nodes)
            + lit_close(),
        CommandModel::AddNode { node_id, hostname, mac_address } => lit_add_prefix()
            + spec_encode_string(node_id) + lit_hostname() + spec_encode_string(hostname)
            + lit_mac() + spec_encode_string(mac_address) + lit_close(),
        CommandModel::UpdateNode { node_id, hostname, mac_address } => lit_update_prefix()
            + spec_encode_string(node_id) + lit_hostname() + spec_encode_string(hostname)
            + lit_mac() + spec_encode_string(mac_address) + lit_close(),
        CommandModel::RemoveNode { node_id } => lit_remove_prefix() + spec_encode_string(node_id)
            + lit_close(),
    }
}

/// Serializes a command for the node wire.
pub fn encode_command(c: &TCPRequest) -> (r: String)
    ensures
        r@ == spec_encode_command(c@),
{
    let mut out = String::new();
    match c {
        TCPRequest::Get(g) => {
            out.append("{\"action_type\":\"get\",\"nodes\":");
            append_json_string(&mut out, g.nodes.as_str());
            out.append("}");
            assert(out@ =~= spec_encode_command(c@));
        },
        TCPRequest::SetNodes(t) => {
            out.append("{\"action_type\":\"set\",\"nodes\":");
            append_flat_object(&mut out, &t.nodes);
            out.append("}");
            assert(out@ =~= spec_encode_command(c@));
        },
        TCPRequest::AddNode(a) => {
            out.append("{\"action_type\":\"add_node\",\"node_id\":");
            append_json_string(&mut out, a.node_id.as_str());
            out.append(",\"hostname\":");
            append_json_string(&mut out, a.hostname.as_str());
            out.append(",\"mac_address\":");
            append_json_string(&mut out, a.mac_address.as_str());
            out.append("}");
            assert(out@ =~= spec_encode_command(c@));
        },
        TCPRequest::UpdateNode(u) => {
            out.append("{\"action_type\":\"update_node\",\"node_id\":");
            append_json_string(&mut out, u.node_id.as_str());
            out.append(",\"hostname\":");
            append_json_string(&mut out, u.hostname.as_str());
            out.append(",\"mac_address\":");
            append_json_string(&mut out, u.mac_address.as_str());
            out.append("}");
            assert(out@ =~= spec_encode_command(c@));
        },
        TCPRequest::RemoveNode(d) => {
            out.append("{\"action_type\":\"remove_node\",\"node_id\":");
            append_json_string(&mut out, d.node_id.as_str());
            out.append("}");
            assert(out@ =~= spec_encode_command(c@));
        },
    }
    out
}

/// What the canonical decoder reads out of a text: the command whose
/// canonical encoding the text is, if it is one.
pub open spec fn spec_decode_command(s: Seq<char>) -> Option<CommandModel> {
    if spec_starts_with(s, lit_get_prefix()) {
        match spec_parse_string(s.skip(lit_get_prefix().len() as int)) {
            Some((n, r)) => if r == lit_close() {
                Some(CommandModel::Get { nodes: n })
            } else {
                None
            },
            None => None,
        }
    } else if spec_starts_with(s, lit_set_prefix()) {
        match spec_parse_flat_object(s.skip(lit_set_prefix().len() as int)) {
            Some((m, r)) => if r == lit_close() {
                Some(CommandModel::SetNodes { nodes: m })
            } else {
                None
            },
            None => None,
        }
    } else if spec_starts_with(s, lit_add_prefix()) {
        spec_decode_node_fields(s.skip(lit_add_prefix().len() as int), true)
    } else if spec_starts_with(s, lit_update_prefix()) {
        spec_decode_node_fields(s.skip(lit_update_prefix().len() as int), false)
    } else if spec_starts_with(s, lit_remove_prefix()) {
        match spec_parse_string(s.skip(lit_remove_prefix().len() as int)) {
            Some((n, r)) => if r == lit_close() {
                Some(CommandModel::RemoveNode { node_id: n })
            } else {
                None
            },
            None => None,
        }
    } else {
        None
    }
}

/// The shared `node_id`, `hostname`, `mac_address` triple of `add_node`
/// and `update_node`, read from just after the opening of `node_id`.
pub open spec fn spec_decode_node_fields(s: Seq<char>, add: bool) -> Option<CommandModel> {
    match spec_parse_string(s) {
        None => None,
        Some((nid, r1)) => if spec_starts_with(r1, lit_hostname()) {
            match spec_parse_string(r1.skip(lit_hostname().len() as int)) {
                None => None,
                Some((h, r2)) => if spec_starts_with(r2, lit_mac()) {
                    match spec_parse_string(r2.skip(lit_mac().len() as int)) {
                        None => None,
                        Some((mc, r3)) => if r3 == lit_close() {
                            if add {
                                Some(
                                    CommandModel::AddNode {
                                        node_id: nid,
                                        hostname: h,
                                        mac_address: mc,
                                    },
                                )
                            } else {
                                Some(
                                    CommandModel::UpdateNode {
                                        node_id: nid,
                                        hostname: h,
                                        mac_address: mc,
                                    },
                                )
                            }
                        } else {
                            None
                        },
                    }
                } else {
                    None
                },
            }
        } else {
            None
        },
    }
}

/// Reads a command back from its canonical wire text: the symmetric
/// counterpart of `encode_command`, accepting exactly what it writes.
pub fn decode_command(s: &str) -> (r: Option<TCPRequest>)
    ensures
        match r {
            Some(c) => spec_decode_command(s@) == Some(c@),
            None => spec_decode_command(s@) is None,
        },
{
    let cs = to_chars(s);
    assert(cs@.skip(0) =~= cs@);
    if let Some(j) = match_lit(&cs, 0, "{\"action_type\":\"get\",\"nodes\":") {
        assert(cs@.skip(j as int) =~= cs@.skip(lit_get_prefix().len() as int));
        match parse_string(&cs, j) {
            None => None,
            Some(p) => if at_closing_brace_end(&cs, p.1) {
                Some(TCPRequest::Get(Get { nodes: p.0 }))
            } else {
                None
            },
        }
    } else if let Some(j) = match_lit(&cs, 0, "{\"action_type\":\"set\",\"nodes\":") {
        assert(cs@.skip(j as int) =~= cs@.skip(lit_set_prefix().len() as int));
        match parse_flat_object(&cs, j) {
            None => None,
            Some(p) => if at_closing_brace_end(&cs, p.1) {
                Some(TCPRequest::SetNodes(SetNodes { nodes: p.0 }))
            } else {
                None
            },
        }
    } else if let Some(j) = match_lit(&cs, 0, "{\"action_type\":\"add_node\",\"node_id\":") {
        assert(cs@.skip(j as int) =~= cs@.skip(lit_add_prefix().len() as int));
        match decode_node_fields(&cs, j) {
            None => None,
            Some(t) => Some(
                TCPRequest::AddNode(
                    AddNode { node_id: t.0, hostname: t.1, mac_address: t.2 },
                ),
            ),
        }
    } else if let Some(j) = match_lit(&cs, 0, "{\"action_type\":\"update_node\",\"node_id\":") {
        assert(cs@.skip(j as int) =~= cs@.skip(lit_update_prefix().len() as int));
        match decode_node_fields(&cs, j) {
            None => None,
            Some(t) => Some(
                TCPRequest::UpdateNode(
                    UpdateNode { node_id: t.0, hostname: t.1, mac_address: t.2 },
                ),
            ),
        }
    } else if let Some(j) = match_lit(&cs, 0, "{\"action_type\":\"remove_node\",\"node_id\":") {
        assert(cs@.skip(j as int) =~= cs@.skip(lit_remove_prefix().len() as int));
        match parse_string(&cs, j) {
            None => None,
            Some(p) => if at_closing_brace_end(&cs, p.1) {
                Some(TCPRequest::RemoveNode(RemoveNode { node_id: p.0 }))
            } else {
                None
            },
        }
    } else {
        None
    }
}

/// Reads the `node_id`, `hostname`, `mac_address` triple from position `i`.
fn decode_node_fields(cs: &Vec<char>, i: usize) -> (r: Option<(String, String, String)>)
    requires
        i <= cs@.len(),
    ensures
        match r {
            Some(t) => spec_decode_node_fields(cs@.skip(i as int), true) == Some(
                CommandModel::AddNode { node_id: t.0@, hostname: t.1@, mac_address: t.2@ },
            ) && spec_decode_node_fields(cs@.skip(i as int), false) == Some(
                CommandModel::UpdateNode { node_id: t.0@, hostname: t.1@, mac_address: t.2@ },
            ),
            None => spec_decode_node_fields(cs@.skip(i as int), true) is None
                && spec_decode_node_fields(cs@.skip(i as int), false) is None,
        },
{
    let nid = match parse_string(cs, i) {
        None => {
            return None;
        },
        Some(p) => p,
    };
    let j2 = match match_lit(cs, nid.1, ",\"hostname\":") {
        None => {
            return None;
        },
        Some(j) => j,
    };
    let h = match parse_string(cs, j2) {
        None => {
            return None;
        },
        Some(p) => p,
    };
    let j3 = match match_lit(cs, h.1, ",\"mac_address\":") {
        None => {
            return None;
        },
        Some(j) => j,
    };
    let mc = match parse_string(cs, j3) {
        None => {
            return None;
        },
        Some(p) => p,
    };
    if at_closing_brace_end(cs, mc.1) {
        Some((nid.0, h.0, mc.0))
    } else {
        None
    }
}

proof fn lemma_prefix_distinct(s: Seq<char>, p: Seq<char>, q: Seq<char>)
    requires
        spec_starts_with(s, p),
        16 < p.len(),
        16 < q.len(),
        p[16] != q[16],
    ensures
        !spec_starts_with(s, q),
{
    if spec_starts_with(s, q) {
        assert(s.take(p.len() as int)[16] == s[16]);
        assert(s.take(q.len() as int)[16] == s[16]);
    }
}

/// The `node_id`, `hostname`, `mac_address` triple reads back from its own
/// encoding.
proof fn lemma_node_fields_round_trip(nid: Seq<char>, h: Seq<char>, mc: Seq<char>)
    ensures
        spec_decode_node_fields(
            spec_encode_string(nid) + lit_hostname() + spec_encode_string(h) + lit_mac()
                + spec_encode_string(mc) + lit_close(),
            true,
        ) == Some(CommandModel::AddNode { node_id: nid, hostname: h, mac_address: mc }),
        spec_decode_node_fields(
            spec_encode_string(nid) + lit_hostname() + spec_encode_string(h) + lit_mac()
                + spec_encode_string(mc) + lit_close(),
            false,
        ) == Some(CommandModel::UpdateNode { node_id: nid, hostname: h, mac_address: mc }),
{
    reveal_strlit(",\"hostname\":");
    reveal_strlit(",\"mac_address\":");
    let t = spec_encode_string(nid) + lit_hostname() + spec_encode_string(h) + lit_mac()
        + spec_encode_string(mc) + lit_close();
    let rest1 = lit_hostname() + spec_encode_string(h) + lit_mac() + spec_encode_string(mc)
        + lit_close();
    assert(t =~= spec_encode_string(nid) + rest1);
    lemma_parse_encoded_string(nid, rest1);
    assert(rest1.take(lit_hostname().len() as int) =~= lit_hostname());
    assert(spec_starts_with(rest1, lit_hostname()));
    let rest2 = spec_encode_string(h) + lit_mac() + spec_encode_string(mc) + lit_close();
    assert(rest1.skip(lit_hostname().len() as int) =~= rest2);
    let rest3 = lit_mac() + spec_encode_string(mc) + lit_close();
    assert(rest2 =~= spec_encode_string(h) + rest3);
    lemma_parse_encoded_string(h, rest3);
    assert(rest3.take(lit_mac().len() as int) =~= lit_mac());
    assert(spec_starts_with(rest3, lit_mac()));
    let rest4 = spec_encode_string(mc) + lit_close();
    assert(rest3.skip(lit_mac().len() as int) =~= rest4);
    lemma_parse_encoded_string(mc, lit_close());
}

/// Decoding the canonical encoding of any command gives that command back:
/// the encoder and the canonical decoder are inverse.
#[verifier::rlimit(80)]
pub proof fn lemma_command_round_trip(m: CommandModel)
    ensures
        spec_decode_command(spec_encode_command(m)) == Some(m),
{
    let enc = spec_encode_command(m);
    match m {
        CommandModel::Get { nodes } => {
            reveal_strlit("{\"action_type\":\"get\",\"nodes\":");
            let p = lit_get_prefix();
            assert(enc.take(p.len() as int) =~= p);
            assert(spec_starts_with(enc, p));
            assert(enc.skip(p.len() as int) =~= spec_encode_string(nodes) + lit_close());
            lemma_parse_encoded_string(nodes, lit_close());
        },
        CommandModel::SetNodes { nodes } => {
            reveal_strlit("{\"action_type\":\"get\",\"nodes\":");
            reveal_strlit("{\"action_type\":\"set\",\"nodes\":");
            let p = lit_set_prefix();
            assert(enc.take(p.len() as int) =~= p);
            assert(spec_starts_with(enc, p));
            lemma_prefix_distinct(enc, p, lit_get_prefix());
            assert(enc.skip(p.len() as int) =~= spec_encode_flat_object(nodes) + lit_close());
            lemma_parse_encoded_flat_object(nodes, lit_close());
        },
        CommandModel::AddNode { node_id, hostname, mac_address } => {
            reveal_strlit("{\"action_type\":\"get\",\"nodes\":");
            reveal_strlit("{\"action_type\":\"set\",\"nodes\":");
            reveal_strlit("{\"action_type\":\"add_node\",\"node_id\":");
            let p = lit_add_prefix();
            assert(enc.take(p.len() as int) =~= p);
            assert(spec_starts_with(enc, p));
            lemma_prefix_distinct(enc, p, lit_get_prefix());
            lemma_prefix_distinct(enc, p, lit_set_prefix());
            assert(enc.skip(p.len() as int) =~= spec_encode_string(node_id) + lit_hostname()
                + spec_encode_string(hostname) + lit_mac() + spec_encode_string(mac_address)
                + lit_close());
            lemma_node_fields_round_trip(node_id, hostname, mac_address);
        },
        CommandModel::UpdateNode { node_id, hostname, mac_address } => {
            reveal_strlit("{\"action_type\":\"get\",\"nodes\":");
            reveal_strlit("{\"action_type\":\"set\",\"nodes\":");
            reveal_strlit("{\"action_type\":\"add_node\",\"node_id\":");
            reveal_strlit("{\"action_type\":\"update_node\",\"node_id\":");
            let p = lit_update_prefix();
            assert(enc.take(p.len() as int) =~= p);
            assert(spec_starts_with(enc, p));
            lemma_prefix_distinct(enc, p, lit_get_prefix());
            lemma_prefix_distinct(enc, p, lit_set_prefix());
            lemma_prefix_distinct(enc, p, lit_add_prefix());
            assert(enc.skip(p.len() as int) =~= spec_encode_string(node_id) + lit_hostname()
                + spec_encode_string(hostname) + lit_mac() + spec_encode_string(mac_address)
                + lit_close());
            lemma_node_fields_round_trip(node_id, hostname, mac_address);
        },
        CommandModel::RemoveNode { node_id } => {
            reveal_strlit("{\"action_type\":\"get\",\"nodes\":");
            reveal_strlit("{\"action_type\":\"set\",\"nodes\":");
            reveal_strlit("{\"action_type\":\"add_node\",\"node_id\":");
            reveal_strlit("{\"action_type\":\"update_node\",\"node_id\":");
            reveal_strlit("{\"action_type\":\"remove_node\",\"node_id\":");
            let p = lit_remove_prefix();
            assert(enc.take(p.len() as int) =~= p);
            assert(spec_starts_with(enc, p));
            lemma_prefix_distinct(enc, p, lit_get_prefix());
            lemma_prefix_distinct(enc, p, lit_set_prefix());
            lemma_prefix_distinct(enc, p, lit_add_prefix());
            lemma_prefix_distinct(enc, p, lit_update_prefix());
            assert(enc.skip(p.len() as int) =~= spec_encode_string(node_id) + lit_close());
            lemma_parse_encoded_string(node_id, lit_close());
        },
    }
}

} // verus!
