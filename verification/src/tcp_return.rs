//! Inbound node replies. The wire form is untagged: a reply is read as a
//! node list when it carries a string `device_id` and an object `nodes`,
//! otherwise as a status when it carries a string `device_id` and a string
//! `status`, in that order of trial. Repeated fields read last-one-wins.

use vstd::prelude::*;
use crate::json::{
    extract3, parse_doc, spec_field, spec_parse_doc, to_chars, JsonVal, JsonValModel, pairs_model,
};

verus! {

/// A reply listing nodes and their power states.
pub struct NodeList {
    pub device_id: String,
    pub nodes: Vec<(String, String)>,
}

/// A reply carrying only a status string.
pub struct Status {
    pub device_id: String,
    pub status: String,
}

/// A decoded node reply.
pub enum TCPReturn {
    NodeList(NodeList),
    Status(Status),
}

/// Mathematical image of a `TCPReturn`.
pub enum ReplyModel {
    NodeList { device_id: Seq<char>, nodes: Seq<(Seq<char>, Seq<char>)> },
    Status { device_id: Seq<char>, status: Seq<char> },
}

impl View for TCPReturn {
    type V = ReplyModel;

    open spec fn view(&self) -> ReplyModel {
        match self {
            TCPReturn::NodeList(n) => ReplyModel::NodeList {
                device_id: n.device_id@,
                nodes: pairs_model(n.nodes@),
            },
            TCPReturn::Status(t) => ReplyModel::Status {
                device_id: t.device_id@,
                status: t.status@,
            },
        }
    }
}

/// What the reply decoder reads out of a text: the node-list shape first,
/// the status shape second, nothing else.
pub open spec fn spec_decode_reply(s: Seq<char>) -> Option<ReplyModel> {
    match spec_parse_doc(s) {
        None => None,
        Some(ps) => match (spec_field(ps, "device_id"@), spec_field(ps, "nodes"@)) {
            (Some(JsonValModel::S(d)), Some(JsonValModel::O(m))) => Some(
                ReplyModel::NodeList { device_id: d, nodes: m },
            ),
            _ => match (spec_field(ps, "device_id"@), spec_field(ps, "status"@)) {
                (Some(JsonValModel::S(d)), Some(JsonValModel::S(st))) => Some(
                    ReplyModel::Status { device_id: d, status: st },
                ),
                _ => None,
            },
        },
    }
}

/// What reading a reply as a bare status gives: the `device_id` and
/// `status` fields, both strings, whatever else stands beside them.
pub open spec fn spec_decode_status(s: Seq<char>) -> Option<(Seq<char>, Seq<char>)> {
    match spec_parse_doc(s) {
        None => None,
        Some(ps) => match (spec_field(ps, "device_id"@), spec_field(ps, "status"@)) {
            (Some(JsonValModel::S(d)), Some(JsonValModel::S(st))) => Some((d, st)),
            _ => None,
        },
    }
}

/// Deserializes one node reply line, node-list shape before status shape.
pub fn decode_reply(s: &str) -> (r: Option<TCPReturn>)
    ensures
        match r {
            Some(t) => spec_decode_reply(s@) == Some(t@),
            None => spec_decode_reply(s@) is None,
        },
{
    let cs = to_chars(s);
    let doc = match parse_doc(&cs) {
        None => {
            return None;
        },
        Some(d) => d,
    };
    proof {
        reveal_strlit("device_id");
        reveal_strlit("nodes");
        reveal_strlit("status");
        assert("device_id"@.len() == 9);
        assert("nodes"@.len() == 5);
        assert("status"@.len() == 6);
    }
    let f = extract3(doc, "device_id", "nodes", "status");
    match f {
        (Some(JsonVal::S(d)), Some(JsonVal::O(m)), _) => Some(
            TCPReturn::NodeList(NodeList { device_id: d, nodes: m }),
        ),
        (Some(JsonVal::S(d)), _, Some(JsonVal::S(st))) => Some(
            TCPReturn::Status(Status { device_id: d, status: st }),
        ),
        _ => None,
    }
}

/// Deserializes one node reply line as a bare status, as the administrative
/// commands expect, whatever else stands in the object.
pub fn decode_status(s: &str) -> (r: Option<Status>)
    ensures
        match r {
            Some(t) => spec_decode_status(s@) == Some((t.device_id@, t.status@)),
            None => spec_decode_status(s@) is None,
        },
{
    let cs = to_chars(s);
    let doc = match parse_doc(&cs) {
        None => {
            return None;
        },
        Some(d) => d,
    };
    proof {
        reveal_strlit("device_id");
        reveal_strlit("nodes");
        reveal_strlit("status");
        assert("device_id"@.len() == 9);
        assert("nodes"@.len() == 5);
        assert("status"@.len() == 6);
    }
    let f = extract3(doc, "device_id", "nodes", "status");
    match f {
        (Some(JsonVal::S(d)), _, Some(JsonVal::S(st))) => Some(
            Status { device_id: d, status: st },
        ),
        _ => None,
    }
}

} // verus!
