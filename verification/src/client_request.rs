//! Inbound client requests: a JSON object whose `command` field selects the
//! operation, with the operation's own fields beside it in any order.

use vstd::prelude::*;
use crate::json::{extract3, parse_doc, spec_field, spec_parse_doc, str_eq, to_chars, JsonVal,
    JsonValModel};

verus! {

/// Ask for the power state of every machine in a room.
pub struct PCPGetStatus {
    pub room: String,
}

/// Ask that one machine in a room be booked (powered on).
pub struct PCPBookPC {
    pub room: String,
    pub pc: String,
}

/// A client request, discriminated on the wire by the `command` field.
pub enum Request {
    PCPGetStatus(PCPGetStatus),
    PCPBookPC(PCPBookPC),
}

/// Mathematical image of a `Request`.
pub enum RequestModel {
    GetStatus { room: Seq<char> },
    BookPC { room: Seq<char>, pc: Seq<char> },
}

impl View for Request {
    type V = RequestModel;

    open spec fn view(&self) -> RequestModel {
        match self {
            Request::PCPGetStatus(g) => RequestModel::GetStatus { room: g.room@ },
            Request::PCPBookPC(b) => RequestModel::BookPC { room: b.room@, pc: b.pc@ },
        }
    }
}

/// What the request decoder reads out of a client body: the command named
/// by the `command` field with its string fields, nothing else.
pub open spec fn spec_decode_request(s: Seq<char>) -> Option<RequestModel> {
    match spec_parse_doc(s) {
        None => None,
        Some(ps) => match spec_field(ps, "command"@) {
            Some(JsonValModel::S(cmd)) => if cmd == "PCPGetStatus"@ {
                match spec_field(ps, "room"@) {
                    Some(JsonValModel::S(room)) => Some(RequestModel::GetStatus { room }),
                    _ => None,
                }
            } else if cmd == "PCPBookPC"@ {
                match (spec_field(ps, "room"@), spec_field(ps, "pc"@)) {
                    (Some(JsonValModel::S(room)), Some(JsonValModel::S(pc))) => Some(
                        RequestModel::BookPC { room, pc },
                    ),
                    _ => None,
                }
            } else {
                None
            },
            _ => None,
        },
    }
}

/// Deserializes one client request body.
pub fn decode_request(s: &str) -> (r: Option<Request>)
    ensures
        match r {
            Some(q) => spec_decode_request(s@) == Some(q@),
            None => spec_decode_request(s@) is None,
        },
{
    let cs = to_chars(s);
    let doc = match parse_doc(&cs) {
        None => {
            return None;
        },
        Some(d) => d,
    };
    proof {
        reveal_strlit("command");
        reveal_strlit("room");
        reveal_strlit("pc");
        assert("command"@.len() == 7);
        assert("room"@.len() == 4);
        assert("pc"@.len() == 2);
    }
    let f = extract3(doc, "command", "room", "pc");
    match f {
        (Some(JsonVal::S(cmd)), room_field, pc_field) => {
            if str_eq(cmd.as_str(), "PCPGetStatus") {
                match room_field {
                    Some(JsonVal::S(room)) => Some(Request::PCPGetStatus(PCPGetStatus { room })),
                    _ => None,
                }
            } else if str_eq(cmd.as_str(), "PCPBookPC") {
                match (room_field, pc_field) {
                    (Some(JsonVal::S(room)), Some(JsonVal::S(pc))) => Some(
                        Request::PCPBookPC(PCPBookPC { room, pc }),
                    ),
                    _ => None,
                }
            } else {
                None
            }
        },
        _ => None,
    }
}

} // verus!
