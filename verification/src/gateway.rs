//! The command translator: given a client request and the outcome of the
//! one address-resolution and node round trip it causes, classify what
//! happened into the client-facing result vocabulary. Resolution and
//! transport failures are recovered locally into a well-formed response;
//! only malformed node replies and node-reported refusals become errors.

use vstd::prelude::*;
use crate::client_response::{PCPBookResult, PCPReturnStatus, Response, ResponseModel};
use crate::tcp_request::{CommandModel, Get, SetNodes, TCPRequest};
use crate::json::{
    extract1, pairs_model, parse_doc, spec_field, spec_flat_field, spec_parse_doc, str_eq,
    to_chars, JsonVal, JsonValModel,
};
use crate::json_error::JsonError;
use crate::tcp_return::{decode_reply, spec_decode_reply, ReplyModel, TCPReturn};
use crate::tcp_return::{decode_status, spec_decode_status};

verus! {

/// How far one room-to-node round trip got: the room was not in the address
/// table, or the exchange with the node failed, or the node answered with
/// one reply line.
pub enum NodeOutcome {
    AddressMissing,
    ExchangeFailed,
    Replied(String),
}

/// Mathematical image of a `NodeOutcome`.
pub enum OutcomeModel {
    AddressMissing,
    ExchangeFailed,
    Replied(Seq<char>),
}

impl View for NodeOutcome {
    type V = OutcomeModel;

    open spec fn view(&self) -> OutcomeModel {
        match self {
            NodeOutcome::AddressMissing => OutcomeModel::AddressMissing,
            NodeOutcome::ExchangeFailed => OutcomeModel::ExchangeFailed,
            NodeOutcome::Replied(line) => OutcomeModel::Replied(line@),
        }
    }
}

/// The status operation's classification: a missing room and a failed
/// exchange become results, a node list becomes a success carrying the
/// node's own device id and states, a status reply is the node declining
/// to answer and becomes an error, a malformed reply becomes an error.
pub open spec fn spec_get_status(room: Seq<char>, outcome: OutcomeModel) -> Result<
    ResponseModel,
    Seq<char>,
> {
    match outcome {
        OutcomeModel::AddressMissing => Ok(
            ResponseModel::StatusResult {
                room,
                result: "not_found"@,
                status: Seq::empty(),
            },
        ),
        OutcomeModel::ExchangeFailed => Ok(
            ResponseModel::StatusResult {
                room,
                result: "node_communication_failed"@,
                status: Seq::empty(),
            },
        ),
        OutcomeModel::Replied(line) => match spec_decode_reply(line) {
            Some(ReplyModel::NodeList { device_id, nodes }) => Ok(
                ResponseModel::StatusResult { room: device_id, result: "success"@, status: nodes },
            ),
            Some(ReplyModel::Status { device_id, status }) => Err(status),
            None => Err("invalid JSON in node reply"@),
        },
    }
}

/// The booking verdict for one machine: the node's reported state for it,
/// read last-one-wins, mapped onto the result vocabulary; a machine the
/// node did not mention, or reported in an unknown state, was not found.
pub open spec fn spec_book_verdict(nodes: Seq<(Seq<char>, Seq<char>)>, pc: Seq<char>) -> Seq<
    char,
> {
    match spec_flat_field(nodes, pc) {
        None => "not_found"@,
        Some(state) => if state == "on"@ {
            "success"@
        } else if state == "off"@ {
            "node_error"@
        } else if state == "already_on"@ {
            "already_booked"@
        } else {
            "not_found"@
        },
    }
}

/// The booking operation's classification: as for the status operation,
/// but a node list is judged by the one booked machine's state, and a
/// status reply means the node rejected the request as a whole.
pub open spec fn spec_book_pc(room: Seq<char>, pc: Seq<char>, outcome: OutcomeModel) -> Result<
    ResponseModel,
    Seq<char>,
> {
    match outcome {
        OutcomeModel::AddressMissing => Ok(
            ResponseModel::BookResult { room, result: "not_found"@ },
        ),
        OutcomeModel::ExchangeFailed => Ok(
            ResponseModel::BookResult { room, result: "node_communication_failed"@ },
        ),
        OutcomeModel::Replied(line) => match spec_decode_reply(line) {
            Some(ReplyModel::NodeList { device_id, nodes }) => Ok(
                ResponseModel::BookResult {
                    room: device_id,
                    result: spec_book_verdict(nodes, pc),
                },
            ),
            Some(ReplyModel::Status { device_id, status }) => Ok(
                ResponseModel::BookResult { room: device_id, result: "not_found"@ },
            ),
            None => Err("invalid JSON in node reply"@),
        },
    }
}

/// The node command a status request causes: ask for every node's state.
pub fn status_command() -> (c: TCPRequest)
    ensures
        c@ == (CommandModel::Get { nodes: "*"@ }),
{
    TCPRequest::Get(Get { nodes: "*".to_owned() })
}

/// The node command a booking request causes: ask that the one machine be
/// powered on.
pub fn booking_command(pc: &String) -> (c: TCPRequest)
    ensures
        c@ == (CommandModel::SetNodes { nodes: seq![(pc@, "on"@)] }),
{
    let nodes: Vec<(String, String)> = vec![(pc.clone(), "on".to_owned())];
    assert(pairs_model(nodes@) =~= seq![(pc@, "on"@)]);
    TCPRequest::SetNodes(SetNodes { nodes })
}

/// Classifies one status round trip into the client's response.
pub fn get_status_response(room: String, outcome: &NodeOutcome) -> (r: Result<Response, JsonError>)
    ensures
        match r {
            Ok(resp) => spec_get_status(room@, outcome@) == Ok::<ResponseModel, Seq<char>>(resp@),
            Err(e) => spec_get_status(room@, outcome@) == Err::<ResponseModel, Seq<char>>(
                e.error@,
            ),
        },
{
    match outcome {
        NodeOutcome::AddressMissing => {
            let resp = Response::PCPReturnStatus(
                PCPReturnStatus { room, result: "not_found".to_owned(), status: Vec::new() },
            );
            assert(pairs_model(Seq::<(String, String)>::empty()) =~= Seq::<
                (Seq<char>, Seq<char>),
            >::empty());
            Ok(resp)
        },
        NodeOutcome::ExchangeFailed => {
            let resp = Response::PCPReturnStatus(
                PCPReturnStatus {
                    room,
                    result: "node_communication_failed".to_owned(),
                    status: Vec::new(),
                },
            );
            assert(pairs_model(Seq::<(String, String)>::empty()) =~= Seq::<
                (Seq<char>, Seq<char>),
            >::empty());
            Ok(resp)
        },
        NodeOutcome::Replied(line) => match decode_reply(line.as_str()) {
            None => Err(JsonError::new("invalid JSON in node reply")),
            Some(TCPReturn::NodeList(nl)) => Ok(
                Response::PCPReturnStatus(
                    PCPReturnStatus {
                        room: nl.device_id,
                        result: "success".to_owned(),
                        status: nl.nodes,
                    },
                ),
            ),
            Some(TCPReturn::Status(st)) => Err(JsonError::new(st.status.as_str())),
        },
    }
}

/// Looks one machine up in a node list, last entry winning.
fn book_verdict(nodes: &Vec<(String, String)>, pc: &str) -> (r: String)
    ensures
        r@ == spec_book_verdict(pairs_model(nodes@), pc@),
{
    let ghost gm = pairs_model(nodes@);
    let mut i = nodes.len();
    assert(nodes@.subrange(0, i as int) =~= nodes@);
    while i > 0
        invariant
            i <= nodes@.len(),
            gm == pairs_model(nodes@),
            spec_flat_field(gm, pc@) == spec_flat_field(
                pairs_model(nodes@.subrange(0, i as int)),
                pc@,
            ),
        decreases i,
    {
        let ghost pre = pairs_model(nodes@.subrange(0, i as int));
        proof {
            assert(pre.last() == (nodes@[i - 1].0@, nodes@[i - 1].1@));
            assert(pre.drop_last() =~= pairs_model(nodes@.subrange(0, i - 1)));
        }
        if str_eq(nodes[i - 1].0.as_str(), pc) {
            let state = &nodes[i - 1].1;
            if str_eq(state.as_str(), "on") {
                return "success".to_owned();
            } else if str_eq(state.as_str(), "off") {
                return "node_error".to_owned();
            } else if str_eq(state.as_str(), "already_on") {
                return "already_booked".to_owned();
            } else {
                return "not_found".to_owned();
            }
        }
        i = i - 1;
    }
    assert(pairs_model(nodes@.subrange(0, 0)) =~= Seq::<(Seq<char>, Seq<char>)>::empty());
    "not_found".to_owned()
}

/// Classifies one booking round trip into the client's response.
pub fn book_pc_response(room: String, pc: &String, outcome: &NodeOutcome) -> (r: Result<
    Response,
    JsonError,
>)
    ensures
        match r {
            Ok(resp) => spec_book_pc(room@, pc@, outcome@) == Ok::<ResponseModel, Seq<char>>(
                resp@,
            ),
            Err(e) => spec_book_pc(room@, pc@, outcome@) == Err::<ResponseModel, Seq<char>>(
                e.error@,
            ),
        },
{
    match outcome {
        NodeOutcome::AddressMissing => Ok(
            Response::PCPBookResult(PCPBookResult { room, result: "not_found".to_owned() }),
        ),
        NodeOutcome::ExchangeFailed => Ok(
            Response::PCPBookResult(
                PCPBookResult { room, result: "node_communication_failed".to_owned() },
            ),
        ),
        NodeOutcome::Replied(line) => match decode_reply(line.as_str()) {
            None => Err(JsonError::new("invalid JSON in node reply")),
            Some(TCPReturn::NodeList(nl)) => {
                let verdict = book_verdict(&nl.nodes, pc.as_str());
                Ok(
                    Response::PCPBookResult(
                        PCPBookResult { room: nl.device_id, result: verdict },
                    ),
                )
            },
            Some(TCPReturn::Status(st)) => Ok(
                Response::PCPBookResult(
                    PCPBookResult { room: st.device_id, result: "not_found".to_owned() },
                ),
            ),
        },
    }
}

/// Classifies one administrative round trip: the node's literal status
/// string, with `"ok"` alone meaning success.
pub fn classify_admin_reply(line: &str) -> (r: Result<(), JsonError>)
    ensures
        match spec_decode_status(line@) {
            None => r matches Err(e) && e.error@ == "invalid JSON in node reply"@,
            Some((d, st)) => if st == "ok"@ {
                r is Ok
            } else {
                r matches Err(e) && e.error@ == st
            },
        },
{
    match decode_status(line) {
        None => Err(JsonError::new("invalid JSON in node reply")),
        Some(st) => {
            if str_eq(st.status.as_str(), "ok") {
                Ok(())
            } else {
                Err(JsonError::new(st.status.as_str()))
            }
        },
    }
}

/// Resolves a room to its endpoint in the address table's text, which is
/// read fresh from its backing store on every call.
pub fn get_address(device_id: &str, table: &str) -> (r: Result<String, JsonError>)
    ensures
        match spec_parse_doc(table@) {
            None => r matches Err(e) && e.error@ == "invalid JSON in address table"@,
            Some(ps) => match spec_field(ps, device_id@) {
                Some(JsonValModel::S(addr)) => r matches Ok(a) && a@ == addr,
                Some(JsonValModel::O(o)) => r matches Err(e) && e.error@
                    == "invalid address table entry"@,
                None => r matches Err(e) && e.error@ == "Room not found in address lookup table"@,
            },
        },
{
    let cs = to_chars(table);
    let doc = match parse_doc(&cs) {
        None => {
            return Err(JsonError::new("invalid JSON in address table"));
        },
        Some(d) => d,
    };
    match extract1(doc, device_id) {
        Some(JsonVal::S(addr)) => Ok(addr),
        Some(JsonVal::O(o)) => Err(JsonError::new("invalid address table entry")),
        None => Err(JsonError::new("Room not found in address lookup table")),
    }
}

/// A status request on a room that resolved and whose node answered with a
/// node list is answered with exactly that list, under the node's own
/// device id, with the result `"success"`.
pub proof fn lemma_status_success(
    room: Seq<char>,
    line: Seq<char>,
    device_id: Seq<char>,
    nodes: Seq<(Seq<char>, Seq<char>)>,
)
    requires
        spec_decode_reply(line) == Some(ReplyModel::NodeList { device_id, nodes }),
    ensures
        spec_get_status(room, OutcomeModel::Replied(line)) == Ok::<ResponseModel, Seq<char>>(
            ResponseModel::StatusResult { room: device_id, result: "success"@, status: nodes },
        ),
{
}

/// A room absent from the address table makes both operations answer
/// `"not_found"`, before anything is sent to any node.
pub proof fn lemma_missing_room(room: Seq<char>, pc: Seq<char>)
    ensures
        spec_get_status(room, OutcomeModel::AddressMissing) == Ok::<ResponseModel, Seq<char>>(
            ResponseModel::StatusResult {
                room,
                result: "not_found"@,
                status: Seq::empty(),
            },
        ),
        spec_book_pc(room, pc, OutcomeModel::AddressMissing) == Ok::<ResponseModel, Seq<char>>(
            ResponseModel::BookResult { room, result: "not_found"@ },
        ),
{
}

/// The booking verdict is exhaustive over the four cases of the node's
/// reported state for the machine: `"on"`, `"off"`, `"already_on"`, and
/// absent or anything else.
pub proof fn lemma_book_verdict_cases(nodes: Seq<(Seq<char>, Seq<char>)>, pc: Seq<char>)
    ensures
        spec_flat_field(nodes, pc) == Some("on"@) ==> spec_book_verdict(nodes, pc) == "success"@,
        spec_flat_field(nodes, pc) == Some("off"@) ==> spec_book_verdict(nodes, pc)
            == "node_error"@,
        spec_flat_field(nodes, pc) == Some("already_on"@) ==> spec_book_verdict(nodes, pc)
            == "already_booked"@,
        spec_flat_field(nodes, pc) is None ==> spec_book_verdict(nodes, pc) == "not_found"@,
        (match spec_flat_field(nodes, pc) {
            Some(state) => state != "on"@ && state != "off"@ && state != "already_on"@,
            None => true,
        }) ==> spec_book_verdict(nodes, pc) == "not_found"@,
{
    reveal_strlit("on");
    reveal_strlit("off");
    reveal_strlit("already_on");
    assert("on"@.len() == 2);
    assert("off"@.len() == 3);
    assert("already_on"@.len() == 10);
}

/// A failed exchange makes both operations answer
/// `"node_communication_failed"` as a well-formed response, never an error.
pub proof fn lemma_transport_failure(room: Seq<char>, pc: Seq<char>)
    ensures
        spec_get_status(room, OutcomeModel::ExchangeFailed) == Ok::<ResponseModel, Seq<char>>(
            ResponseModel::StatusResult {
                room,
                result: "node_communication_failed"@,
                status: Seq::empty(),
            },
        ),
        spec_book_pc(room, pc, OutcomeModel::ExchangeFailed) == Ok::<ResponseModel, Seq<char>>(
            ResponseModel::BookResult { room, result: "node_communication_failed"@ },
        ),
{
}

} // verus!
