//! Outbound client responses: a JSON object whose `command` field names the
//! response shape, written canonically (fields in a fixed order, no
//! whitespace).

use vstd::prelude::*;
use crate::json::{
    append_flat_object, append_json_string, pairs_model, spec_encode_flat_object,
    spec_encode_string,
};

verus! {

/// The answer to a status request: an outcome and, when the node answered,
/// the power state of each machine.
pub struct PCPReturnStatus {
    pub room: String,
    pub result: String,
    pub status: Vec<(String, String)>,
}

/// The answer to a booking request: an outcome alone.
pub struct PCPBookResult {
    pub room: String,
    pub result: String,
}

/// A client response, discriminated on the wire by the `command` field.
pub enum Response {
    PCPReturnStatus(PCPReturnStatus),
    PCPBookResult(PCPBookResult),
}

/// Mathematical image of a `Response`.
pub enum ResponseModel {
    StatusResult { room: Seq<char>, result: Seq<char>, status: Seq<(Seq<char>, Seq<char>)> },
    BookResult { room: Seq<char>, result: Seq<char> },
}

impl View for Response {
    type V = ResponseModel;

    open spec fn view(&self) -> ResponseModel {
        match self {
            Response::PCPReturnStatus(s) => ResponseModel::StatusResult {
                room: s.room@,
                result: s.result@,
                status: pairs_model(s.status@),
            },
            Response::PCPBookResult(b) => ResponseModel::BookResult {
                room: b.room@,
                result: b.result@,
            },
        }
    }
}

/// The canonical wire text of a client response.
pub open spec fn spec_encode_response(m: ResponseModel) -> Seq<char> {
    match m {
        ResponseModel::StatusResult { room, result, status } => {
            "{\"command\":\"PCPReturnStatus\",\"room\":"@ + spec_encode_string(room)
                + ",\"result\":"@ + spec_encode_string(result) + ",\"status\":"@
                + spec_encode_flat_object(status) + "}"@
        },
        ResponseModel::BookResult { room, result } => {
            "{\"command\":\"PCPBookResult\",\"room\":"@ + spec_encode_string(room)
                + ",\"result\":"@ + spec_encode_string(result) + "}"@
        },
    }
}

/// Serializes a client response.
pub fn encode_response(r: &Response) -> (out: String)
    ensures
        out@ == spec_encode_response(r@),
{
    let mut out = String::new();
    match r {
        Response::PCPReturnStatus(s) => {
            out.append("{\"command\":\"PCPReturnStatus\",\"room\":");
            append_json_string(&mut out, s.room.as_str());
            out.append(",\"result\":");
            append_json_string(&mut out, s.result.as_str());
            out.append(",\"status\":");
            append_flat_object(&mut out, &s.status);
            out.append("}");
            assert(out@ =~= spec_encode_response(r@));
        },
        Response::PCPBookResult(b) => {
            out.append("{\"command\":\"PCPBookResult\",\"room\":");
            append_json_string(&mut out, b.room.as_str());
            out.append(",\"result\":");
            append_json_string(&mut out, b.result.as_str());
            out.append("}");
            assert(out@ =~= spec_encode_response(r@));
        },
    }
    out
}

} // verus!
