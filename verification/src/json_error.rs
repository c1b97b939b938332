use vstd::prelude::*;
use crate::json::{append_json_string, spec_encode_string};

verus! {

/// An error surfaced to the client as a JSON `{"error": ...}` body.
#[derive(Debug)]
pub struct JsonError {
    pub error: String,
}

impl JsonError {
    pub fn new(err_text: &str) -> (e: JsonError)
        ensures
            e.error@ == err_text@,
    {
        JsonError { error: err_text.to_owned() }
    }

    pub fn to_string(&self) -> (s: String)
        ensures
            s@ == self.error@,
    {
        self.error.clone()
    }

    /// The error as a client-facing JSON body.
    pub fn to_json_text(&self) -> (s: String)
        ensures
            s@ == "{\"error\":"@ + spec_encode_string(self.error@) + "}"@,
    {
        let mut out = String::new();
        out.append("{\"error\":");
        append_json_string(&mut out, self.error.as_str());
        out.append("}");
        assert(out@ =~= "{\"error\":"@ + spec_encode_string(self.error@) + "}"@);
        out
    }
}

} // verus!
