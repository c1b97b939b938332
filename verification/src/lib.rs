//! Protocol gateway core: translates client booking/status requests into
//! line-delimited JSON node commands, and node replies back into client
//! responses. Every function here is verified; the HTTP server and the raw
//! TCP transport live outside the library and hand it plain strings.

pub mod json;
pub mod tcp_request;
pub mod tcp_return;
pub mod client_request;
pub mod client_response;
pub mod gateway;
pub mod json_error;
