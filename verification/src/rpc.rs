//! The request/response cycle of one gas-price query.
//!
//! The request body is a fixed JSON-RPC envelope. The reply is interpreted
//! as the parser in `json` describes it: a reported error wins over any
//! result, a missing or null result is a failure of its own, and a result
//! string must decode as a hexadecimal quantity.

use vstd::prelude::*;

use crate::hex;
use crate::json;

verus! {

/// Why a fetch failed. Exactly one of these comes out of every failed
/// cycle, each with a human-readable description.
#[derive(Debug)]
pub enum GasError {
    /// The transport did not deliver a reply: network, TLS or timeout.
    Transport(String),
    /// The reply body was not the JSON shape a node answers with.
    Decode(String),
    /// The node itself reported an error; the message is forwarded verbatim.
    RpcReported(String),
    /// The reply carried neither an error nor a result.
    MissingResult(String),
    /// The result string was not a hexadecimal quantity.
    NumericParse(String),
}

/// What `GasError::message` renders for each failure.
pub open spec fn spec_message(e: GasError) -> Seq<char> {
    match e {
        GasError::Transport(t) => t@,
        GasError::Decode(t) => t@,
        GasError::RpcReported(t) => "RPC error: "@ + t@,
        GasError::MissingResult(t) => t@,
        GasError::NumericParse(t) => t@,
    }
}

impl GasError {
    /// The human-readable description of the failure, with a reported
    /// error's verbatim message behind the fixed marker.
    pub fn message(&self) -> (m: String)
        ensures
            m@ == spec_message(*self),
    {
        match self {
            GasError::Transport(t) => t.clone(),
            GasError::Decode(t) => t.clone(),
            GasError::RpcReported(t) => {
                let mut s = String::from_str("RPC error: ");
                s.append(t.as_str());
                s
            },
            GasError::MissingResult(t) => t.clone(),
            GasError::NumericParse(t) => t.clone(),
        }
    }
}

/// How a reply body must be answered: a parse failure is a decode error; a
/// reported error wins over any result and carries the verbatim message; a
/// present result string must decode as a hexadecimal quantity; anything
/// else misses the result.
pub open spec fn reply_decision(body: Seq<char>, r: Result<u128, GasError>) -> bool {
    match json::parse_reply(body) {
        None => r matches Err(GasError::Decode(m)) && m@ == "malformed JSON response"@,
        Some(fields) => match fields.1 {
            Some(Some(msg)) => r matches Err(GasError::RpcReported(m)) && m@ == msg,
            _ => match fields.0 {
                Some(Some(h)) => match hex::spec_decode(h) {
                    Some(value) => r matches Ok(v) && v == value,
                    None => r matches Err(GasError::NumericParse(m)) && m@
                        == "invalid hexadecimal in result"@,
                },
                _ => r matches Err(GasError::MissingResult(m)) && m@ == "No result in response"@,
            },
        },
    }
}

/// A reported error wins: whenever the reply carries an error message, the
/// decision is that failure with the verbatim message, whatever the result
/// member holds.
pub proof fn lemma_error_wins(body: Seq<char>, msg: Seq<char>, r: Result<u128, GasError>)
    requires
        reply_decision(body, r),
        ({
            let p = json::parse_reply(body);
            p matches Some(f) && f.1 == Some(Some(msg))
        }),
    ensures
        r matches Err(GasError::RpcReported(m)) && m@ == msg,
{
}

/// Success is owed only to a well-formed reply: whenever the decision
/// admits a value, the body parsed to an object whose error member was
/// absent or null and whose result string decoded to exactly that value.
pub proof fn lemma_ok_needs_result(body: Seq<char>, v: u128, r: Result<u128, GasError>)
    requires
        reply_decision(body, r),
        r == Ok::<u128, GasError>(v),
    ensures
        ({
            let p = json::parse_reply(body);
            &&& p matches Some(f)
            &&& f.1 is None || f.1 == Some(None::<Seq<char>>)
            &&& f.0 matches Some(Some(h)) && hex::spec_decode(h) == Some(v)
        }),
{
}

/// The JSON-RPC request body asking for the current gas price.
pub fn build_request_body() -> (s: String)
    ensures
        s@ == "{\"jsonrpc\":\"2.0\",\"method\":\"eth_gasPrice\",\"params\":[],\"id\":1}"@,
{
    String::from_str("{\"jsonrpc\":\"2.0\",\"method\":\"eth_gasPrice\",\"params\":[],\"id\":1}")
}

/// Interprets one reply body, as `reply_decision` demands.
pub fn parse_gas_response(body: &str) -> (r: Result<u128, GasError>)
    ensures
        reply_decision(body@, r),
{
    match json::parse_reply_exec(body) {
        None => Err(GasError::Decode(String::from_str("malformed JSON response"))),
        Some((res, err)) => match err {
            Some(Some(msg)) => Err(GasError::RpcReported(msg)),
            _ => match res {
                Some(Some(h)) => match hex::decode_quantity(h.as_str()) {
                    Some(v) => Ok(v),
                    None => Err(
                        GasError::NumericParse(String::from_str("invalid hexadecimal in result")),
                    ),
                },
                _ => Err(GasError::MissingResult(String::from_str("No result in response"))),
            },
        },
    }
}

/// Interprets what one transport attempt came back with: a delivery
/// failure becomes a transport error with the transport's own message, a
/// delivered body is interpreted as `reply_decision` demands.
pub fn interpret_fetch(outcome: Result<String, String>) -> (r: Result<u128, GasError>)
    ensures
        match outcome {
            Ok(body) => reply_decision(body@, r),
            Err(e) => r matches Err(GasError::Transport(m)) && m@ == e@,
        },
{
    match outcome {
        Ok(body) => parse_gas_response(body.as_str()),
        Err(e) => Err(GasError::Transport(e)),
    }
}

} // verus!
