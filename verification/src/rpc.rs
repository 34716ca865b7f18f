//! What the node's JSON-RPC interface hands the miner, and how its replies are read.

use crate::text::{contains_text, lemma_occurs_in_is_contains, occurs_in, str_contains};
use vstd::prelude::*;
use vstd::string::*;
use vstd::utf8::encode_utf8;

verus! {

/// A block template as returned by `getblocktemplate`.
pub struct BlockTemplate {
    pub version: u32,
    pub previous_block_hash: String,
    pub transactions: Vec<TemplateTransaction>,
    pub coinbasevalue: u64,
    pub target: String,
    pub cur_time: u64,
    pub mintime: u64,
    pub bits: String,
    pub height: u64,
    pub default_witness_commitment: Option<String>,
}

/// The block summary returned by `getblock`.
pub struct BlockInfo {
    pub height: u64,
    pub time: u64,
    pub mediantime: u64,
    pub bits: String,
}

/// One mempool transaction offered by a block template.
pub struct TemplateTransaction {
    pub data: String,
    pub txid: String,
    pub hash: String,
    pub fee: u64,
    pub weight: u64,
}

/// The error member of a JSON-RPC reply.
pub struct JsonRpcError {
    pub code: i64,
    pub message: String,
}

/// What came back over HTTP for one call.
pub enum HttpReply {
    /// A successful response and its body.
    Body(String),
    /// An error status and the body that came with it.
    ErrorStatus { code: u16, body: String },
    /// No response: the transport failed, for the reason given.
    Transport(String),
}

/// Why a JSON-RPC call failed.
pub enum RpcFailure {
    /// An error status came back with no body.
    HttpStatus { status: u16 },
    /// The transport failed.
    Transport { detail: String },
    /// The response body was empty.
    EmptyResponse,
    /// The node answered with an error.
    Server { code: i64, message: String },
}

/// The text of an HTTP reply that holds a JSON-RPC response, if any. The node
/// answers some RPC errors with an error status and a JSON-RPC body, so a body
/// that comes with an error status is read like any other.
pub fn reply_text(reply: HttpReply) -> (r: Result<String, RpcFailure>)
    ensures
        match reply {
            HttpReply::Body(body) => if body@.len() == 0 {
                r matches Err(RpcFailure::EmptyResponse)
            } else {
                r == Ok::<String, RpcFailure>(body)
            },
            HttpReply::ErrorStatus { code, body } => if body@.len() == 0 {
                r matches Err(RpcFailure::HttpStatus { status }) && status == code
            } else {
                r == Ok::<String, RpcFailure>(body)
            },
            HttpReply::Transport(detail) => r matches Err(RpcFailure::Transport { detail: d }) && d == detail,
        },
{
    let text = match reply {
        HttpReply::Body(body) => body,
        HttpReply::ErrorStatus { code, body } => {
            if body.as_str().is_empty() {
                return Err(RpcFailure::HttpStatus { status: code });
            }
            body
        },
        HttpReply::Transport(detail) => {
            return Err(RpcFailure::Transport { detail });
        },
    };
    if text.as_str().is_empty() {
        return Err(RpcFailure::EmptyResponse);
    }
    Ok(text)
}

/// The outcome of a parsed JSON-RPC response: its error when there is one, else
/// its result (absent when the node sent none).
pub fn reply_outcome<T>(result: Option<T>, error: Option<JsonRpcError>) -> (r: Result<Option<T>, RpcFailure>)
    ensures
        match error {
            Some(e) => r matches Err(RpcFailure::Server { code, message }) && code == e.code && message == e.message,
            None => r == Ok::<Option<T>, RpcFailure>(result),
        },
{
    match error {
        Some(e) => Err(RpcFailure::Server { code: e.code, message: e.message }),
        None => Ok(result),
    }
}

/// A failure that a stale keep-alive connection causes.
pub open spec fn is_stale_connection_error(err: Seq<char>) -> bool {
    occurs_in(err, "Unexpected EOF"@) || occurs_in(err, "Connection reset"@) || occurs_in(err, "Broken pipe"@)
}

/// A failed first attempt is retried once, with a fresh connection, when the
/// failure comes from a stale keep-alive connection.
pub fn should_retry(attempt: u32, err_text: &str) -> (r: bool)
    ensures
        r == (attempt == 0 && is_stale_connection_error(err_text@)),
        r == (attempt == 0 && (contains_text(err_text@, "Unexpected EOF"@) || contains_text(
            err_text@,
            "Connection reset"@,
        ) || contains_text(err_text@, "Broken pipe"@))),
{
    proof {
        lemma_retry_only_on_stale_connections(attempt, err_text@);
    }
    attempt == 0 && (str_contains(err_text, "Unexpected EOF") || str_contains(err_text, "Connection reset")
        || str_contains(err_text, "Broken pipe"))
}

/// A failed call is retried exactly when it was the first attempt and its error
/// text holds "Unexpected EOF", "Connection reset" or "Broken pipe"; any other
/// failure, such as a refused connection, is not retried.
pub proof fn lemma_retry_only_on_stale_connections(attempt: u32, err: Seq<char>)
    ensures
        (attempt == 0 && is_stale_connection_error(err)) <==> (attempt == 0 && (contains_text(
            err,
            "Unexpected EOF"@,
        ) || contains_text(err, "Connection reset"@) || contains_text(err, "Broken pipe"@))),
{
    lemma_occurs_in_is_contains(err, "Unexpected EOF"@);
    lemma_occurs_in_is_contains(err, "Connection reset"@);
    lemma_occurs_in_is_contains(err, "Broken pipe"@);
}

/// The standard base64 digit for a six-bit value.
pub open spec fn base64_digit(v: nat) -> char {
    if v < 26 {
        (65 + v) as char
    } else if v < 52 {
        (71 + v) as char
    } else if v < 62 {
        (v - 4) as char
    } else if v == 62 {
        '+'
    } else {
        '/'
    }
}

/// Standard base64 (RFC 4648, with `=` padding) of bytes: each group of three
/// bytes becomes four digits, and a short last group is padded.
pub open spec fn base64_text(b: Seq<u8>) -> Seq<char>
    decreases b.len(),
{
    if b.len() == 0 {
        Seq::empty()
    } else if b.len() == 1 {
        seq![base64_digit((b[0] / 4) as nat), base64_digit(((b[0] % 4) * 16) as nat), '=', '=']
    } else if b.len() == 2 {
        seq![
            base64_digit((b[0] / 4) as nat),
            base64_digit(((b[0] % 4) * 16 + b[1] / 16) as nat),
            base64_digit(((b[1] % 16) * 4) as nat),
            '=',
        ]
    } else {
        seq![
            base64_digit((b[0] / 4) as nat),
            base64_digit(((b[0] % 4) * 16 + b[1] / 16) as nat),
            base64_digit(((b[1] % 16) * 4 + b[2] / 64) as nat),
            base64_digit((b[2] % 64) as nat),
        ] + base64_text(b.subrange(3, b.len() as int))
    }
}

/// Calls `base64::Engine::encode` on the `STANDARD` engine, which writes the
/// standard base64 alphabet with `=` padding.
#[verifier::external_body]
fn encode_base64(bytes: &[u8]) -> (r: String)
    ensures
        r@ == base64_text(bytes@),
{
    <base64::engine::GeneralPurpose as base64::Engine>::encode(&base64::engine::general_purpose::STANDARD, bytes)
}

/// The HTTP basic authorization header for `user` and `pass`.
pub fn basic_auth_header(user: &str, pass: &str) -> (r: String)
    ensures
        r@ == "Basic "@ + base64_text(encode_utf8(user@ + ":"@ + pass@)),
{
    let mut credentials = String::from_str(user);
    credentials.append(":");
    credentials.append(pass);
    let encoded = encode_base64(credentials.as_str().as_bytes());
    let mut header = String::from_str("Basic ");
    header.append(encoded.as_str());
    header
}

} // verus!
