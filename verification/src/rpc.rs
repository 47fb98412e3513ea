//! JSON-RPC 2.0 messages.

use crate::json::{obj, Json, Tree};
use crate::text::own;
use vstd::prelude::*;

verus! {

/// The start of every message.
pub open spec fn message() -> Tree {
    obj().with("jsonrpc"@, Tree::Str("2.0"@))
}

/// The answer to a request.
pub open spec fn result_message(id: Tree, result: Tree) -> Tree {
    message().with("id"@, id).with("result"@, result)
}

/// The error under `error` in an answer.
pub open spec fn error_object(code: int, text: Seq<char>) -> Tree {
    obj().with("code"@, Tree::Int(code)).with("message"@, Tree::Str(text))
}

/// The answer to a request that failed.
pub open spec fn error_message(id: Tree, code: int, text: Seq<char>) -> Tree {
    message().with("id"@, id).with("error"@, error_object(code, text))
}

/// A request.
pub open spec fn request_message(id: Tree, method: Seq<char>, params: Tree) -> Tree {
    message().with("id"@, id).with("method"@, Tree::Str(method)).with("params"@, params)
}

/// A notification: a request that wants no answer.
pub open spec fn notice_message(method: Seq<char>, params: Tree) -> Tree {
    message().with("method"@, Tree::Str(method)).with("params"@, params)
}

/// The start of every message.
fn start() -> (r: Json)
    ensures
        r@ == message(),
{
    Json::object().with("jsonrpc", Json::text("2.0"))
}

/// The answer to a request.
pub fn rpc_result(id: Json, result: Json) -> (r: Json)
    ensures
        r@ == result_message(id@, result@),
{
    start().with("id", id).with("result", result)
}

/// The answer to a request that failed.
pub fn rpc_error(id: Json, code: i64, text: &str) -> (r: Json)
    ensures
        r@ == error_message(id@, code as int, text@),
{
    let e: Json = Json::object().with("code", Json::Int(code)).with("message", Json::text(text));
    start().with("id", id).with("error", e)
}

/// A request.
pub fn rpc_request(id: Json, method: &str, params: Json) -> (r: Json)
    ensures
        r@ == request_message(id@, method@, params@),
{
    start().with("id", id).with("method", Json::text(method)).with("params", params)
}

/// A notification.
pub fn rpc_notice(method: &str, params: Json) -> (r: Json)
    ensures
        r@ == notice_message(method@, params@),
{
    start().with("method", Json::text(method)).with("params", params)
}

/// Why a request failed.
pub struct RpcError {
    pub code: i64,
    pub message: String,
}

/// What an error says.
pub struct Fault {
    pub code: int,
    pub text: Seq<char>,
}

impl View for RpcError {
    type V = Fault;

    open spec fn view(&self) -> Fault {
        Fault { code: self.code as int, text: self.message@ }
    }
}

impl RpcError {
    /// An error with a code and a text.
    pub fn new(code: i64, message: &str) -> (r: RpcError)
        ensures
            r@ == (Fault { code: code as int, text: message@ }),
    {
        RpcError { code, message: own(message) }
    }

    /// The answer that reports this error.
    pub fn to_msg(&self, id: Json) -> (r: Json)
        ensures
            r@ == error_message(id@, self@.code, self@.text),
    {
        rpc_error(id, self.code, self.message.as_str())
    }

    /// An equal error.
    pub fn copy(&self) -> (r: RpcError)
        ensures
            r@ == self@,
    {
        RpcError { code: self.code, message: own(self.message.as_str()) }
    }
}

} // verus!
