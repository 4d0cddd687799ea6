//! The JSON-RPC request dispatcher: routing, protocol errors and responses.
use crate::text::{owned, text_eq};
use crate::tools::{find_tool, tool_name, ToolError, ToolKind};
use serde_json::Value;
use vstd::prelude::*;
use vstd::string::*;

verus! {

/// `serde_json::Value`, carried through unread: request ids and tool results.
#[verifier::external_type_specification]
#[verifier::external_body]
pub struct ExValue(serde_json::Value);

/// The method or the tool does not exist.
pub const METHOD_NOT_FOUND: i32 = -32601;

/// A parameter is missing or malformed.
pub const INVALID_PARAMS: i32 = -32602;

/// A tool failed while it ran.
pub const INTERNAL_ERROR: i32 = -32603;

/// A protocol error: a fixed code and a message.
#[derive(Clone, Debug)]
pub struct RpcError {
    pub code: i32,
    pub message: String,
}

/// The parameters of a tool call, as far as the dispatcher reads them.
#[derive(Clone, Debug)]
pub struct CallParams {
    /// The requested tool, if `params.name` is a string.
    pub name: Option<String>,
}

/// A request: its method, its call parameters when `params` is present, and
/// its id, echoed back unchanged.
pub struct Request {
    pub method: String,
    pub params: Option<CallParams>,
    pub id: Option<Value>,
}

/// A response: exactly one of result and error, and the request's id.
pub struct Response {
    pub result: Option<Value>,
    pub error: Option<RpcError>,
    pub id: Option<Value>,
}

/// What the dispatcher does with a request.
#[derive(Clone, Debug)]
pub enum Route {
    /// Answer with the tool descriptors.
    ListTools,
    /// Run the tool and answer with its outcome.
    Invoke(ToolKind),
    /// Answer with a protocol error.
    Reject(RpcError),
}

/// The method that lists the tools.
pub open spec fn list_method() -> Seq<char> {
    "tools/list"@
}

/// The method that calls a tool.
pub open spec fn call_method() -> Seq<char> {
    "tools/call"@
}

impl Response {
    /// The response is well formed: exactly one of result and error.
    pub open spec fn wf(&self) -> bool {
        self.result is Some != self.error is Some
    }
}

/// Decides what to do with a request of `method` with call parameters `params`.
pub fn route(method: &str, params: Option<&CallParams>) -> (r: Route)
    ensures
        method@ == list_method() ==> r is ListTools,
        method@ != list_method() && method@ != call_method() ==> (r matches Route::Reject(e)
            && e.code == METHOD_NOT_FOUND && e.message@ == "Method not found"@),
        method@ == call_method() && params is None ==> (r matches Route::Reject(e) && e.code
            == INVALID_PARAMS && e.message@ == "Missing params"@),
        params matches Some(p) ==> (method@ == call_method() && p.name is None ==> (r matches Route::Reject(
            e,
        ) && e.code == INVALID_PARAMS && e.message@ == "Missing 'name' parameter"@)),
        params matches Some(p) ==> (method@ == call_method() && p.name is Some ==> ((r matches Route::Invoke(
            k,
        ) && tool_name(k) == p.name->0@) || (r matches Route::Reject(e) && e.code
            == METHOD_NOT_FOUND && e.message@ == "Tool not found: "@ + p.name->0@ && forall|
            k: ToolKind,
        | tool_name(k) != p.name->0@))),
{
    proof {
        reveal_strlit("tools/list");
        reveal_strlit("tools/call");
        assert(list_method()[6] == 'l');
        assert(call_method()[6] == 'c');
        assert(list_method() != call_method());
    }
    if text_eq(method, "tools/list") {
        Route::ListTools
    } else if text_eq(method, "tools/call") {
        match params {
            None => Route::Reject(RpcError { code: INVALID_PARAMS, message: owned("Missing params") }),
            Some(p) => match &p.name {
                None => Route::Reject(
                    RpcError { code: INVALID_PARAMS, message: owned("Missing 'name' parameter") },
                ),
                Some(n) => match find_tool(n.as_str()) {
                    Some(k) => Route::Invoke(k),
                    None => Route::Reject(
                        RpcError {
                            code: METHOD_NOT_FOUND,
                            message: owned("Tool not found: ").concat(n.as_str()),
                        },
                    ),
                },
            },
        }
    } else {
        Route::Reject(RpcError { code: METHOD_NOT_FOUND, message: owned("Method not found") })
    }
}

/// The protocol error for a tool that failed while it ran.
pub fn execution_failure(e: &ToolError) -> (r: RpcError)
    ensures
        r.code == INTERNAL_ERROR,
        r.message@ == "Tool execution failed: "@ + e.message_spec(),
{
    let m = e.message();
    RpcError { code: INTERNAL_ERROR, message: owned("Tool execution failed: ").concat(m.as_str()) }
}

/// The response to a request with `id`: the result on success, else the error.
pub fn reply(id: Option<Value>, outcome: Result<Value, RpcError>) -> (r: Response)
    ensures
        r.id == id,
        r.wf(),
        outcome matches Ok(v) ==> r.result == Some(v),
        outcome matches Err(e) ==> r.error matches Some(x) && x.code == e.code && x.message@
            == e.message@,
{
    match outcome {
        Ok(v) => Response { result: Some(v), error: None, id },
        Err(e) => Response { result: None, error: Some(e), id },
    }
}

} // verus!
