use ethereum_trading_mcp::rpc::{
    execution_failure, reply, route, CallParams, Route, INTERNAL_ERROR, INVALID_PARAMS,
    METHOD_NOT_FOUND,
};
use ethereum_trading_mcp::tools::{ToolError, ToolKind};
use serde_json::Value;

fn params(name: Option<&str>) -> CallParams {
    CallParams { name: name.map(|n| n.to_string()) }
}

#[test]
fn unknown_method_is_method_not_found_with_same_id() {
    let id = Some(Value::from(7));
    match route("foo", None) {
        Route::Reject(e) => {
            assert_eq!(e.code, METHOD_NOT_FOUND);
            assert_eq!(e.message, "Method not found");
            let r = reply(id.clone(), Err(e));
            assert_eq!(r.id, id);
            assert!(r.result.is_none());
            assert_eq!(r.error.unwrap().code, -32601);
        }
        _ => panic!("expected a rejection"),
    }
}

#[test]
fn call_without_name_is_invalid_params() {
    match route("tools/call", Some(&params(None))) {
        Route::Reject(e) => {
            assert_eq!(e.code, -32602);
            assert_eq!(e.message, "Missing 'name' parameter");
        }
        _ => panic!("expected a rejection"),
    }
    match route("tools/call", None) {
        Route::Reject(e) => {
            assert_eq!(e.code, INVALID_PARAMS);
            assert_eq!(e.message, "Missing params");
        }
        _ => panic!("expected a rejection"),
    }
}

#[test]
fn call_routes_by_tool_name() {
    assert!(matches!(route("tools/list", None), Route::ListTools));
    assert!(matches!(
        route("tools/call", Some(&params(Some("get_balance")))),
        Route::Invoke(ToolKind::Balance)
    ));
    assert!(matches!(
        route("tools/call", Some(&params(Some("swap_tokens")))),
        Route::Invoke(ToolKind::Swap)
    ));
    match route("tools/call", Some(&params(Some("nope")))) {
        Route::Reject(e) => {
            assert_eq!(e.code, METHOD_NOT_FOUND);
            assert_eq!(e.message, "Tool not found: nope");
        }
        _ => panic!("expected a rejection"),
    }
}

#[test]
fn execution_failures_and_replies() {
    let e = execution_failure(&ToolError::Argument("Missing address".to_string()));
    assert_eq!(e.code, INTERNAL_ERROR);
    assert_eq!(e.message, "Tool execution failed: Missing address");
    let r = reply(None, Ok(Value::from("done")));
    assert_eq!(r.result, Some(Value::from("done")));
    assert!(r.error.is_none());
    assert!(r.id.is_none());
}
