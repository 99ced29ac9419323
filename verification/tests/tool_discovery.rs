use astrid_capsule::error::CapsuleError;
use astrid_capsule::manifest::InterceptorDef;
use astrid_capsule::tool_discovery::{
    describe_loaded_capsule, interpret_describe_result, is_unknown_action,
    tools_missing_execute_route, DescribeError, DescribeStep, InterceptResult, ToolDescriptor,
};

/// A describe call whose payload is never parsed.
fn describe(
    outcome: Result<InterceptResult, CapsuleError>,
) -> Result<Option<Vec<ToolDescriptor>>, DescribeError> {
    describe_loaded_capsule(outcome, Err("not parsed".into()))
}

/// A pool-less run-loop capsule's `NotSupported` describe maps to
/// `None` (surface UNKNOWN → leave absent so the describe fan-out fires), NOT
/// to a captured-empty `Some([])` which reads as "0 tools" and suppresses it.
#[test]
fn pool_less_notsupported_maps_to_none_for_fan_out() {
    let out = describe(Err(CapsuleError::NotSupported("no interceptors".into())));
    assert!(matches!(out, Ok(None)));
}

/// A capsule that CAN run interceptors but has no `#[astrid::tool]` (the
/// broker) is captured-empty (`Some([])`), not absent — nothing to fan out.
#[test]
fn unknown_action_deny_is_captured_empty_not_absent() {
    let out = describe(Ok(InterceptResult::Deny {
        reason: "unknown hook action: tool_describe".into(),
    }));
    assert!(matches!(out, Ok(Some(ref v)) if v.is_empty()));
}

#[test]
fn described_tools_are_captured_as_some() {
    let payload = serde_json::to_vec(&payload_with_one_tool()).unwrap();
    match interpret_describe_result(Ok(InterceptResult::Continue(payload.clone()))) {
        DescribeStep::Parse(bytes) => assert_eq!(bytes, payload),
        other => panic!("unexpected step {other:?}"),
    }
    let tools = describe_loaded_capsule(
        Ok(InterceptResult::Continue(payload)),
        Ok(vec![tool("t")]),
    )
    .expect("ok")
    .expect("some");
    assert_eq!(tools.len(), 1);
    assert_eq!(tools[0].name, "t");
}

fn payload_with_one_tool() -> serde_json::Value {
    serde_json::from_str(
        "{\"tools\": [{ \"name\": \"t\", \"description\": \"d\", \
         \"input_schema\": { \"type\": \"object\" } }]}",
    )
    .unwrap()
}

#[test]
fn empty_describe_payload_is_captured_empty() {
    let out = describe(Ok(InterceptResult::Continue(Vec::new())));
    assert!(matches!(out, Ok(Some(ref v)) if v.is_empty()));
}

#[test]
fn genuine_deny_surfaces_as_error() {
    let out = describe(Ok(InterceptResult::Deny {
        reason: "capability denied: caps:token:mint".into(),
    }));
    assert!(out.is_err());
}

#[test]
fn unknown_action_deny_matches_only_tool_describe() {
    // A capsule with interceptors but no `#[astrid::tool]` (e.g. the broker)
    // denies the unknown `tool_describe` action — that is "no tools".
    assert!(is_unknown_action("unknown hook action: tool_describe"));
    // An unknown action for a DIFFERENT endpoint is not our signal — don't
    // swallow it (this fn is only ever called for `tool_describe`, but the
    // exact match keeps it honest).
    assert!(!is_unknown_action("unknown hook action: other_action"));
    // A genuine refusal must NOT be swallowed as "no tools", even if its
    // message happens to contain the phrase.
    assert!(!is_unknown_action("capability denied: caps:token:mint"));
    assert!(!is_unknown_action(
        "policy blocked: unknown hook action is not allowed here"
    ));
}

fn tool(name: &str) -> ToolDescriptor {
    ToolDescriptor {
        name: name.into(),
        description: String::new(),
        input_schema: serde_json::from_str("{ \"type\": \"object\" }").unwrap(),
    }
}

fn intercept(event: &str) -> InterceptorDef {
    InterceptorDef {
        event: event.into(),
        action: "tool_execute_x".into(),
        priority: 100,
    }
}

#[test]
fn missing_execute_route_flags_only_the_unrouted_tool() {
    // `upcase` is subscribed; `reverse_text` is advertised but has no
    // `tool.v1.execute.reverse_text` route — it will never execute.
    let tools = [tool("reverse_text"), tool("upcase")];
    let subs = [intercept("tool.v1.execute.upcase")];
    assert_eq!(
        tools_missing_execute_route(&tools, &subs),
        vec!["reverse_text"]
    );
}

#[test]
fn missing_execute_route_exact_subscription_is_routed() {
    let tools = [tool("reverse_text")];
    let subs = [intercept("tool.v1.execute.reverse_text")];
    assert!(tools_missing_execute_route(&tools, &subs).is_empty());
}

#[test]
fn missing_execute_route_wildcard_subscription_routes_all() {
    // A single-segment wildcard covers every tool — must NOT be flagged
    // (mirrors the dispatcher's own matcher).
    let tools = [tool("reverse_text"), tool("upcase")];
    let subs = [intercept("tool.v1.execute.*")];
    assert!(tools_missing_execute_route(&tools, &subs).is_empty());
}

#[test]
fn missing_execute_route_no_subscriptions_flags_every_tool() {
    let tools = [tool("a"), tool("b")];
    assert_eq!(tools_missing_execute_route(&tools, &[]), vec!["a", "b"]);
}

#[test]
fn missing_execute_route_ignores_unrelated_subscriptions() {
    // A subscription to a different topic family doesn't route the tool.
    let tools = [tool("reverse_text")];
    let subs = [
        intercept("session.v1.event.*"),
        intercept("tool.v1.execute.other_tool"),
    ];
    assert_eq!(
        tools_missing_execute_route(&tools, &subs),
        vec!["reverse_text"]
    );
}

#[test]
fn failures_of_a_describe_call_are_told_apart() {
    assert!(matches!(
        describe(Err(CapsuleError::WasmError("trap".into()))),
        Err(DescribeError::Interceptor(CapsuleError::WasmError(_)))
    ));
    match describe(Ok(InterceptResult::Deny { reason: "no".into() })) {
        Err(DescribeError::Denied(reason)) => assert_eq!(reason, "no"),
        other => panic!("unexpected result {other:?}"),
    }
    match describe(Ok(InterceptResult::Final(vec![1]))) {
        Err(DescribeError::Payload(text)) => assert_eq!(text, "not parsed"),
        other => panic!("unexpected result {other:?}"),
    }
}
