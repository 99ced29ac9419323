//! The tools of a loaded capsule: what its describe call means, and which
//! tools can never be reached.

use vstd::prelude::*;
use vstd::string::*;

use crate::error::CapsuleError;
use crate::manifest::InterceptorDef;
use crate::text::{lemma_split_concat, lemma_split_whole, same, split};
use crate::topic::{covers, topic_matches};

verus! {

/// The beginning of the topic on which a tool is executed.
pub const TOOL_EXECUTE_PREFIX: &'static str = "tool.v1.execute.";

/// The descriptor of a tool.
#[derive(Debug, PartialEq)]
pub struct ToolDescriptor {
    pub name: String,
    pub description: String,
    /// JSON Schema of the tool's input.
    pub input_schema: serde_json::Value,
}

/// The result of an interceptor.
#[derive(Debug, Clone, PartialEq, Eq)]
pub enum InterceptResult {
    /// Go on with this payload.
    Continue(Vec<u8>),
    /// Stop with this payload.
    Final(Vec<u8>),
    /// Stop without one.
    Deny { reason: String },
}

/// Why the tools of a capsule could not be captured.
#[derive(Debug)]
pub enum DescribeError {
    /// The interceptor failed.
    Interceptor(CapsuleError),
    /// The interceptor refused.
    Denied(String),
    /// The payload is not of the expected shape.
    Payload(String),
}

/// What the outcome of a describe call means.
#[derive(Debug)]
pub enum DescribeStep {
    /// The tools are not known: the call could not be made. They are left
    /// absent, so that the capsule is asked in another way.
    Absent,
    /// The capsule has no tools.
    NoTools,
    /// The tools are in this payload.
    Parse(Vec<u8>),
    /// They could not be captured.
    Failed(DescribeError),
}

/// The reason with which a capsule refuses a describe call that it does not
/// know.
pub open spec fn unknown_describe() -> Seq<char> {
    "unknown hook action: tool_describe"@
}

/// Whether a refusal means that the capsule does not know the describe call.
/// The reason must be exactly that, so that no genuine refusal is taken for
/// it.
pub fn is_unknown_action(reason: &str) -> (r: bool)
    ensures
        r == (reason@ == unknown_describe()),
{
    same(reason, "unknown hook action: tool_describe")
}

/// Whether an error means that the call is not offered.
fn is_unsupported(err: &CapsuleError) -> (r: bool)
    ensures
        r == (err is NotSupported),
{
    match err {
        CapsuleError::NotSupported(_) => true,
        _ => false,
    }
}

/// What the outcome of a describe call means, case by case.
pub open spec fn describe_step_is(
    outcome: Result<InterceptResult, CapsuleError>,
    step: DescribeStep,
) -> bool {
    match outcome {
        Err(e) => if e is NotSupported {
            step is Absent
        } else {
            step == DescribeStep::Failed(DescribeError::Interceptor(e))
        },
        Ok(InterceptResult::Deny { reason }) => if reason@ == unknown_describe() {
            step is NoTools
        } else {
            step == DescribeStep::Failed(DescribeError::Denied(reason))
        },
        Ok(InterceptResult::Continue(bytes)) | Ok(InterceptResult::Final(bytes)) => if bytes@.len()
            == 0 {
            step is NoTools
        } else {
            step == DescribeStep::Parse(bytes)
        },
    }
}

/// What the outcome of a describe call means.
pub fn interpret_describe_result(outcome: Result<InterceptResult, CapsuleError>) -> (r:
    DescribeStep)
    ensures
        describe_step_is(outcome, r),
{
    let result = match outcome {
        Ok(result) => result,
        Err(e) => {
            if is_unsupported(&e) {
                return DescribeStep::Absent;
            }
            return DescribeStep::Failed(DescribeError::Interceptor(e));
        },
    };
    let payload = match result {
        InterceptResult::Continue(bytes) => bytes,
        InterceptResult::Final(bytes) => bytes,
        InterceptResult::Deny { reason } => {
            if is_unknown_action(reason.as_str()) {
                return DescribeStep::NoTools;
            }
            return DescribeStep::Failed(DescribeError::Denied(reason));
        },
    };
    if payload.len() == 0 {
        return DescribeStep::NoTools;
    }
    DescribeStep::Parse(payload)
}

/// The tools of a loaded capsule, from the outcome of its describe call and
/// what parsing a payload gave: absent where the call could not be made, else
/// the parsed tools, or none where there is nothing to parse.
pub fn describe_loaded_capsule(
    outcome: Result<InterceptResult, CapsuleError>,
    parsed: Result<Vec<ToolDescriptor>, String>,
) -> (r: Result<Option<Vec<ToolDescriptor>>, DescribeError>)
    ensures
        match outcome {
            Err(e) => if e is NotSupported {
                r matches Ok(None)
            } else {
                r == Err::<Option<Vec<ToolDescriptor>>, DescribeError>(
                    DescribeError::Interceptor(e),
                )
            },
            Ok(InterceptResult::Deny { reason }) => if reason@ == unknown_describe() {
                r matches Ok(Some(tools)) && tools@.len() == 0
            } else {
                r == Err::<Option<Vec<ToolDescriptor>>, DescribeError>(
                    DescribeError::Denied(reason),
                )
            },
            Ok(InterceptResult::Continue(bytes)) | Ok(InterceptResult::Final(bytes)) =>
                if bytes@.len() == 0 {
                    r matches Ok(Some(tools)) && tools@.len() == 0
                } else {
                    match parsed {
                        Ok(tools) => r == Ok::<Option<Vec<ToolDescriptor>>, DescribeError>(
                            Some(tools),
                        ),
                        Err(e) => r == Err::<Option<Vec<ToolDescriptor>>, DescribeError>(
                            DescribeError::Payload(e),
                        ),
                    }
                },
        },
{
    let step = interpret_describe_result(outcome);
    match step {
        DescribeStep::Absent => Ok(None),
        DescribeStep::NoTools => Ok(Some(Vec::new())),
        DescribeStep::Parse(_) => match parsed {
            Ok(tools) => Ok(Some(tools)),
            Err(e) => Err(DescribeError::Payload(e)),
        },
        DescribeStep::Failed(e) => Err(e),
    }
}

/// Whether some interceptor is routed the executions of a tool.
pub open spec fn is_routed(tool: ToolDescriptor, interceptors: Seq<InterceptorDef>) -> bool {
    exists|i: int|
        0 <= i < interceptors.len() && covers(
            (#[trigger] interceptors[i]).event@,
            TOOL_EXECUTE_PREFIX@ + tool.name@,
        )
}

/// The names of the tools that no interceptor is routed, in order.
pub open spec fn unrouted(tools: Seq<ToolDescriptor>, interceptors: Seq<InterceptorDef>) -> Seq<
    Seq<char>,
>
    decreases tools.len(),
{
    if tools.len() == 0 {
        Seq::empty()
    } else {
        let rest = unrouted(tools.drop_last(), interceptors);
        if is_routed(tools.last(), interceptors) {
            rest
        } else {
            rest.push(tools.last().name@)
        }
    }
}

/// The texts of a list of string slices.
pub open spec fn slice_texts(list: Seq<&str>) -> Seq<Seq<char>> {
    list.map_values(|s: &str| s@)
}

/// The tools that are advertised but can never be executed, because no
/// interceptor subscribes to their topic.
pub fn tools_missing_execute_route<'a>(
    tools: &'a [ToolDescriptor],
    interceptors: &[InterceptorDef],
) -> (r: Vec<&'a str>)
    ensures
        slice_texts(r@) == unrouted(tools@, interceptors@),
{
    let mut names: Vec<&'a str> = Vec::new();
    assert(slice_texts(names@) =~= unrouted(tools@.take(0), interceptors@));
    for i in 0..tools.len()
        invariant
            slice_texts(names@) == unrouted(tools@.take(i as int), interceptors@),
    {
        proof {
            assert(tools@.take(i + 1).drop_last() =~= tools@.take(i as int));
            assert(tools@.take(i + 1).last() == tools@[i as int]);
        }
        let mut topic = TOOL_EXECUTE_PREFIX.to_owned();
        topic.append(tools[i].name.as_str());
        let mut routed = false;
        for j in 0..interceptors.len()
            invariant
                topic@ == TOOL_EXECUTE_PREFIX@ + tools@[i as int].name@,
                routed == exists|k: int|
                    0 <= k < j && covers((#[trigger] interceptors@[k]).event@, topic@),
        {
            if topic_matches(topic.as_str(), interceptors[j].event.as_str()) {
                assert(covers(interceptors@[j as int].event@, topic@));
                routed = true;
            }
        }
        assert(routed == is_routed(tools@[i as int], interceptors@));
        if !routed {
            let ghost before = names@;
            let name = tools[i].name.as_str();
            names.push(name);
            assert(slice_texts(names@) =~= slice_texts(before).push(name@));
        }
    }
    assert(tools@.take(tools@.len() as int) =~= tools@);
    names
}

/// Without interceptors every tool is out of reach.
pub proof fn nothing_is_routed_without_interceptors(tools: Seq<ToolDescriptor>)
    ensures
        unrouted(tools, Seq::empty()) == tools.map_values(|t: ToolDescriptor| t.name@),
    decreases tools.len(),
{
    let names = tools.map_values(|t: ToolDescriptor| t.name@);
    if tools.len() > 0 {
        nothing_is_routed_without_interceptors(tools.drop_last());
        assert(names =~= tools.drop_last().map_values(|t: ToolDescriptor| t.name@).push(
            tools.last().name@,
        ));
    } else {
        assert(names =~= Seq::empty());
    }
}

/// A subscription to every tool routes each tool whose name is one segment.
pub proof fn wildcard_subscription_routes_every_tool(tool: ToolDescriptor, def: InterceptorDef)
    requires
        def.event@ == TOOL_EXECUTE_PREFIX@ + "*"@,
        !tool.name@.contains('.'),
    ensures
        is_routed(tool, seq![def]),
{
    let topic = TOOL_EXECUTE_PREFIX@ + tool.name@;
    reveal_strlit("tool.v1.execute.");
    reveal_strlit("*");
    assert(TOOL_EXECUTE_PREFIX@ == "tool.v1.execute."@);
    let stem = TOOL_EXECUTE_PREFIX@.drop_last();
    assert(TOOL_EXECUTE_PREFIX@ =~= stem + seq!['.']);
    assert(topic =~= stem + seq!['.'] + tool.name@);
    assert(def.event@ =~= stem + seq!['.'] + "*"@);
    lemma_split_concat(stem, tool.name@, '.');
    lemma_split_concat(stem, "*"@, '.');
    lemma_split_whole(tool.name@, '.');
    assert(!"*"@.contains('.')) by {
        assert("*"@ =~= seq!['*']);
    }
    lemma_split_whole("*"@, '.');
    let p = split(def.event@, '.');
    let t = split(topic, '.');
    assert forall|i: int| 0 <= i < p.len() implies #[trigger] p[i] == "*"@ || p[i] == t[i] by {
        if i < split(stem, '.').len() {
            assert(p[i] == split(stem, '.')[i]);
            assert(t[i] == split(stem, '.')[i]);
        }
    }
    assert(covers(seq![def][0].event@, topic));
}

/// A tool is reported as out of reach exactly where no interceptor covers its
/// topic.
pub proof fn unreachable_tools_are_reported(
    tools: Seq<ToolDescriptor>,
    interceptors: Seq<InterceptorDef>,
    name: Seq<char>,
)
    ensures
        unrouted(tools, interceptors).contains(name) <==> exists|i: int|
            0 <= i < tools.len() && (#[trigger] tools[i]).name@ == name && forall|k: int|
                0 <= k < interceptors.len() ==> !covers(
                    (#[trigger] interceptors[k]).event@,
                    "tool.v1.execute."@ + tools[i].name@,
                ),
        unrouted(tools, interceptors).len() <= tools.len(),
    decreases tools.len(),
{
    if tools.len() > 0 {
        let front = tools.drop_last();
        let rest = unrouted(front, interceptors);
        let all = unrouted(tools, interceptors);
        unreachable_tools_are_reported(front, interceptors, name);
        if all.contains(name) {
            let k = choose|k: int| 0 <= k < all.len() && all[k] == name;
            if k < rest.len() {
                assert(rest[k] == name);
                let i = choose|i: int|
                    0 <= i < front.len() && (#[trigger] front[i]).name@ == name && forall|k: int|
                        0 <= k < interceptors.len() ==> !covers(
                            (#[trigger] interceptors[k]).event@,
                            "tool.v1.execute."@ + front[i].name@,
                        );
                assert(tools[i].name@ == name);
            } else {
                assert(tools[tools.len() - 1].name@ == name);
            }
        }
        if exists|i: int|
            0 <= i < tools.len() && (#[trigger] tools[i]).name@ == name && forall|k: int|
                0 <= k < interceptors.len() ==> !covers(
                    (#[trigger] interceptors[k]).event@,
                    "tool.v1.execute."@ + tools[i].name@,
                ) {
            let i = choose|i: int|
                0 <= i < tools.len() && (#[trigger] tools[i]).name@ == name && forall|k: int|
                    0 <= k < interceptors.len() ==> !covers(
                        (#[trigger] interceptors[k]).event@,
                        "tool.v1.execute."@ + tools[i].name@,
                    );
            if i < front.len() {
                assert(front[i].name@ == name);
                let k = choose|k: int| 0 <= k < rest.len() && rest[k] == name;
                assert(all[k] == name);
            } else {
                assert(!is_routed(tools.last(), interceptors));
                assert(all[all.len() - 1] == name);
            }
        }
    }
}

/// Subscribing to one more topic puts no tool out of reach, and puts the tool of
/// that topic into reach.
pub proof fn subscribing_only_adds_routes(
    tool: ToolDescriptor,
    interceptors: Seq<InterceptorDef>,
    added: InterceptorDef,
)
    ensures
        is_routed(tool, interceptors) ==> is_routed(tool, interceptors.push(added)),
        added.event@ == "tool.v1.execute."@ + tool.name@ ==> is_routed(
            tool,
            interceptors.push(added),
        ),
{
    let more = interceptors.push(added);
    let topic = TOOL_EXECUTE_PREFIX@ + tool.name@;
    assert(more[interceptors.len() as int] == added);
    if is_routed(tool, interceptors) {
        let i = choose|i: int|
            0 <= i < interceptors.len() && covers((#[trigger] interceptors[i]).event@, topic);
        assert(more[i] == interceptors[i]);
    }
    if added.event@ == topic {
        let p = split(topic, '.');
        assert forall|i: int| 0 <= i < p.len() implies #[trigger] p[i] == "*"@ || p[i] == p[i] by {}
        assert(covers(more[interceptors.len() as int].event@, topic));
    }
}

/// Tools are parsed exactly where the call came back with a payload; they are
/// left absent exactly where the call is not offered, and are none where the
/// payload is empty or the capsule does not know the call. Every other error or
/// refusal is handed on.
pub proof fn describe_calls_mean_what_they_say(
    outcome: Result<InterceptResult, CapsuleError>,
    step: DescribeStep,
)
    requires
        describe_step_is(outcome, step),
    ensures
        step is Absent <==> (outcome matches Err(e) && e is NotSupported),
        step is Parse <==> (outcome matches Ok(InterceptResult::Continue(b)) && b@.len() > 0) || (
        outcome matches Ok(InterceptResult::Final(b)) && b@.len() > 0),
        step matches DescribeStep::Parse(b) ==> outcome == Ok::<InterceptResult, CapsuleError>(
            InterceptResult::Continue(b),
        ) || outcome == Ok::<InterceptResult, CapsuleError>(InterceptResult::Final(b)),
        step is NoTools <==> (outcome matches Ok(InterceptResult::Continue(b)) && b@.len() == 0)
            || (outcome matches Ok(InterceptResult::Final(b)) && b@.len() == 0) || (
        outcome matches Ok(InterceptResult::Deny { reason }) && reason@
            == "unknown hook action: tool_describe"@),
        step is Failed <==> (outcome matches Err(e) && !(e is NotSupported)) || (
        outcome matches Ok(InterceptResult::Deny { reason }) && reason@
            != "unknown hook action: tool_describe"@),
{
}

}
