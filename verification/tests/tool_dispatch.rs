use behest::tool_dispatch::{build_source_map, split_tool_calls, SourceMap, ToolDispatchPlan, TurnWithToolsOutcome};
use behest::tool_types::{ToolCall, ToolSource};

fn call(name: &str) -> ToolCall {
    ToolCall::new(format!("id_{name}"), name.to_string(), "{}".to_string())
}

fn source_map(pairs: &[(&str, ToolSource)]) -> SourceMap {
    build_source_map(pairs.iter().map(|(n, s)| (n.to_string(), *s)).collect())
}

#[test]
fn split_all_server_when_no_map() {
    let calls = vec![call("a"), call("b"), call("c")];
    let plan = split_tool_calls(&calls, &SourceMap::new());
    assert_eq!(plan.server_calls.len(), 3);
    assert!(plan.client_calls.is_empty());
}

#[test]
fn split_separates_client_and_server() {
    let calls = vec![call("a"), call("b"), call("c")];
    let map = source_map(&[("b", ToolSource::Client)]);
    let plan = split_tool_calls(&calls, &map);
    assert_eq!(plan.server_calls.len(), 2);
    assert_eq!(plan.client_calls.len(), 1);
    assert_eq!(plan.client_calls[0].name, "b");
}

#[test]
fn split_preserves_order_within_groups() {
    let calls = vec![call("s1"), call("c1"), call("s2"), call("c2")];
    let map = source_map(&[("c1", ToolSource::Client), ("c2", ToolSource::Client)]);
    let plan = split_tool_calls(&calls, &map);
    assert_eq!(plan.server_calls.len(), 2);
    assert_eq!(plan.server_calls[0].name, "s1");
    assert_eq!(plan.server_calls[1].name, "s2");
    assert_eq!(plan.client_calls.len(), 2);
    assert_eq!(plan.client_calls[0].name, "c1");
    assert_eq!(plan.client_calls[1].name, "c2");
}

#[test]
fn split_empty_input() {
    let plan = split_tool_calls(&[], &SourceMap::new());
    assert!(plan.is_empty());
    assert_eq!(plan.total_calls(), 0);
}

#[test]
fn from_plan_server_only() {
    let plan = ToolDispatchPlan { server_calls: vec![call("a")], client_calls: Vec::new() };
    let outcome = TurnWithToolsOutcome::from_plan(plan);
    assert!(matches!(outcome, TurnWithToolsOutcome::ServerOnly { .. }));
    assert!(!outcome.requires_caller());
    assert_eq!(outcome.server_calls().len(), 1);
    assert!(outcome.client_calls().is_empty());
}

#[test]
fn from_plan_client_only() {
    let plan = ToolDispatchPlan { server_calls: Vec::new(), client_calls: vec![call("a")] };
    let outcome = TurnWithToolsOutcome::from_plan(plan);
    assert!(matches!(outcome, TurnWithToolsOutcome::ClientOnly { .. }));
    assert!(outcome.requires_caller());
    assert_eq!(outcome.client_calls().len(), 1);
    assert!(outcome.server_calls().is_empty());
}

#[test]
fn from_plan_mixed() {
    let plan = ToolDispatchPlan { server_calls: vec![call("s")], client_calls: vec![call("c")] };
    let outcome = TurnWithToolsOutcome::from_plan(plan);
    assert!(matches!(outcome, TurnWithToolsOutcome::Mixed { .. }));
    assert!(outcome.requires_caller());
    assert_eq!(outcome.server_calls().len(), 1);
    assert_eq!(outcome.client_calls().len(), 1);
}

#[test]
fn from_plan_empty() {
    let plan = ToolDispatchPlan::default();
    let outcome = TurnWithToolsOutcome::from_plan(plan);
    assert!(matches!(outcome, TurnWithToolsOutcome::Empty));
    assert!(!outcome.requires_caller());
}

#[test]
fn build_source_map_collects_pairs() {
    let map = build_source_map(vec![
        ("a".to_string(), ToolSource::Server),
        ("b".to_string(), ToolSource::Client),
    ]);
    assert_eq!(map.len(), 2);
    assert_eq!(map.get("a"), Some(ToolSource::Server));
    assert_eq!(map.get("b"), Some(ToolSource::Client));
}

#[test]
fn unknown_tool_defaults_to_server() {
    let calls = vec![call("mystery")];
    let plan = split_tool_calls(&calls, &SourceMap::new());
    assert_eq!(plan.server_calls.len(), 1);
    assert!(plan.client_calls.is_empty());
}

#[test]
fn later_pair_replaces_earlier_one() {
    let map = build_source_map(vec![
        ("a".to_string(), ToolSource::Client),
        ("a".to_string(), ToolSource::Server),
    ]);
    assert_eq!(map.len(), 1);
    assert_eq!(map.get("a"), Some(ToolSource::Server));
}
