use fanin_mcp::advert::configured_toc;
use fanin_mcp::check::{check_servers, explicit_tools, record_inventory, CheckResult};
use fanin_mcp::config::{default_timeout_secs, NamespaceConfig, ServerConfig, TomlConfig};
use fanin_mcp::error::ToolError;
use fanin_mcp::handlers::{find_tool_schema, plan_get_tool_schema, plan_invoke_tool};
use fanin_mcp::json::Json;
use fanin_mcp::namespace::ActiveNamespace;

fn server(description: Option<&str>) -> ServerConfig {
    ServerConfig {
        transport: None,
        command: Some("probe".to_string()),
        endpoint: None,
        args: Vec::new(),
        cwd: None,
        env: Vec::new(),
        headers: Vec::new(),
        log_file: None,
        timeout_secs: default_timeout_secs(),
        description: description.map(|d| d.to_string()),
    }
}

fn ns(servers: &[&str], tools: &[(&str, &[&str])], extends: &[&str]) -> NamespaceConfig {
    NamespaceConfig {
        servers: servers.iter().map(|s| s.to_string()).collect(),
        tools: tools
            .iter()
            .map(|(s, ts)| (s.to_string(), ts.iter().map(|t| t.to_string()).collect()))
            .collect(),
        extends: extends.iter().map(|p| p.to_string()).collect(),
    }
}

fn config(servers: &[(&str, Option<&str>)], namespaces: Vec<(&str, NamespaceConfig)>) -> TomlConfig {
    let c = TomlConfig {
        servers: servers.iter().map(|(n, d)| (n.to_string(), server(*d))).collect(),
        namespaces: namespaces.into_iter().map(|(n, c)| (n.to_string(), c)).collect(),
    };
    for (name, _) in &c.namespaces {
        assert!(c.validate(name).is_ok(), "fixture namespace {name} must validate");
    }
    c
}

fn call(name: &str) -> Vec<(String, Json)> {
    vec![
        ("name".to_string(), Json::Str(name.to_string())),
        ("arguments".to_string(), Json::Object(Vec::new())),
    ]
}

#[test]
fn extends_single_and_transitive_inheritance_union_servers() {
    let c = config(
        &[("atlas", None), ("beacon", None)],
        vec![
            ("repo-base", ns(&["beacon"], &[], &[])),
            ("repo-read", ns(&["atlas"], &[], &["repo-base"])),
            ("team", ns(&[], &[], &["repo-read"])),
        ],
    );
    let acl = ActiveNamespace::new(&c, "team");
    assert_eq!(acl.name(), "team");
    assert_eq!(acl.allowed_servers(), vec!["atlas".to_string(), "beacon".to_string()]);
}

#[test]
fn extends_multiple_parents_intersect_same_server_tools() {
    let c = config(
        &[("postgres", None)],
        vec![
            ("analyst", ns(&["postgres"], &[("postgres", &["query", "describe_table"])], &[])),
            ("auditor", ns(&["postgres"], &[("postgres", &["query"])], &[])),
            ("team", ns(&[], &[], &["analyst", "auditor"])),
        ],
    );
    let acl = ActiveNamespace::new(&c, "team");
    let a = call("postgres__query");
    let (server, tool) = plan_get_tool_schema(Some(&c), Some(&acl), Some(&a)).unwrap();
    let live = vec![("echo_ok".to_string(), Json::Object(Vec::new()))];
    assert!(matches!(find_tool_schema(&server, &tool, &live), Err(ToolError::UnknownTool { .. })));
    let a = call("postgres__describe_table");
    assert!(matches!(
        plan_get_tool_schema(Some(&c), Some(&acl), Some(&a)),
        Err(ToolError::NamespaceDenied { .. })
    ));
}

#[test]
fn extends_unfiltered_and_restricted_parent_is_restricted() {
    let c = config(
        &[("postgres", None)],
        vec![
            ("unfiltered", ns(&["postgres"], &[], &[])),
            ("restricted", ns(&["postgres"], &[("postgres", &["echo_ok"])], &[])),
            ("team", ns(&[], &[], &["unfiltered", "restricted"])),
        ],
    );
    let acl = ActiveNamespace::new(&c, "team");
    assert!(acl.is_tool_allowed("postgres", "echo_ok"));
    assert!(!acl.is_tool_allowed("postgres", "dangerous_noop"));
}

#[test]
fn extends_disjoint_filters_are_none() {
    let c = config(
        &[("postgres", None)],
        vec![
            ("reader", ns(&["postgres"], &[("postgres", &["echo_ok"])], &[])),
            ("writer", ns(&["postgres"], &[("postgres", &["dangerous_noop"])], &[])),
            ("team", ns(&[], &[], &["reader", "writer"])),
        ],
    );
    let acl = ActiveNamespace::new(&c, "team");
    assert!(acl.is_server_allowed("postgres"));
    let filters = acl.effective_tool_filters();
    assert_eq!(filters.len(), 1);
    assert_eq!(filters[0].0, "postgres");
    assert!(filters[0].1.is_empty());
    for tool in ["echo_ok", "dangerous_noop"] {
        let a = call(&format!("postgres__{tool}"));
        assert!(matches!(
            plan_invoke_tool(Some(&c), Some(&acl), Some(&a)),
            Err(ToolError::NamespaceDenied { .. })
        ));
    }
}

#[test]
fn extends_unlisted_parent_is_identity() {
    let c = config(
        &[("postgres", None)],
        vec![
            ("broad", ns(&["postgres"], &[("postgres", &["echo_ok", "dangerous_noop"])], &[])),
            ("narrow", ns(&["postgres"], &[("postgres", &["echo_ok"])], &[])),
            ("unrelated", ns(&[], &[], &[])),
            ("team", ns(&[], &[], &["broad", "narrow", "unrelated"])),
        ],
    );
    let acl = ActiveNamespace::new(&c, "team");
    assert!(acl.is_tool_allowed("postgres", "echo_ok"));
    assert!(!acl.is_tool_allowed("postgres", "dangerous_noop"));
}

#[test]
fn parent_filter_narrows_a_server_the_child_lists_itself() {
    let c = config(
        &[("postgres", None)],
        vec![
            ("parent", ns(&["postgres"], &[("postgres", &["query"])], &[])),
            ("child", ns(&["postgres"], &[("postgres", &["query", "drop"])], &["parent"])),
        ],
    );
    let acl = ActiveNamespace::new(&c, "child");
    assert!(acl.is_tool_allowed("postgres", "query"));
    assert!(!acl.is_tool_allowed("postgres", "drop"));
}

#[test]
fn resolved_namespace_preserves_absent_all_and_present_empty_none() {
    let c = config(
        &[("alpha", None), ("beta", None)],
        vec![
            ("parent", ns(&["alpha", "beta"], &[("beta", &[])], &[])),
            ("child", ns(&[], &[], &["parent"])),
        ],
    );
    let acl = ActiveNamespace::new(&c, "child");
    let filters = acl.effective_tool_filters();
    assert!(!filters.iter().any(|(s, _)| s == "alpha"));
    assert!(filters.iter().any(|(s, l)| s == "beta" && l.is_empty()));
    assert!(acl.is_server_allowed("beta"));
    assert!(acl.is_tool_allowed("alpha", "anything"));
    assert!(!acl.is_tool_allowed("beta", "anything"));
}

#[test]
fn advertisement_follows_extends() {
    let c = config(
        &[("atlas", Some("Inherited atlas capability")), ("beacon", Some("Local beacon capability"))],
        vec![
            ("repo-read", ns(&["atlas"], &[], &[])),
            ("team", ns(&["beacon"], &[], &["repo-read"])),
        ],
    );
    let acl = ActiveNamespace::new(&c, "team");
    let toc = configured_toc(Some(&c), Some(&acl), &Vec::new()).unwrap();
    assert_eq!(
        toc,
        "\n\nConfigured servers:\n- atlas: Inherited atlas capability\n- beacon: Local beacon capability\n"
    );
}

#[test]
fn check_follows_extends() {
    let c = config(
        &[("atlas", None), ("beacon", None)],
        vec![
            ("repo-read", ns(&["atlas"], &[], &[])),
            ("team", ns(&["beacon"], &[], &["repo-read"])),
        ],
    );
    let acl = ActiveNamespace::new(&c, "team");
    assert_eq!(check_servers(&acl, None).unwrap(), vec!["atlas".to_string(), "beacon".to_string()]);
}

#[test]
fn check_rejects_missing_tool_inherited_from_parent() {
    let c = config(
        &[("probe", None)],
        vec![
            ("parent", ns(&["probe"], &[("probe", &["required_but_absent"])], &[])),
            ("team", ns(&[], &[], &["parent"])),
        ],
    );
    assert_eq!(explicit_tools(&c, "team", "probe"), vec!["required_but_absent".to_string()]);
    let mut result = CheckResult::new("team".to_string());
    record_inventory(&mut result, &c, "probe".to_string(), Ok(vec!["echo_ok".to_string()]));
    result.finish();
    assert!(!result.ok);
    assert_eq!(result.errors.len(), 1);
    assert_eq!(result.errors[0].code, "configured_tool_missing");
    assert_eq!(result.errors[0].server.as_deref(), Some("probe"));
    assert_eq!(result.errors[0].tool.as_deref(), Some("required_but_absent"));
}

#[test]
fn inherited_filter_is_meet_of_parent_filters() {
    let c = config(
        &[("postgres", None), ("redis", None)],
        vec![
            ("open", ns(&["postgres"], &[], &[])),
            ("wide", ns(&["postgres"], &[("postgres", &["query", "describe_table", "explain"])], &[])),
            ("narrow", ns(&["postgres", "redis"], &[("postgres", &["query", "explain", "vacuum"])], &[])),
            ("team", ns(&[], &[], &["open", "wide", "narrow"])),
        ],
    );
    let filter = |name: &str| {
        let acl = ActiveNamespace::new(&c, name);
        acl.effective_tool_filters().iter().find(|(s, _)| s == "postgres").map(|(_, t)| t.clone())
    };
    assert_eq!(filter("open"), None);
    assert_eq!(filter("team"), Some(vec!["explain".to_string(), "query".to_string()]));
    let team = ActiveNamespace::new(&c, "team");
    assert!(team.is_tool_allowed("redis", "anything"));
    assert!(!team.is_tool_allowed("postgres", "vacuum"));
    assert!(!team.is_tool_allowed("postgres", "describe_table"));
}
