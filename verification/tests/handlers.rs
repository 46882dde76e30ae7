use fanin_mcp::config::{default_timeout_secs, NamespaceConfig, ServerConfig, TomlConfig};
use fanin_mcp::error::ToolError;
use fanin_mcp::handlers::{
    classify_meta_tool, ensure_known_server, find_tool_schema, list_tools_rows,
    not_implemented_result, plan_get_tool_schema, plan_invoke_tool, plan_list_tools, string_arg,
    MetaToolKind, ToolSummary,
};
use fanin_mcp::json::Json;
use fanin_mcp::namespace::ActiveNamespace;

fn stdio_server(command: &str) -> ServerConfig {
    ServerConfig {
        transport: None,
        command: Some(command.to_string()),
        endpoint: None,
        args: Vec::new(),
        cwd: None,
        env: Vec::new(),
        headers: Vec::new(),
        log_file: None,
        timeout_secs: default_timeout_secs(),
        description: None,
    }
}

/// Servers `alpha`, `beta`, `gamma`; namespace `default` allows `beta` and
/// `alpha` (only `echo_ok` on alpha); `gamma` is configured but hidden.
fn fixture() -> TomlConfig {
    TomlConfig {
        servers: vec![
            ("alpha".to_string(), stdio_server("a")),
            ("beta".to_string(), stdio_server("b")),
            ("gamma".to_string(), stdio_server("c")),
        ],
        namespaces: vec![(
            "default".to_string(),
            NamespaceConfig {
                servers: vec!["beta".to_string(), "alpha".to_string()],
                tools: vec![("alpha".to_string(), vec!["echo_ok".to_string()])],
                extends: Vec::new(),
            },
        )],
    }
}

fn s(v: &str) -> Json {
    Json::Str(v.to_string())
}

fn args(entries: Vec<(&str, Json)>) -> Vec<(String, Json)> {
    entries.into_iter().map(|(k, v)| (k.to_string(), v)).collect()
}

fn assert_invalid(r: ToolError, tool: &str, message: &str) {
    match r {
        ToolError::InvalidRequest { tool: t, message: m } => {
            assert_eq!(t, tool);
            assert_eq!(m, message);
        }
        other => panic!("unexpected {other:?}"),
    }
}

#[test]
fn namespace_acl_queries() {
    let c = fixture();
    let ns = ActiveNamespace::new(&c, "");
    assert_eq!(ns.name(), "default");
    assert_eq!(ns.allowed_servers(), vec!["alpha".to_string(), "beta".to_string()]);
    assert!(ns.is_server_allowed("alpha"));
    assert!(!ns.is_server_allowed("gamma"));
    assert!(ns.is_tool_allowed("alpha", "echo_ok"));
    assert!(!ns.is_tool_allowed("alpha", "echo_other"));
    assert!(ns.is_tool_allowed("beta", "anything"));
    assert!(!ns.is_tool_allowed("gamma", "anything"));
    let filters = ns.effective_tool_filters();
    assert_eq!(filters.len(), 1);
    assert_eq!(filters[0].0, "alpha");
    assert_eq!(filters[0].1, vec!["echo_ok".to_string()]);
}

#[test]
fn present_empty_filter_denies_every_tool() {
    let mut c = fixture();
    c.namespaces[0].1.tools = vec![("beta".to_string(), Vec::new())];
    let ns = ActiveNamespace::new(&c, "default");
    assert!(ns.is_server_allowed("beta"));
    assert!(!ns.is_tool_allowed("beta", "query"));
    assert!(ns.is_tool_allowed("alpha", "anything"));
}

#[test]
fn classify_names_the_meta_tools() {
    assert_eq!(classify_meta_tool("list_tools"), MetaToolKind::ListTools);
    assert_eq!(classify_meta_tool("get_tool_schema"), MetaToolKind::GetToolSchema);
    assert_eq!(classify_meta_tool("invoke_tool"), MetaToolKind::InvokeTool);
    assert_eq!(classify_meta_tool("probe__echo"), MetaToolKind::Other);
}

#[test]
fn unknown_tool_gets_not_implemented_text() {
    assert_eq!(
        not_implemented_result("probe__echo".to_string()),
        "tool `probe__echo` is not implemented in this build of fanin-mcp; upstream proxying is not wired yet"
    );
}

#[test]
fn string_arg_reads_only_strings() {
    let a = args(vec![("name", s("alpha__echo_ok")), ("n", Json::Number("1".to_string()))]);
    assert_eq!(string_arg(&a, "name"), Some("alpha__echo_ok"));
    assert_eq!(string_arg(&a, "n"), None);
    assert_eq!(string_arg(&a, "missing"), None);
}

#[test]
fn known_server_check() {
    let c = fixture();
    assert!(ensure_known_server(&c, "gamma").is_ok());
    match ensure_known_server(&c, "nope") {
        Err(ToolError::UnknownServer { server }) => assert_eq!(server, "nope"),
        other => panic!("unexpected {other:?}"),
    }
}

#[test]
fn list_tools_without_registry_is_not_implemented() {
    match plan_list_tools(None, None, None) {
        Err(ToolError::NotImplemented { tool }) => assert_eq!(tool, "list_tools"),
        other => panic!("unexpected {other:?}"),
    }
}

#[test]
fn list_tools_plans_allowed_servers_in_order() {
    let c = fixture();
    let ns = ActiveNamespace::new(&c, "");
    let plan = plan_list_tools(Some(&c), Some(&ns), None).unwrap();
    assert_eq!(plan, vec!["alpha".to_string(), "beta".to_string()]);
    let a = args(vec![("server", s("beta"))]);
    assert_eq!(plan_list_tools(Some(&c), Some(&ns), Some(&a)).unwrap(), vec!["beta".to_string()]);
    let a = args(vec![("server", Json::Bool(true))]);
    assert_eq!(plan_list_tools(Some(&c), Some(&ns), Some(&a)).unwrap().len(), 2);
}

#[test]
fn list_tools_server_filter_errors() {
    let c = fixture();
    let ns = ActiveNamespace::new(&c, "");
    let a = args(vec![("server", s("nope"))]);
    match plan_list_tools(Some(&c), Some(&ns), Some(&a)) {
        Err(ToolError::UnknownServer { server }) => assert_eq!(server, "nope"),
        other => panic!("unexpected {other:?}"),
    }
    let a = args(vec![("server", s("gamma"))]);
    match plan_list_tools(Some(&c), Some(&ns), Some(&a)) {
        Err(ToolError::NamespaceDenied { server, tool }) => {
            assert_eq!(server, "gamma");
            assert_eq!(tool, None);
        }
        other => panic!("unexpected {other:?}"),
    }
}

#[test]
fn list_rows_filter_and_sanitize() {
    let c = fixture();
    let ns = ActiveNamespace::new(&c, "");
    let tools = vec![
        ToolSummary { name: "echo_ok".to_string(), description: Some("  Echo\u{7}back\n".to_string()) },
        ToolSummary { name: "secret_tool".to_string(), description: None },
        ToolSummary { name: "echo_ok".to_string(), description: None },
    ];
    let rows = list_tools_rows(&ns, "alpha", &tools);
    assert_eq!(rows.len(), 2);
    assert_eq!(rows[0].server, "alpha");
    assert_eq!(rows[0].tool, "echo_ok");
    assert_eq!(rows[0].name, "echo_ok");
    assert_eq!(rows[0].description, "Echo back");
    assert_eq!(rows[1].description, "");
    let rows = list_tools_rows(&ns, "beta", &tools);
    assert_eq!(rows.len(), 3);
    let rows = list_tools_rows(&ns, "gamma", &tools);
    assert!(rows.is_empty());
}

#[test]
fn list_rows_cap_long_descriptions() {
    let c = fixture();
    let ns = ActiveNamespace::new(&c, "");
    let long = "x".repeat(150);
    let tools = vec![ToolSummary { name: "t".to_string(), description: Some(long) }];
    let rows = list_tools_rows(&ns, "beta", &tools);
    assert_eq!(rows[0].description.chars().count(), 100);
}

#[test]
fn get_tool_schema_argument_errors_come_first() {
    assert_invalid(plan_get_tool_schema(None, None, None).unwrap_err(), "get_tool_schema", "missing string `name`");
    let a = args(vec![("name", s("no-separator"))]);
    assert_invalid(
        plan_get_tool_schema(None, None, Some(&a)).unwrap_err(),
        "get_tool_schema",
        "name must have format server__tool",
    );
    let a = args(vec![("name", s("__tool"))]);
    assert_invalid(
        plan_get_tool_schema(None, None, Some(&a)).unwrap_err(),
        "get_tool_schema",
        "name must have format server__tool",
    );
    let a = args(vec![("name", s("alpha__echo_ok"))]);
    match plan_get_tool_schema(None, None, Some(&a)) {
        Err(ToolError::NotImplemented { tool }) => assert_eq!(tool, "get_tool_schema"),
        other => panic!("unexpected {other:?}"),
    }
}

#[test]
fn get_tool_schema_access_control() {
    let c = fixture();
    let ns = ActiveNamespace::new(&c, "");
    let a = args(vec![("name", s("nope__x"))]);
    assert!(matches!(
        plan_get_tool_schema(Some(&c), Some(&ns), Some(&a)),
        Err(ToolError::UnknownServer { server }) if server == "nope"
    ));
    let a = args(vec![("name", s("alpha__echo_other"))]);
    match plan_get_tool_schema(Some(&c), Some(&ns), Some(&a)) {
        Err(ToolError::NamespaceDenied { server, tool }) => {
            assert_eq!(server, "alpha");
            assert_eq!(tool.as_deref(), Some("echo_other"));
        }
        other => panic!("unexpected {other:?}"),
    }
    let a = args(vec![("name", s("alpha__echo_ok"))]);
    let (server, tool) = plan_get_tool_schema(Some(&c), Some(&ns), Some(&a)).unwrap();
    assert_eq!((server.as_str(), tool.as_str()), ("alpha", "echo_ok"));
    let a = args(vec![("name", s("beta__a__b"))]);
    let (server, tool) = plan_get_tool_schema(Some(&c), Some(&ns), Some(&a)).unwrap();
    assert_eq!((server.as_str(), tool.as_str()), ("beta", "a__b"));
}

#[test]
fn found_schema_is_sanitized_and_missing_tool_is_unknown() {
    let schema = Json::Object(vec![
        ("type".to_string(), s("object")),
        ("description".to_string(), s("  Look\u{202E}up  ")),
        ("enum".to_string(), Json::Array(vec![s(" \u{7} keep ")])),
    ]);
    let tools = vec![("query".to_string(), schema)];
    match find_tool_schema("beta", "query", &tools).unwrap() {
        Json::Object(m) => {
            assert_eq!(m.len(), 3);
            assert!(matches!(&m[1].1, Json::Str(d) if d == "Look up"));
            assert!(matches!(&m[2].1, Json::Array(v) if matches!(&v[0], Json::Str(x) if x == " \u{7} keep ")));
        }
        other => panic!("unexpected {other:?}"),
    }
    match find_tool_schema("beta", "nope", &tools) {
        Err(ToolError::UnknownTool { server, tool }) => {
            assert_eq!(server, "beta");
            assert_eq!(tool, "nope");
        }
        other => panic!("unexpected {other:?}"),
    }
}

#[test]
fn invoke_tool_argument_errors_in_order() {
    let c = fixture();
    let ns = ActiveNamespace::new(&c, "");
    assert_invalid(plan_invoke_tool(Some(&c), Some(&ns), None).unwrap_err(), "invoke_tool", "missing arguments object");
    let a = args(vec![]);
    assert_invalid(plan_invoke_tool(Some(&c), Some(&ns), Some(&a)).unwrap_err(), "invoke_tool", "missing string `name`");
    let a = args(vec![("name", s("beta_query"))]);
    assert_invalid(
        plan_invoke_tool(Some(&c), Some(&ns), Some(&a)).unwrap_err(),
        "invoke_tool",
        "name must have format server__tool",
    );
    let a = args(vec![("name", s("beta__query"))]);
    assert_invalid(
        plan_invoke_tool(Some(&c), Some(&ns), Some(&a)).unwrap_err(),
        "invoke_tool",
        "missing object `arguments`",
    );
    let a = args(vec![("name", s("beta__query")), ("arguments", Json::Array(vec![]))]);
    assert_invalid(
        plan_invoke_tool(Some(&c), Some(&ns), Some(&a)).unwrap_err(),
        "invoke_tool",
        "`arguments` must be an object",
    );
}

#[test]
fn invoke_tool_access_checked_before_arguments() {
    let c = fixture();
    let ns = ActiveNamespace::new(&c, "");
    let a = args(vec![("name", s("gamma__query"))]);
    match plan_invoke_tool(Some(&c), Some(&ns), Some(&a)) {
        Err(ToolError::NamespaceDenied { server, tool }) => {
            assert_eq!(server, "gamma");
            assert_eq!(tool.as_deref(), Some("query"));
        }
        other => panic!("unexpected {other:?}"),
    }
    let a = args(vec![("name", s("beta__query"))]);
    match plan_invoke_tool(None, Some(&ns), Some(&a)) {
        Err(ToolError::NotImplemented { tool }) => assert_eq!(tool, "invoke_tool"),
        other => panic!("unexpected {other:?}"),
    }
}

#[test]
fn invoke_tool_forwards_arguments_verbatim() {
    let c = fixture();
    let ns = ActiveNamespace::new(&c, "");
    let inner = vec![("sql".to_string(), s(" select\u{7} 1 ")), ("n".to_string(), Json::Number("2".to_string()))];
    let a = args(vec![("name", s("beta__query")), ("arguments", Json::Object(inner))]);
    let plan = plan_invoke_tool(Some(&c), Some(&ns), Some(&a)).unwrap();
    assert_eq!(plan.server, "beta");
    assert_eq!(plan.tool, "query");
    assert_eq!(plan.arguments.len(), 2);
    assert_eq!(plan.arguments[0].0, "sql");
    assert!(matches!(&plan.arguments[0].1, Json::Str(x) if x == " select\u{7} 1 "));
    assert!(matches!(&plan.arguments[1].1, Json::Number(x) if x == "2"));
}

#[test]
fn validated_servers_are_addressable_by_server_tool() {
    let c = fixture();
    assert!(c.validate("").is_ok());
    for (server, _) in &c.servers {
        let name = format!("{server}__query__x");
        assert_eq!(fanin_mcp::server::parse_server_tool(&name), Some((server.as_str(), "query__x")));
    }
}

#[test]
fn validated_filters_belong_to_allowed_servers() {
    let c = fixture();
    assert!(c.validate("").is_ok());
    let ns = ActiveNamespace::new(&c, "");
    for (server, _) in ns.effective_tool_filters() {
        assert!(ns.is_server_allowed(server));
    }
}
