use fanin_mcp::advert::configured_toc;
use fanin_mcp::check::{
    check_servers, explicit_tools, map_tool_error, preflight_failure, record_inventory,
    selected_namespace, CheckError, CheckResult,
};
use fanin_mcp::config::{default_timeout_secs, NamespaceConfig, ServerConfig, TomlConfig};
use fanin_mcp::error::ToolError;
use fanin_mcp::json::{copy_json, is_schema_metadata_key, sanitize_schema_metadata, Json};
use fanin_mcp::namespace::ActiveNamespace;
use fanin_mcp::server::{
    get_tool_schema_tool, invoke_tool_tool, list_tools_tool, meta_tools, neutralize_upstream_display,
    parse_server_tool, required_string_object_schema, sanitize_list_row_description,
    sanitize_upstream_identifier, should_neutralize_upstream_char,
};

const LIST_TOOLS_DESC: &str = "Lists the tools available through this aggregator, grouped by server, with one-line descriptions. Call this once to see what's connected; pass server to fetch a single server's tools.";

fn stdio_server(command: &str, description: Option<&str>) -> ServerConfig {
    ServerConfig {
        transport: None,
        command: Some(command.to_string()),
        endpoint: None,
        args: Vec::new(),
        cwd: None,
        env: Vec::new(),
        headers: Vec::new(),
        log_file: None,
        timeout_secs: default_timeout_secs(),
        description: description.map(|d| d.to_string()),
    }
}

fn fixture() -> TomlConfig {
    TomlConfig {
        servers: vec![
            ("alpha".to_string(), stdio_server("a", Some("Code navigation"))),
            ("beta".to_string(), stdio_server("b", Some("  \u{7}  "))),
        ],
        namespaces: vec![(
            "default".to_string(),
            NamespaceConfig {
                servers: vec!["beta".to_string(), "alpha".to_string()],
                tools: vec![(
                    "alpha".to_string(),
                    vec!["search".to_string(), "echo".to_string(), "search".to_string()],
                )],
                extends: Vec::new(),
            },
        )],
    }
}

// --- names and display text ---------------------------------------------------

#[test]
fn server_tool_names_split_on_first_separator() {
    assert_eq!(parse_server_tool("postgres__query"), Some(("postgres", "query")));
    assert_eq!(parse_server_tool("a__b__c"), Some(("a", "b__c")));
    assert_eq!(parse_server_tool("a_b__c"), Some(("a_b", "c")));
    assert_eq!(parse_server_tool("__query"), None);
    assert_eq!(parse_server_tool("postgres__"), None);
    assert_eq!(parse_server_tool("postgres"), None);
}

#[test]
fn display_text_neutralizes_controls_and_trims() {
    assert!(should_neutralize_upstream_char('\u{200B}'));
    assert!(should_neutralize_upstream_char('\u{FEFF}'));
    assert!(!should_neutralize_upstream_char('é'));
    assert_eq!(neutralize_upstream_display("\u{202E}evil\u{2028}text\u{1b} "), "evil text");
    let cleaned = neutralize_upstream_display(" a\u{7}b ");
    assert_eq!(neutralize_upstream_display(&cleaned), cleaned);
}

#[test]
fn row_descriptions_cap_at_100_identifiers_at_200() {
    let long = "é".repeat(250);
    assert_eq!(sanitize_list_row_description(&long).chars().count(), 100);
    assert_eq!(sanitize_upstream_identifier(&long).chars().count(), 200);
    assert_eq!(sanitize_upstream_identifier(" name\u{0} "), "name");
}

// --- meta-tools ----------------------------------------------------------------

#[test]
fn exactly_three_meta_tools() {
    let tools = meta_tools(None);
    let names: Vec<&str> = tools.iter().map(|t| t.name).collect();
    assert_eq!(names, vec!["list_tools", "get_tool_schema", "invoke_tool"]);
    assert_eq!(tools[0].description, LIST_TOOLS_DESC);
    assert_eq!(
        tools[1].description,
        "Get the full input schema for a tool. Format: server__tool (e.g. postgres__query)."
    );
    assert_eq!(tools[2].description, "Call a tool by server__tool name with arguments.");
}

#[test]
fn only_list_tools_carries_the_toc() {
    let t = list_tools_tool(Some("\n\nConfigured servers:\n- alpha\n"));
    assert_eq!(t.description, format!("{LIST_TOOLS_DESC}\n\nConfigured servers:\n- alpha\n"));
    assert_eq!(get_tool_schema_tool().description, meta_tools(Some("x"))[1].description);
    assert!(t.annotations.is_none());
}

#[test]
fn invoke_tool_schema_and_annotations() {
    let t = invoke_tool_tool();
    let a = t.annotations.expect("invoke_tool carries annotations");
    assert_eq!(a.read_only, Some(false));
    assert_eq!(a.destructive, Some(true));
    assert_eq!(a.idempotent, None);
    assert_eq!(a.open_world, Some(true));
    match &t.input_schema {
        Json::Object(m) => {
            let keys: Vec<&str> = m.iter().map(|(k, _)| k.as_str()).collect();
            assert_eq!(keys, vec!["type", "properties", "required"]);
        }
        other => panic!("unexpected {other:?}"),
    }
}

#[test]
fn required_schema_lists_required_names() {
    match required_string_object_schema(&vec!["name"]) {
        Json::Object(m) => {
            assert_eq!(m.len(), 3);
            assert!(matches!(&m[2].1, Json::Array(v) if v.len() == 1 && matches!(&v[0], Json::Str(s) if s == "name")));
        }
        other => panic!("unexpected {other:?}"),
    }
}

// --- schema sanitization ------------------------------------------------------------

#[test]
fn only_annotation_strings_are_sanitized() {
    assert!(is_schema_metadata_key("markdownDescription"));
    assert!(!is_schema_metadata_key("enum"));
    let schema = Json::Object(vec![
        ("title".to_string(), Json::Str(" T\u{7} ".to_string())),
        ("description".to_string(), Json::Number("3".to_string())),
        (
            "properties".to_string(),
            Json::Object(vec![(
                "x".to_string(),
                Json::Object(vec![
                    ("$comment".to_string(), Json::Str("c\u{200D}".to_string())),
                    ("default".to_string(), Json::Str(" \u{7} ".to_string())),
                ]),
            )]),
        ),
    ]);
    let out = sanitize_schema_metadata(&schema);
    let Json::Object(m) = out else { panic!("object expected") };
    assert!(matches!(&m[0].1, Json::Str(s) if s == "T"));
    assert!(matches!(&m[1].1, Json::Number(n) if n == "3"));
    let Json::Object(props) = &m[2].1 else { panic!("object expected") };
    let Json::Object(x) = &props[0].1 else { panic!("object expected") };
    assert!(matches!(&x[0].1, Json::Str(s) if s == "c"));
    assert!(matches!(&x[1].1, Json::Str(s) if s == " \u{7} "));
    assert!(matches!(copy_json(&Json::Null), Json::Null));
}

// --- table of contents --------------------------------------------------------------

#[test]
fn toc_lists_allowed_servers_with_descriptions() {
    let c = fixture();
    let ns = ActiveNamespace::new(&c, "");
    let toc = configured_toc(Some(&c), Some(&ns), &Vec::new()).unwrap();
    assert_eq!(toc, "\n\nConfigured servers:\n- alpha: Code navigation\n- beta\n");
    assert_eq!(configured_toc(None, Some(&ns), &Vec::new()), None);
}

#[test]
fn toc_hints_only_name_allowed_cached_tools() {
    let c = fixture();
    let ns = ActiveNamespace::new(&c, "");
    let cache = vec![(
        "alpha".to_string(),
        vec![
            ("search".to_string(), "s".to_string()),
            ("hidden".to_string(), "h".to_string()),
            ("echo".to_string(), "e".to_string()),
        ],
    )];
    let toc = configured_toc(Some(&c), Some(&ns), &cache).unwrap();
    assert_eq!(
        toc,
        "\n\nConfigured servers:\n- alpha: Code navigation (tools: search, echo)\n- beta\n"
    );
}

#[test]
fn toc_hints_shrink_to_fit_the_budget() {
    let c = fixture();
    let ns = ActiveNamespace::new(&c, "");
    let names: Vec<(String, String)> =
        (0..400).map(|i| (format!("tool_{i:03}"), String::new())).collect();
    let mut c2 = c.clone();
    c2.namespaces[0].1.tools.clear();
    let ns2 = ActiveNamespace::new(&c2, "");
    let toc = configured_toc(Some(&c2), Some(&ns2), &vec![("beta".to_string(), names)]).unwrap();
    assert!(toc.len() <= 3000);
    assert!(toc.contains(" more)"));
    assert!(toc.starts_with("\n\nConfigured servers:\n- alpha: Code navigation\n- beta (tools: tool_000, "));
    let _ = ns;
}

// --- check ------------------------------------------------------------------------------

#[test]
fn check_namespace_and_preflight() {
    assert_eq!(selected_namespace(""), "default");
    assert_eq!(selected_namespace("dev"), "dev");
    assert!(preflight_failure("", true, true).is_none());
    let r = preflight_failure("", false, true).unwrap();
    assert!(!r.ok);
    assert_eq!(r.namespace, "default");
    assert_eq!(r.errors[0].code, "config_required");
    assert_eq!(r.errors[0].message, "--config is required for check");
    let r = preflight_failure("dev", true, false).unwrap();
    assert_eq!(r.errors[0].code, "config_validation_failed");
}

#[test]
fn check_server_selection() {
    let c = fixture();
    let ns = ActiveNamespace::new(&c, "");
    assert_eq!(check_servers(&ns, None).unwrap(), vec!["alpha".to_string(), "beta".to_string()]);
    assert_eq!(check_servers(&ns, Some("beta".to_string())).unwrap(), vec!["beta".to_string()]);
    let e = check_servers(&ns, Some("gamma".to_string())).unwrap_err();
    assert_eq!(e.server.as_deref(), Some("gamma"));
    assert_eq!(e.code, "server_not_allowed");
}

#[test]
fn check_inventory_reports_missing_allowlisted_tools() {
    let c = fixture();
    assert_eq!(explicit_tools(&c, "default", "alpha"), vec!["echo".to_string(), "search".to_string()]);
    assert!(explicit_tools(&c, "default", "beta").is_empty());
    let mut result = CheckResult::new("default".to_string());
    record_inventory(&mut result, &c, "alpha".to_string(), Ok(vec!["search".to_string(), "extra".to_string()]));
    record_inventory(&mut result, &c, "beta".to_string(), Err(ToolError::UpstreamTimeout { server: "beta".to_string(), tool: None }));
    assert_eq!(result.servers[0].status, "error");
    let names: Vec<&str> = result.servers[0].tools.iter().map(|t| t.name.as_str()).collect();
    assert_eq!(names, vec!["extra", "search"]);
    assert_eq!(result.errors[0].code, "configured_tool_missing");
    assert_eq!(result.errors[0].tool.as_deref(), Some("echo"));
    assert_eq!(result.errors[1].code, "upstream_timeout");
    assert_eq!(result.errors[1].message, "upstream inventory timed out");
    result.finish();
    assert!(!result.ok);
    assert_eq!(result.summary_line(), "ok=false namespace=default");
    let mut clean = CheckResult::new("default".to_string());
    record_inventory(&mut clean, &c, "beta".to_string(), Ok(vec!["q".to_string()]));
    clean.finish();
    assert!(clean.ok);
    assert_eq!(clean.servers[0].status, "ok");
    assert_eq!(clean.summary_line(), "ok=true namespace=default");
}

#[test]
fn tool_errors_map_to_check_codes() {
    let e = map_tool_error(ToolError::CredentialResolution { server: "p".to_string(), key: "TOKEN".to_string() });
    assert_eq!(e.code, "credential_resolution_failed");
    assert_eq!(e.key.as_deref(), Some("TOKEN"));
    let e = map_tool_error(ToolError::NamespaceDenied { server: "p".to_string(), tool: Some("t".to_string()) });
    assert_eq!(e.code, "server_not_allowed");
    assert_eq!(e.tool.as_deref(), Some("t"));
    let e = map_tool_error(ToolError::UpstreamCall { server: "p".to_string(), tool: "t".to_string(), message: "m".to_string() });
    assert_eq!(e.code, "upstream_connect_failed");
    assert_eq!(e.message, "upstream connection failed");
    let e = CheckError::new_with_key(None, "c", None, "m", "k".to_string());
    assert_eq!(e.key.as_deref(), Some("k"));
    assert!(CheckResult::failure("d".to_string(), CheckError::new(None, "c", None, "m")).errors.len() == 1);
}

// --- tool errors ----------------------------------------------------------------------

#[test]
fn tool_error_codes_and_messages() {
    let e = ToolError::NotImplemented { tool: "x".to_string() };
    assert_eq!(e.code(), "not_implemented");
    assert!(!e.recoverable());
    assert_eq!(
        e.message(),
        "tool `x` is not implemented in this build of fanin-mcp; upstream proxying is not wired yet"
    );
    let e = ToolError::UnknownServer { server: "s".to_string() };
    assert_eq!((e.code(), e.message().as_str()), ("unknown_server", "unknown server `s`"));
    let e = ToolError::UpstreamTimeout { server: "s".to_string(), tool: Some("t".to_string()) };
    assert!(e.recoverable());
    assert_eq!(e.message(), "call to `t` on server `s` timed out");
    let e = ToolError::CredentialResolution { server: "s".to_string(), key: "K".to_string() };
    assert_eq!(e.message(), "credential `K` for server `s` could not be resolved");
    assert!(!e.message().contains("secret"));
}
