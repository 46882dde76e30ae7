use fanin_mcp::config::{
    default_timeout_secs, validate_server_name, CliConfig, NamespaceConfig, ServerConfig,
    TomlConfig, DEFAULT_NAMESPACE,
};
use fanin_mcp::credentials::CredentialStoreChoice;
use fanin_mcp::error::StartupError;

fn stdio_server(command: &str) -> ServerConfig {
    ServerConfig {
        transport: None,
        command: Some(command.to_string()),
        endpoint: None,
        args: Vec::new(),
        cwd: None,
        env: Vec::new(),
        headers: Vec::new(),
        log_file: None,
        timeout_secs: default_timeout_secs(),
        description: None,
    }
}

fn namespace(servers: &[&str], tools: &[(&str, &[&str])]) -> NamespaceConfig {
    NamespaceConfig {
        servers: servers.iter().map(|s| s.to_string()).collect(),
        tools: tools
            .iter()
            .map(|(s, ts)| (s.to_string(), ts.iter().map(|t| t.to_string()).collect()))
            .collect(),
        extends: Vec::new(),
    }
}

fn extending(mut ns: NamespaceConfig, parents: &[&str]) -> NamespaceConfig {
    ns.extends = parents.iter().map(|p| p.to_string()).collect();
    ns
}

fn config(servers: Vec<(&str, ServerConfig)>, namespaces: Vec<(&str, NamespaceConfig)>) -> TomlConfig {
    TomlConfig {
        servers: servers.into_iter().map(|(n, s)| (n.to_string(), s)).collect(),
        namespaces: namespaces.into_iter().map(|(n, c)| (n.to_string(), c)).collect(),
    }
}

#[test]
fn valid_names_pass() {
    assert!(validate_server_name("probe").is_ok());
    assert!(validate_server_name("my-db").is_ok());
    assert!(validate_server_name("a1").is_ok());
}

#[test]
fn uppercase_rejected() {
    let err = validate_server_name("UPPERCASE").unwrap_err();
    assert!(matches!(err, StartupError::InvalidServerName { .. }));
}

#[test]
fn single_underscore_rejected() {
    let err = validate_server_name("my_db").unwrap_err();
    assert!(matches!(err, StartupError::InvalidServerName { .. }));
}

#[test]
fn double_underscore_rejected() {
    let err = validate_server_name("my__db").unwrap_err();
    assert!(matches!(err, StartupError::InvalidServerName { .. }));
}

#[test]
fn spaces_rejected() {
    let err = validate_server_name("Bad Name With Space").unwrap_err();
    assert!(matches!(err, StartupError::InvalidServerName { .. }));
}

#[test]
fn empty_name_reason() {
    match validate_server_name("") {
        Err(StartupError::InvalidServerName { server, reason }) => {
            assert_eq!(server, "");
            assert_eq!(reason, "server name must not be empty");
        }
        other => panic!("unexpected {other:?}"),
    }
}

#[test]
fn disallowed_characters_are_listed_in_order() {
    match validate_server_name("My_db 2") {
        Err(StartupError::InvalidServerName { server, reason }) => {
            assert_eq!(server, "My_db 2");
            assert_eq!(
                reason,
                "server name must match [a-z0-9-]+; found disallowed character(s): M_ "
            );
        }
        other => panic!("unexpected {other:?}"),
    }
}

#[test]
fn from_flags_defaults_namespace_to_empty() {
    let c = CliConfig::from_flags(None, None, CredentialStoreChoice::Env);
    assert_eq!(c.namespace, "");
    assert!(c.config_path.is_none());
    assert_eq!(c.credential_store, CredentialStoreChoice::Env);
    let c = CliConfig::from_flags(
        Some("dev".to_string()),
        Some(std::path::PathBuf::from("/tmp/x.toml")),
        CredentialStoreChoice::Keyring,
    );
    assert_eq!(c.namespace, "dev");
    assert_eq!(c.config_path, Some(std::path::PathBuf::from("/tmp/x.toml")));
}

#[test]
fn transport_kind_defaults_to_stdio() {
    let mut s = stdio_server("x");
    assert_eq!(s.transport_kind(), "stdio");
    s.transport = Some("streamable-http".to_string());
    assert_eq!(s.transport_kind(), "streamable-http");
}

#[test]
fn default_timeout_is_sixty() {
    assert_eq!(default_timeout_secs(), 60);
    assert_eq!(DEFAULT_NAMESPACE, "default");
}

#[test]
fn valid_config_passes_with_default_namespace() {
    let c = config(
        vec![("probe", stdio_server("/bin/probe"))],
        vec![("default", namespace(&["probe"], &[]))],
    );
    assert!(c.validate("").is_ok());
    assert!(c.has_server("probe"));
    assert!(!c.has_server("other"));
    assert!(c.server("probe").is_some());
    assert!(c.namespace("default").is_some());
}

#[test]
fn invalid_server_name_fails_first() {
    let mut bad = stdio_server("x");
    bad.transport = Some("carrier-pigeon".to_string());
    let c = config(
        vec![("ok", bad), ("Bad", stdio_server("x"))],
        vec![("default", namespace(&[], &[]))],
    );
    match c.validate("") {
        Err(StartupError::InvalidServerName { server, .. }) => assert_eq!(server, "Bad"),
        other => panic!("unexpected {other:?}"),
    }
}

#[test]
fn unsupported_transport_rejected() {
    let mut bad = stdio_server("x");
    bad.transport = Some("carrier-pigeon".to_string());
    let c = config(vec![("probe", bad)], vec![("default", namespace(&["probe"], &[]))]);
    match c.validate("") {
        Err(StartupError::UnsupportedTransport { server, transport }) => {
            assert_eq!(server, "probe");
            assert_eq!(transport, "carrier-pigeon");
        }
        other => panic!("unexpected {other:?}"),
    }
}

#[test]
fn blank_cwd_rejected() {
    let mut s = stdio_server("x");
    s.cwd = Some("   ".to_string());
    let c = config(vec![("probe", s)], vec![("default", namespace(&["probe"], &[]))]);
    assert!(matches!(c.validate(""), Err(StartupError::EmptyCwd { server }) if server == "probe"));
}

#[test]
fn stdio_without_command_rejected() {
    let mut s = stdio_server("x");
    s.command = Some("  ".to_string());
    let c = config(vec![("probe", s)], vec![("default", namespace(&["probe"], &[]))]);
    assert!(matches!(
        c.validate(""),
        Err(StartupError::StdioServerMissingCommand { server }) if server == "probe"
    ));
}

#[test]
fn http_without_endpoint_rejected() {
    let mut s = stdio_server("x");
    s.transport = Some("streamable-http".to_string());
    s.command = None;
    let c = config(vec![("remote", s)], vec![("default", namespace(&["remote"], &[]))]);
    assert!(matches!(
        c.validate(""),
        Err(StartupError::HttpServerMissingEndpoint { server }) if server == "remote"
    ));
    let mut s = stdio_server("x");
    s.transport = Some("streamable-http".to_string());
    s.command = None;
    s.endpoint = Some("http://127.0.0.1:8080/mcp".to_string());
    let c = config(vec![("remote", s)], vec![("default", namespace(&["remote"], &[]))]);
    assert!(c.validate("").is_ok());
}

#[test]
fn unknown_namespace_rejected() {
    let c = config(
        vec![("probe", stdio_server("x"))],
        vec![("default", namespace(&["probe"], &[]))],
    );
    match c.validate("staging") {
        Err(StartupError::UnknownNamespace { namespace }) => assert_eq!(namespace, "staging"),
        other => panic!("unexpected {other:?}"),
    }
    assert!(c.validate("default").is_ok());
}

#[test]
fn missing_default_namespace_rejected() {
    let c = config(vec![("probe", stdio_server("x"))], vec![]);
    match c.validate("") {
        Err(StartupError::UnknownNamespace { namespace }) => assert_eq!(namespace, "default"),
        other => panic!("unexpected {other:?}"),
    }
}

#[test]
fn tool_filter_for_unlisted_server_rejected_in_any_namespace() {
    let c = config(
        vec![("alpha", stdio_server("x")), ("beta", stdio_server("y"))],
        vec![
            ("default", namespace(&["alpha"], &[])),
            ("other", namespace(&["alpha"], &[("beta", &["query"])])),
        ],
    );
    match c.validate("") {
        Err(StartupError::ToolFilterUnknownServer { namespace, server }) => {
            assert_eq!(namespace, "other");
            assert_eq!(server, "beta");
        }
        other => panic!("unexpected {other:?}"),
    }
}

#[test]
fn server_description_deserializes_when_present() {
    let mut s = stdio_server("/bin/probe");
    s.description = Some("Code navigation".to_string());
    let c = config(vec![("probe", s)], vec![("default", namespace(&["probe"], &[]))]);
    assert!(c.validate("").is_ok());
    let server = c.server("probe").expect("fixture must contain the probe server");
    assert_eq!(server.description.as_deref(), Some("Code navigation"));
}

#[test]
fn server_description_defaults_to_none_when_omitted() {
    let c = config(
        vec![("probe", stdio_server("/bin/probe"))],
        vec![("default", namespace(&["probe"], &[]))],
    );
    assert!(c.validate("").is_ok());
    let server = c.server("probe").expect("fixture must contain the probe server");
    assert_eq!(server.description, None);
}

#[test]
fn server_description_is_optional_for_validation() {
    let mut with = stdio_server("/bin/probe");
    with.description = Some("Code navigation".to_string());
    let with_description = config(vec![("probe", with)], vec![("default", namespace(&["probe"], &[]))]);
    let without_description = config(
        vec![("probe", stdio_server("/bin/probe"))],
        vec![("default", namespace(&["probe"], &[]))],
    );
    assert!(with_description.validate("").is_ok());
    assert!(without_description.validate("").is_ok());
    assert_eq!(
        (
            with_description.server("probe").unwrap().description.as_deref(),
            without_description.server("probe").unwrap().description.as_deref(),
        ),
        (Some("Code navigation"), None)
    );
}

#[test]
fn extends_unknown_parent_is_typed_startup_error() {
    let c = config(
        vec![("postgres", stdio_server("x"))],
        vec![("team", extending(namespace(&["postgres"], &[]), &["missing-parent"]))],
    );
    let error = c.validate("team").expect_err("an unknown extends target must fail before any spawn");
    match error {
        StartupError::UnknownParentNamespace { namespace, parent } => {
            assert_eq!(namespace, "team");
            assert_eq!(parent, "missing-parent");
        }
        other => panic!("unexpected {other:?}"),
    }
}

#[test]
fn extends_cycle_is_typed_startup_error() {
    let build = || {
        config(
            vec![("postgres", stdio_server("x"))],
            vec![
                ("a", extending(namespace(&[], &[]), &["b"])),
                ("b", extending(namespace(&[], &[]), &["c"])),
                ("c", extending(namespace(&[], &[]), &["a"])),
            ],
        )
    };
    let first = build().validate("a").expect_err("A -> B -> C -> A must fail validation");
    let second = build().validate("a").expect_err("the same cycle must fail deterministically");
    assert_eq!(std::mem::discriminant(&first), std::mem::discriminant(&second));
    assert!(matches!(first, StartupError::NamespaceCycle { .. }));
}

#[test]
fn extends_diamond_is_not_a_cycle() {
    let c = config(
        vec![("postgres", stdio_server("x"))],
        vec![
            ("d", namespace(&["postgres"], &[])),
            ("b", extending(namespace(&[], &[]), &["d"])),
            ("c", extending(namespace(&[], &[]), &["d"])),
            ("a", extending(namespace(&[], &[]), &["b", "c"])),
        ],
    );
    assert!(c.validate("a").is_ok());
}

#[test]
fn effective_set_validation_replaces_raw_local_check() {
    let legal = config(
        vec![("postgres", stdio_server("x"))],
        vec![
            ("parent", namespace(&["postgres"], &[])),
            ("child", extending(namespace(&[], &[("postgres", &["query"])]), &["parent"])),
        ],
    );
    legal
        .validate("child")
        .expect("a child may further-restrict an inherited server without re-listing it locally");

    let bad_filter = config(
        vec![("postgres", stdio_server("x"))],
        vec![
            ("parent", namespace(&["postgres"], &[])),
            ("child", extending(namespace(&[], &[("ghost", &["query"])]), &["parent"])),
        ],
    );
    let error = bad_filter
        .validate("child")
        .expect_err("a tool-filter key outside the effective server set must fail");
    assert!(
        matches!(
            &error,
            StartupError::ToolFilterUnknownServer { namespace, server }
                if namespace == "child" && server == "ghost"
        ),
        "effective tool-filter validation must identify child/ghost; got {error:?}"
    );

    let missing_server = config(
        vec![],
        vec![
            ("parent", namespace(&["ghost"], &[])),
            ("child", extending(namespace(&[], &[]), &["parent"])),
        ],
    );
    let error = missing_server
        .validate("child")
        .expect_err("every effective server must exist in top-level [servers]");
    assert!(matches!(error, StartupError::UndeclaredServer { namespace, server } if namespace == "parent" && server == "ghost"));
}

#[test]
fn undeclared_server_rejected_without_extends() {
    let c = config(vec![], vec![("default", namespace(&["ghost"], &[]))]);
    match c.validate("") {
        Err(StartupError::UndeclaredServer { namespace, server }) => {
            assert_eq!(namespace, "default");
            assert_eq!(server, "ghost");
        }
        other => panic!("unexpected {other:?}"),
    }
}

#[test]
fn validation_ignores_command_target_and_description() {
    let ns = || vec![("default", namespace(&["probe"], &[]))];
    let real = config(vec![("probe", stdio_server("/bin/cat"))], ns());
    let mut missing_server = stdio_server("/this/binary/does/not/exist/anywhere");
    missing_server.description = Some("never spawned at startup".to_string());
    let missing = config(vec![("probe", missing_server)], ns());
    assert!(real.validate("").is_ok());
    assert!(missing.validate("").is_ok());
    let mut blank_server = stdio_server("/this/binary/does/not/exist/anywhere");
    blank_server.cwd = Some("  ".to_string());
    let blank = config(vec![("probe", blank_server)], ns());
    let mut blank_described = stdio_server("/bin/cat");
    blank_described.cwd = Some("  ".to_string());
    blank_described.description = Some("described".to_string());
    let blank2 = config(vec![("probe", blank_described)], ns());
    assert!(matches!(blank.validate(""), Err(StartupError::EmptyCwd { ref server }) if server == "probe"));
    assert!(matches!(blank2.validate(""), Err(StartupError::EmptyCwd { ref server }) if server == "probe"));
}
