use fanin_mcp::credentials::{credential_value, CredentialStoreChoice};
use fanin_mcp::error::error_content;
use fanin_mcp::json::Json;
use fanin_mcp::capture::{log_file_line, stderr_line_text, StderrLines, LOG_LINE_TRUNCATED_MARKER, MAX_LOG_LINE_BYTES};
use fanin_mcp::config::{default_timeout_secs, ServerConfig, TomlConfig};
use fanin_mcp::error::ToolError;
use fanin_mcp::forward::{
    elicitation_available, route_elicitation, sampling_rejection, settle_elicitation,
    upstream_capabilities, ElicitationRoute,
};
use fanin_mcp::process::{
    env_placeholders, os_baseline_keys, resolve_env_value, resolve_server_env, spawn_plan, ContainmentGuard,
    RedactingFileMakeWriter,
};
use fanin_mcp::redact::{redact, register_secret, SecretSet, REDACTED};
use fanin_mcp::registry::{
    effective_timeout_secs, ensure_listed_tool, map_service_error, settle_call, settle_invoke,
    CallOutcome, ServiceFailure,
};

fn stdio_server(command: &str) -> ServerConfig {
    ServerConfig {
        transport: None,
        command: Some(command.to_string()),
        endpoint: None,
        args: Vec::new(),
        cwd: None,
        env: Vec::new(),
        headers: Vec::new(),
        log_file: None,
        timeout_secs: default_timeout_secs(),
        description: None,
    }
}

fn feed_all(chunks: &[&[u8]]) -> (Vec<(Vec<u8>, bool)>, Option<(Vec<u8>, bool)>) {
    let mut splitter = StderrLines::new();
    let mut lines = Vec::new();
    for chunk in chunks {
        let (next, out) = splitter.feed(chunk);
        splitter = next;
        lines.extend(out);
    }
    (lines, splitter.finish())
}

// --- registry -------------------------------------------------------------

#[test]
fn timeout_is_configured_or_sixty() {
    let mut slow = stdio_server("x");
    slow.timeout_secs = 5;
    let c = TomlConfig { servers: vec![("slow".to_string(), slow)], namespaces: Vec::new() };
    assert_eq!(effective_timeout_secs(&c, "slow"), 5);
    assert_eq!(effective_timeout_secs(&c, "absent"), 60);
}

#[test]
fn closed_transport_is_a_disconnect() {
    match map_service_error(ServiceFailure::TransportClosed, "probe", "echo") {
        ToolError::UpstreamDisconnected { server, tool } => {
            assert_eq!(server, "probe");
            assert_eq!(tool, "echo");
        }
        other => panic!("unexpected {other:?}"),
    }
    match map_service_error(ServiceFailure::Other { message: "boom".to_string() }, "probe", "echo") {
        ToolError::UpstreamCall { server, tool, message } => {
            assert_eq!((server.as_str(), tool.as_str(), message.as_str()), ("probe", "echo", "boom"));
        }
        other => panic!("unexpected {other:?}"),
    }
}

#[test]
fn tool_must_be_in_inventory() {
    let inv = vec!["echo".to_string(), "sum".to_string()];
    assert!(ensure_listed_tool("probe", "sum", &inv).is_ok());
    match ensure_listed_tool("probe", "nope", &inv) {
        Err(ToolError::UnknownTool { server, tool }) => {
            assert_eq!(server, "probe");
            assert_eq!(tool, "nope");
        }
        other => panic!("unexpected {other:?}"),
    }
}

#[test]
fn call_outcomes_settle() {
    assert_eq!(settle_call("p", "t", CallOutcome::Completed(7u32)).unwrap(), 7);
    match settle_call::<u32>("p", "t", CallOutcome::TimedOut) {
        Err(ToolError::UpstreamTimeout { server, tool }) => {
            assert_eq!(server, "p");
            assert_eq!(tool.as_deref(), Some("t"));
        }
        other => panic!("unexpected {other:?}"),
    }
    assert!(matches!(
        settle_call::<u32>("p", "t", CallOutcome::Failed(ServiceFailure::TransportClosed)),
        Err(ToolError::UpstreamDisconnected { .. })
    ));
    assert_eq!(settle_invoke("p", "t", Some(Ok::<u32, ToolError>(3))).unwrap(), 3);
    match settle_invoke::<u32>("p", "t", None) {
        Err(ToolError::CallCancelled { server, tool }) => {
            assert_eq!(server, "p");
            assert_eq!(tool, "t");
        }
        other => panic!("unexpected {other:?}"),
    }
}

// --- forward ---------------------------------------------------------------

#[test]
fn elicitation_gate_is_one_condition() {
    for (peer, declared, expect) in [
        (true, Some(true), true),
        (true, Some(false), false),
        (true, None, false),
        (false, Some(true), false),
    ] {
        assert_eq!(elicitation_available(peer, declared), expect);
        assert_eq!(upstream_capabilities(peer, declared).elicitation, expect);
        let forwarded = matches!(route_elicitation("probe", peer, declared, 9), ElicitationRoute::Forward { timeout_secs: 9 });
        assert_eq!(forwarded, expect);
    }
}

#[test]
fn rejections_are_structured() {
    match route_elicitation("probe", false, None, 60) {
        ElicitationRoute::Reject(r) => {
            assert_eq!(r.message, "fanin-mcp does not support upstream elicitation requests in this session");
            assert_eq!(r.server, "probe");
            assert_eq!(r.code, "elicitation_rejected");
            assert!(!r.recoverable);
        }
        other => panic!("unexpected {other:?}"),
    }
    let r = sampling_rejection("probe");
    assert_eq!(r.code, "sampling_rejected");
    assert_eq!(r.message, "fanin-mcp does not support upstream sampling requests");
    assert!(!r.recoverable);
}

#[test]
fn failed_elicitation_is_never_an_accept() {
    assert_eq!(settle_elicitation::<&str, ()>("probe", Ok("accept")).unwrap(), "accept");
    let r = settle_elicitation::<&str, &str>("probe", Err("timeout")).unwrap_err();
    assert_eq!(r.code, "elicitation_non_accept");
    assert_eq!(r.message, "fanin-mcp forwarded elicitation resolved to non-accept");
    assert!(r.recoverable);
}

// --- stderr capture ---------------------------------------------------------

#[test]
fn lines_split_at_newline_and_pending_line_flushed() {
    let (lines, rest) = feed_all(&[b"one\ntw", b"o\n\nthree"]);
    assert_eq!(lines, vec![(b"one".to_vec(), false), (b"two".to_vec(), false), (Vec::new(), false)]);
    assert_eq!(rest, Some((b"three".to_vec(), false)));
    let (_, rest) = feed_all(&[b"done\n"]);
    assert_eq!(rest, None);
}

#[test]
fn chunking_does_not_change_lines() {
    let whole = feed_all(&[b"alpha\nbeta\ngamma"]);
    let bytewise: Vec<&[u8]> = b"alpha\nbeta\ngamma".chunks(1).collect();
    assert_eq!(feed_all(&bytewise), whole);
}

#[test]
fn long_lines_are_cut_and_marked() {
    let mut long = vec![b'a'; MAX_LOG_LINE_BYTES + 10];
    long.push(b'\n');
    let (lines, _) = feed_all(&[&long, b"ok\n"]);
    assert_eq!(lines.len(), 2);
    assert_eq!(lines[0].0.len(), MAX_LOG_LINE_BYTES);
    assert!(lines[0].1);
    assert_eq!(lines[1], (b"ok".to_vec(), false));
    let set = SecretSet::new();
    let text = stderr_line_text(&set, &lines[0].0, lines[0].1);
    assert!(text.ends_with(LOG_LINE_TRUNCATED_MARKER));
    assert_eq!(text.len(), MAX_LOG_LINE_BYTES + LOG_LINE_TRUNCATED_MARKER.len());
}

#[test]
fn rendering_strips_cr_decodes_and_redacts() {
    let mut set = SecretSet::new();
    register_secret(&mut set, "hunter2");
    let line = b"token=hunter2\r".to_vec();
    assert_eq!(stderr_line_text(&set, &line, false), "token=[REDACTED]");
    let bad = vec![b'o', 0xFF, b'k'];
    assert_eq!(stderr_line_text(&set, &bad, false), "o\u{FFFD}k");
    assert_eq!(log_file_line(&set, "probe", "pw hunter2"), "[probe] pw [REDACTED]\n");
}

// --- redaction ----------------------------------------------------------------

#[test]
fn redaction_replaces_every_registered_secret() {
    let mut set = SecretSet::new();
    register_secret(&mut set, "");
    register_secret(&mut set, "abc");
    register_secret(&mut set, "abc");
    register_secret(&mut set, "xyz");
    assert_eq!(redact(&set, "abcabc-xyz-ab"), "[REDACTED][REDACTED]-[REDACTED]-ab");
    assert_eq!(REDACTED, "[REDACTED]");
}

#[test]
fn text_without_secrets_is_unchanged() {
    let mut set = SecretSet::new();
    register_secret(&mut set, "s3cret");
    assert_eq!(redact(&set, "nothing to hide"), "nothing to hide");
}

// --- credential templating and spawning ----------------------------------------

#[test]
fn placeholders_resolve_and_register() {
    let mut set = SecretSet::new();
    assert_eq!(env_placeholders("Bearer ${TOKEN}-${HOST}"), vec!["TOKEN".to_string(), "HOST".to_string()]);
    let values = vec![Some("t0k".to_string()), Some("h".to_string())];
    let r = resolve_env_value(&mut set, "probe", "Bearer ${TOKEN}-${HOST}", &values).unwrap();
    assert_eq!(r, "Bearer t0k-h");
    assert_eq!(redact(&set, "t0k h"), "[REDACTED] [REDACTED]");
}

#[test]
fn literal_and_malformed_placeholders_pass_through() {
    let mut set = SecretSet::new();
    let none: Vec<Option<String>> = Vec::new();
    assert_eq!(resolve_env_value(&mut set, "p", "plain", &none).unwrap(), "plain");
    assert_eq!(resolve_env_value(&mut set, "p", "a${}b", &none).unwrap(), "a${}b");
    assert_eq!(resolve_env_value(&mut set, "p", "x${OPEN", &none).unwrap(), "x${OPEN");
}

#[test]
fn missing_credential_fails_closed() {
    let mut set = SecretSet::new();
    let values = vec![Some("a".to_string()), None];
    match resolve_env_value(&mut set, "probe", "${A}${B}", &values) {
        Err(ToolError::CredentialResolution { server, key }) => {
            assert_eq!(server, "probe");
            assert_eq!(key, "B");
        }
        other => panic!("unexpected {other:?}"),
    }
    let env = vec![("A".to_string(), "${A}".to_string()), ("B".to_string(), "${B}".to_string())];
    let per_entry = vec![vec![Some("a".to_string())], vec![None]];
    assert!(matches!(
        resolve_server_env(&mut set, "probe", &env, &per_entry),
        Err(ToolError::CredentialResolution { key, .. }) if key == "B"
    ));
    let per_entry = vec![vec![Some("a".to_string())], vec![Some("b".to_string())]];
    let ok = resolve_server_env(&mut set, "probe", &env, &per_entry).unwrap();
    assert_eq!(ok, vec![("A".to_string(), "a".to_string()), ("B".to_string(), "b".to_string())]);
}

#[test]
fn spawn_plan_passes_only_resolved_env() {
    let mut cfg = stdio_server("/bin/probe");
    cfg.args = vec!["--x".to_string()];
    cfg.log_file = Some("/tmp/p.log".to_string());
    let mut set = SecretSet::new();
    let env = vec![("TOKEN".to_string(), "v4lue".to_string())];
    let plan = spawn_plan(&mut set, &cfg, &Vec::new(), &env, Some("/srv"));
    assert_eq!(plan.program, "/bin/probe");
    assert_eq!(plan.args, vec!["--x".to_string()]);
    assert_eq!(plan.cwd.as_deref(), Some("/srv"));
    assert_eq!(plan.env, env);
    assert!(plan.capture_stderr);
    assert_eq!(redact(&set, "v4lue"), "[REDACTED]");
    let mut bare = stdio_server("x");
    bare.command = None;
    let plan = spawn_plan(&mut set, &bare, &Vec::new(), &Vec::new(), None);
    assert_eq!(plan.program, "");
    assert!(!plan.capture_stderr);
    assert!(plan.cwd.is_none());
}

#[test]
fn spawn_plan_puts_os_baseline_first_and_lets_server_win() {
    let cfg = stdio_server("/bin/probe");
    let mut set = SecretSet::new();
    let pair = |k: &str, v: &str| (k.to_string(), v.to_string());
    let baseline = vec![
        pair("SYSTEMROOT", "C:\\Windows"),
        pair("HOME", "/home/ambient"),
        pair("TEMP", "C:\\Temp"),
        pair("NUMBER_OF_PROCESSORS", "8"),
    ];
    let env = vec![pair("TEMP", "D:\\scratch"), pair("TOKEN", "s3cret")];
    let plan = spawn_plan(&mut set, &cfg, &baseline, &env, None);
    assert_eq!(
        plan.env,
        vec![
            pair("SYSTEMROOT", "C:\\Windows"),
            pair("NUMBER_OF_PROCESSORS", "8"),
            pair("TEMP", "D:\\scratch"),
            pair("TOKEN", "s3cret"),
        ]
    );
    assert_eq!(redact(&set, "s3cret"), "[REDACTED]");
    assert_eq!(redact(&set, "C:\\Windows"), "C:\\Windows");
}

#[test]
fn os_baseline_keys_are_the_windows_system_variables() {
    assert_eq!(
        os_baseline_keys(),
        vec![
            "SYSTEMROOT", "SYSTEMDRIVE", "WINDIR", "COMSPEC", "PATHEXT", "TEMP", "TMP", "PROGRAMDATA",
            "NUMBER_OF_PROCESSORS",
        ]
    );
}

#[test]
fn containment_kills_only_positive_groups() {
    assert_eq!(ContainmentGuard::for_child(Some(42)).kill_target(), Some(42));
    assert_eq!(ContainmentGuard::for_child(None).kill_target(), None);
    assert_eq!(ContainmentGuard::Unix { pgid: 0 }.kill_target(), None);
    let w = RedactingFileMakeWriter::new(std::path::PathBuf::from("/tmp/fanin.log"));
    assert_eq!(w.path(), &std::path::PathBuf::from("/tmp/fanin.log"));
}

#[test]
fn failed_send_is_a_disconnect() {
    match map_service_error(ServiceFailure::TransportSend, "probe", "echo") {
        ToolError::UpstreamDisconnected { server, tool } => {
            assert_eq!((server.as_str(), tool.as_str()), ("probe", "echo"));
        }
        other => panic!("unexpected {other:?}"),
    }
}

#[test]
fn failed_refetch_stays_stale() {
    let (stale, r) = fanin_mcp::registry::refetch_outcome("probe", Ok::<u32, ServiceFailure>(4));
    assert!(!stale);
    assert_eq!(r.unwrap(), 4);
    let (stale, r) = fanin_mcp::registry::refetch_outcome::<u32>("probe", Err(ServiceFailure::TransportClosed));
    assert!(stale);
    match r {
        Err(ToolError::UpstreamDisconnected { server, tool }) => {
            assert_eq!(server, "probe");
            assert_eq!(tool, "");
        }
        other => panic!("unexpected {other:?}"),
    }
}

#[test]
fn credential_lookup_prefers_the_chosen_store() {
    let k = Some("from-keyring".to_string());
    let e = Some("from-env".to_string());
    assert_eq!(credential_value(CredentialStoreChoice::Keyring, k.clone(), e.clone()), k);
    assert_eq!(credential_value(CredentialStoreChoice::Keyring, None, e.clone()), e);
    assert_eq!(credential_value(CredentialStoreChoice::Env, k.clone(), e.clone()), e);
    assert_eq!(credential_value(CredentialStoreChoice::Env, k, None), None);
}

#[test]
fn structured_error_content_names_server_and_tool() {
    let e = ToolError::UpstreamDisconnected { server: "probe".to_string(), tool: "echo_ok".to_string() };
    let Json::Object(m) = error_content(&e) else { panic!("object expected") };
    let keys: Vec<&str> = m.iter().map(|(k, _)| k.as_str()).collect();
    assert_eq!(keys, vec!["code", "server", "tool", "message", "recoverable"]);
    assert!(matches!(&m[0].1, Json::Str(c) if c == "upstream_disconnected"));
    assert!(matches!(&m[1].1, Json::Str(s) if s == "probe"));
    assert!(matches!(&m[2].1, Json::Str(t) if t == "echo_ok"));
    assert!(matches!(&m[3].1, Json::Str(s) if s == "server `probe` disconnected"));
    assert!(matches!(&m[4].1, Json::Bool(false)));
    let e = ToolError::NamespaceDenied { server: "probe".to_string(), tool: None };
    let Json::Object(m) = error_content(&e) else { panic!("object expected") };
    let keys: Vec<&str> = m.iter().map(|(k, _)| k.as_str()).collect();
    assert_eq!(keys, vec!["code", "server", "message", "recoverable"]);
}
