//! Configuration — the server config model, CLI flag plumbing and the
//! fail-fast startup validation.
//!
//! Schema of the config file:
//!
//! ```toml
//! [servers.<name>]
//! transport = "stdio"          # optional; defaults to "stdio"
//! command = '<path>'           # required for stdio
//! args = []                    # optional; default empty
//! cwd = '<path>'               # optional; may contain ${VAR}
//! timeout_secs = 60            # optional; default 60
//! log_file = '<path>'          # optional
//! description = '<text>'       # optional; advertised to clients
//! [servers.<name>.env]         # optional; values may contain ${VAR}
//! # or:
//! transport = "streamable-http"
//! endpoint = "http://127.0.0.1:8080/mcp"
//! [servers.<name>.headers]     # optional; values may contain ${VAR}
//!
//! [namespaces.<name>]
//! servers = ["<name>"]         # the servers visible in this namespace
//!
//! [namespaces.<name>.tools]    # optional per-server name-level allow-list
//! <server> = ["<tool>", ...]   # absent entry for an allowed server => all its tools visible
//! ```
//!
//! Tables are held as ordered `(name, value)` entries; names are unique in a
//! parsed file.

use vstd::prelude::*;

use crate::compose::{extends_check, extends_error, extends_fuel, in_effective, in_effective_exec};
use crate::credentials::CredentialStoreChoice;
use crate::error::{StartupError, StartupErrorView};
use crate::lookup::{find_entry, has_key, lists, lookup};
use crate::text::{push_char, push_str, str_chars, str_eq, string_of, trim, trim_chars};

verus! {

/// `std::path::PathBuf`, carried opaquely in [`CliConfig`].
#[verifier::external_type_specification]
#[verifier::external_body]
pub struct ExPathBuf(std::path::PathBuf);

/// The selected namespace name when `--namespace` is omitted.
pub const DEFAULT_NAMESPACE: &'static str = "default";

/// The resolved CLI configuration for a `serve` or `check` invocation.
#[derive(Debug, Clone, Default)]
pub struct CliConfig {
    /// The selected namespace for this session (empty selects the default).
    pub namespace: String,
    /// The path to the server config file (`--config`).
    pub config_path: Option<std::path::PathBuf>,
    /// Preferred credential backend for `${VAR}` resolution.
    pub credential_store: CredentialStoreChoice,
}

impl CliConfig {
    /// Build a [`CliConfig`] from the parsed global flags.
    pub fn from_flags(
        namespace: Option<String>,
        config_path: Option<std::path::PathBuf>,
        credential_store: CredentialStoreChoice,
    ) -> (r: Self)
        ensures
            r.namespace@ == (match namespace {
                Some(n) => n@,
                None => Seq::<char>::empty(),
            }),
            r.config_path == config_path,
            r.credential_store == credential_store,
    {
        let namespace = match namespace {
            Some(n) => n,
            None => String::new(),
        };
        CliConfig { namespace, config_path, credential_store }
    }
}

/// A single upstream server (`[servers.<name>]`).
#[derive(Debug, Clone)]
pub struct ServerConfig {
    /// Transport kind. Optional; defaults to `"stdio"`.
    pub transport: Option<String>,
    /// The spawn command. Required for stdio servers.
    pub command: Option<String>,
    /// Streamable-HTTP endpoint URL. Required for `transport = "streamable-http"`.
    pub endpoint: Option<String>,
    /// Spawn args.
    pub args: Vec<String>,
    /// Optional stdio child working directory; may contain `${VAR}`.
    pub cwd: Option<String>,
    /// Per-server env vars; values may contain `${VAR}`.
    pub env: Vec<(String, String)>,
    /// Static HTTP headers for Streamable-HTTP upstreams; values may contain `${VAR}`.
    pub headers: Vec<(String, String)>,
    /// Optional per-server log sink for child stderr and upstream log notifications.
    pub log_file: Option<String>,
    /// Per-server upstream call timeout in seconds.
    pub timeout_secs: u64,
    /// Optional one-line description advertised to clients.
    pub description: Option<String>,
}

/// A single namespace (`[namespaces.<name>]`).
#[derive(Debug, Clone)]
pub struct NamespaceConfig {
    /// The servers visible in this namespace.
    pub servers: Vec<String>,
    /// Optional per-server tool allow-lists (name-level only).
    pub tools: Vec<(String, Vec<String>)>,
    /// Namespaces whose servers and tool filters this one inherits.
    pub extends: Vec<String>,
}

/// The config file: named upstreams and named namespaces.
#[derive(Debug, Clone, Default)]
pub struct TomlConfig {
    /// `[servers.<name>]` — named upstreams.
    pub servers: Vec<(String, ServerConfig)>,
    /// `[namespaces.<name>]` — named namespaces.
    pub namespaces: Vec<(String, NamespaceConfig)>,
}

/// Default for `timeout_secs` (60 seconds).
pub fn default_timeout_secs() -> (r: u64)
    ensures
        r == 60,
{
    60
}

// ---------------------------------------------------------------------------
// Specification of the startup validation
// ---------------------------------------------------------------------------

/// A character allowed in a server name: `[a-z0-9-]`.
pub open spec fn is_server_name_char(c: char) -> bool {
    ('a' <= c && c <= 'z') || ('0' <= c && c <= '9') || c == '-'
}

/// A server name matching `^[a-z0-9-]+$`.
pub open spec fn valid_server_name(n: Seq<char>) -> bool {
    n.len() > 0 && forall|i: int| 0 <= i < n.len() ==> is_server_name_char(#[trigger] n[i])
}

/// The characters of `n` outside `[a-z0-9-]`, in order.
pub open spec fn disallowed_chars(n: Seq<char>) -> Seq<char> {
    n.filter(|c: char| !is_server_name_char(c))
}

/// The reason text of an invalid server name.
pub open spec fn server_name_reason(n: Seq<char>) -> Seq<char> {
    if n.len() == 0 {
        "server name must not be empty"@
    } else {
        "server name must match [a-z0-9-]+; found disallowed character(s): "@ + disallowed_chars(
            n,
        )
    }
}

/// The error for a server name, if it is invalid.
pub open spec fn name_error(n: Seq<char>) -> Option<StartupErrorView> {
    if valid_server_name(n) {
        None
    } else {
        Some(StartupErrorView::InvalidServerName { server: n, reason: server_name_reason(n) })
    }
}

/// The transport kind of a server, defaulting to `stdio`.
pub open spec fn spec_transport_kind(s: ServerConfig) -> Seq<char> {
    match s.transport {
        Some(t) => t@,
        None => "stdio"@,
    }
}

/// A supported transport kind.
pub open spec fn supported_transport(k: Seq<char>) -> bool {
    k == "stdio"@ || k == "streamable-http"@
}

/// The error for a server's transport, if it is unsupported.
pub open spec fn transport_error(name: Seq<char>, s: ServerConfig) -> Option<StartupErrorView> {
    if supported_transport(spec_transport_kind(s)) {
        None
    } else {
        Some(
            StartupErrorView::UnsupportedTransport {
                server: name,
                transport: spec_transport_kind(s),
            },
        )
    }
}

/// A field present but blank after trimming.
pub open spec fn blank(o: Option<String>) -> bool {
    o is Some && trim(o->0@).len() == 0
}

/// A field present and non-blank after trimming.
pub open spec fn filled(o: Option<String>) -> bool {
    o is Some && trim(o->0@).len() > 0
}

/// The error for a server's transport-specific fields, if any.
pub open spec fn field_error(name: Seq<char>, s: ServerConfig) -> Option<StartupErrorView> {
    if blank(s.cwd) {
        Some(StartupErrorView::EmptyCwd { server: name })
    } else if spec_transport_kind(s) == "stdio"@ && !filled(s.command) {
        Some(StartupErrorView::StdioServerMissingCommand { server: name })
    } else if spec_transport_kind(s) == "streamable-http"@ && !filled(s.endpoint) {
        Some(StartupErrorView::HttpServerMissingEndpoint { server: name })
    } else {
        None
    }
}

/// The namespace a `--namespace` value selects: empty selects the default.
pub open spec fn active_namespace(selected: Seq<char>) -> Seq<char> {
    if selected.len() == 0 {
        DEFAULT_NAMESPACE@
    } else {
        selected
    }
}

/// The first error of a sequence of per-item checks.
pub open spec fn first_error(errs: Seq<Option<StartupErrorView>>) -> Option<StartupErrorView>
    decreases errs.len(),
{
    if errs.len() == 0 {
        None
    } else if errs[0] is Some {
        errs[0]
    } else {
        first_error(errs.drop_first())
    }
}

/// `a` if it is an error, otherwise `b`.
pub open spec fn or_else(
    a: Option<StartupErrorView>,
    b: Option<StartupErrorView>,
) -> Option<StartupErrorView> {
    if a is Some {
        a
    } else {
        b
    }
}

/// The error for a tool-filter key outside the namespace's effective servers.
pub open spec fn tool_key_error(c: TomlConfig, ns_name: Seq<char>, key: Seq<char>) -> Option<
    StartupErrorView,
> {
    if in_effective(c, ns_name, key, extends_fuel(c)) {
        None
    } else {
        Some(StartupErrorView::ToolFilterUnknownServer { namespace: ns_name, server: key })
    }
}

/// Per-key checks of a namespace's tool filters.
pub open spec fn namespace_tool_errors(c: TomlConfig, ns_name: Seq<char>, ns: NamespaceConfig) -> Seq<
    Option<StartupErrorView>,
> {
    ns.tools@.map_values(|t: (String, Vec<String>)| tool_key_error(c, ns_name, t.0@))
}

/// The first tool-filter key of a namespace outside its effective servers.
pub open spec fn namespace_tools_error(
    c: TomlConfig,
    ns_name: Seq<char>,
    ns: NamespaceConfig,
) -> Option<StartupErrorView> {
    first_error(namespace_tool_errors(c, ns_name, ns))
}

/// The error for a listed server that `[servers]` does not declare.
pub open spec fn server_decl_error(c: TomlConfig, ns_name: Seq<char>, server: Seq<char>) -> Option<
    StartupErrorView,
> {
    if has_key(c.servers@, server) {
        None
    } else {
        Some(StartupErrorView::UndeclaredServer { namespace: ns_name, server })
    }
}

/// Per-server declaration checks of a namespace's server list.
pub open spec fn namespace_server_errors(c: TomlConfig, ns_name: Seq<char>, ns: NamespaceConfig) -> Seq<
    Option<StartupErrorView>,
> {
    ns.servers@.map_values(|s: String| server_decl_error(c, ns_name, s@))
}

/// Per-server name checks.
pub open spec fn name_errors(c: TomlConfig) -> Seq<Option<StartupErrorView>> {
    c.servers@.map_values(|e: (String, ServerConfig)| name_error(e.0@))
}

/// Per-server transport checks.
pub open spec fn transport_errors(c: TomlConfig) -> Seq<Option<StartupErrorView>> {
    c.servers@.map_values(|e: (String, ServerConfig)| transport_error(e.0@, e.1))
}

/// Per-server required-field checks.
pub open spec fn field_errors(c: TomlConfig) -> Seq<Option<StartupErrorView>> {
    c.servers@.map_values(|e: (String, ServerConfig)| field_error(e.0@, e.1))
}

/// Per-namespace `extends` checks.
pub open spec fn extends_errors(c: TomlConfig) -> Seq<Option<StartupErrorView>> {
    c.namespaces@.map_values(|e: (String, NamespaceConfig)| extends_error(c, e.0@, extends_fuel(c)))
}

/// Per-namespace server declaration checks.
pub open spec fn declaration_errors(c: TomlConfig) -> Seq<Option<StartupErrorView>> {
    c.namespaces@.map_values(
        |e: (String, NamespaceConfig)| first_error(namespace_server_errors(c, e.0@, e.1)),
    )
}

/// Per-namespace tool-filter checks.
pub open spec fn tool_filter_errors(c: TomlConfig) -> Seq<Option<StartupErrorView>> {
    c.namespaces@.map_values(|e: (String, NamespaceConfig)| namespace_tools_error(c, e.0@, e.1))
}

/// Check 1: every server name matches `[a-z0-9-]+`.
pub open spec fn names_error(c: TomlConfig) -> Option<StartupErrorView> {
    first_error(name_errors(c))
}

/// Check 2: every transport is supported.
pub open spec fn transports_error(c: TomlConfig) -> Option<StartupErrorView> {
    first_error(transport_errors(c))
}

/// Check 3: transport-specific required fields.
pub open spec fn fields_error(c: TomlConfig) -> Option<StartupErrorView> {
    first_error(field_errors(c))
}

/// Check 4: the selected namespace exists.
pub open spec fn selected_namespace_error(c: TomlConfig, selected: Seq<char>) -> Option<
    StartupErrorView,
> {
    if has_key(c.namespaces@, active_namespace(selected)) {
        None
    } else {
        Some(StartupErrorView::UnknownNamespace { namespace: active_namespace(selected) })
    }
}

/// Check 5: every namespace's `extends` names declared namespaces, without
/// a cycle.
pub open spec fn extends_check_error(c: TomlConfig) -> Option<StartupErrorView> {
    first_error(extends_errors(c))
}

/// Check 6: every server a namespace lists is declared in `[servers]`.
pub open spec fn declarations_error(c: TomlConfig) -> Option<StartupErrorView> {
    first_error(declaration_errors(c))
}

/// Check 7: every tool-filter key of every namespace is one of its
/// effective servers.
pub open spec fn tool_filters_error(c: TomlConfig) -> Option<StartupErrorView> {
    first_error(tool_filter_errors(c))
}

/// The outcome of the startup validation: the first failing check, in order.
pub open spec fn validation_error(c: TomlConfig, selected: Seq<char>) -> Option<
    StartupErrorView,
> {
    or_else(
        names_error(c),
        or_else(
            transports_error(c),
            or_else(
                fields_error(c),
                or_else(
                    selected_namespace_error(c, selected),
                    or_else(
                        extends_check_error(c),
                        or_else(declarations_error(c), tool_filters_error(c)),
                    ),
                ),
            ),
        ),
    )
}

/// `first_error` of a sequence whose first `i` items pass and whose item `i` fails.
pub proof fn lemma_first_error_at(errs: Seq<Option<StartupErrorView>>, i: int)
    requires
        0 <= i < errs.len(),
        errs[i] is Some,
        forall|j: int| 0 <= j < i ==> #[trigger] errs[j] is None,
    ensures
        first_error(errs) == errs[i],
    decreases i,
{
    if i > 0 {
        assert forall|j: int| 0 <= j < i - 1 implies #[trigger] errs.drop_first()[j] is None by {
            assert(errs.drop_first()[j] == errs[j + 1]);
        }
        lemma_first_error_at(errs.drop_first(), i - 1);
    }
}

/// `first_error` of a sequence whose items all pass.
pub proof fn lemma_first_error_none(errs: Seq<Option<StartupErrorView>>)
    requires
        forall|j: int| 0 <= j < errs.len() ==> #[trigger] errs[j] is None,
    ensures
        first_error(errs) is None,
    decreases errs.len(),
{
    if errs.len() > 0 {
        assert forall|j: int| 0 <= j < errs.len() - 1 implies #[trigger] errs.drop_first()[j] is None by {
            assert(errs.drop_first()[j] == errs[j + 1]);
        }
        lemma_first_error_none(errs.drop_first());
    }
}

// ---------------------------------------------------------------------------
// Executable validation
// ---------------------------------------------------------------------------

fn is_name_char(c: char) -> (r: bool)
    ensures
        r == is_server_name_char(c),
{
    ('a' <= c && c <= 'z') || ('0' <= c && c <= '9') || c == '-'
}

/// Validate a server name against `^[a-z0-9-]+$`.
///
/// Rejects uppercase, underscore (single `_` and double `__`), spaces, and any
/// other character outside the allowed set, making `server__tool` parsing
/// unambiguous.
pub fn validate_server_name(name: &str) -> (r: Result<(), StartupError>)
    ensures
        match r {
            Ok(()) => valid_server_name(name@),
            Err(e) => name_error(name@) == e.validation_view() && e.validation_view()
                is Some,
        },
{
    let cs = str_chars(name);
    if cs.len() == 0 {
        return Err(
            StartupError::InvalidServerName {
                server: string_of(name),
                reason: string_of("server name must not be empty"),
            },
        );
    }
    let mut bad = String::new();
    let mut all_ok = true;
    let mut i: usize = 0;
    while i < cs.len()
        invariant
            cs@ == name@,
            i <= cs.len(),
            bad@ == disallowed_chars(cs@.take(i as int)),
            all_ok == (forall|j: int| 0 <= j < i ==> is_server_name_char(#[trigger] cs@[j])),
        decreases cs.len() - i,
    {
        let c = cs[i];
        assert(cs@.take(i + 1).drop_last() =~= cs@.take(i as int));
        proof {
            reveal_with_fuel(Seq::<_>::filter, 1);
        }
        if !is_name_char(c) {
            push_char(&mut bad, c);
            all_ok = false;
        }
        i = i + 1;
    }
    assert(cs@.take(cs.len() as int) =~= cs@);
    if all_ok {
        return Ok(());
    }
    let mut reason = string_of("server name must match [a-z0-9-]+; found disallowed character(s): ");
    push_str(&mut reason, bad.as_str());
    Err(StartupError::InvalidServerName { server: string_of(name), reason })
}

impl ServerConfig {
    /// Returns the configured transport kind, defaulting to stdio.
    pub fn transport_kind(&self) -> (r: &str)
        ensures
            r@ == spec_transport_kind(*self),
    {
        match &self.transport {
            Some(t) => t.as_str(),
            None => "stdio",
        }
    }
}

fn is_blank(o: &Option<String>) -> (r: bool)
    ensures
        r == blank(*o),
{
    match o {
        Some(s) => trim_chars(&str_chars(s.as_str())).len() == 0,
        None => false,
    }
}

fn is_filled(o: &Option<String>) -> (r: bool)
    ensures
        r == filled(*o),
{
    match o {
        Some(s) => trim_chars(&str_chars(s.as_str())).len() > 0,
        None => false,
    }
}

fn check_fields(name: &String, s: &ServerConfig) -> (r: Option<StartupError>)
    ensures
        match r {
            Some(e) => field_error(name@, *s) == e.validation_view() && e.validation_view()
                is Some,
            None => field_error(name@, *s) is None,
        },
{
    if is_blank(&s.cwd) {
        return Some(StartupError::EmptyCwd { server: name.clone() });
    }
    let kind = s.transport_kind();
    if str_eq(kind, "stdio") && !is_filled(&s.command) {
        return Some(StartupError::StdioServerMissingCommand { server: name.clone() });
    }
    if str_eq(kind, "streamable-http") && !is_filled(&s.endpoint) {
        return Some(StartupError::HttpServerMissingEndpoint { server: name.clone() });
    }
    None
}

impl TomlConfig {
    /// Whether a server of that name is configured.
    pub fn has_server(&self, server: &str) -> (r: bool)
        ensures
            r == has_key(self.servers@, server@),
    {
        find_entry(&self.servers, server).is_some()
    }

    /// The configuration of the named server.
    pub fn server(&self, server: &str) -> (r: Option<&ServerConfig>)
        ensures
            match r {
                Some(s) => lookup(self.servers@, server@) == Some(*s),
                None => lookup(self.servers@, server@) is None,
            },
    {
        match find_entry(&self.servers, server) {
            Some(i) => Some(&self.servers[i].1),
            None => None,
        }
    }

    /// Whether a namespace of that name is declared.
    pub fn has_namespace(&self, name: &str) -> (r: bool)
        ensures
            r == has_key(self.namespaces@, name@),
    {
        find_entry(&self.namespaces, name).is_some()
    }

    /// The configuration of the named namespace.
    pub fn namespace(&self, name: &str) -> (r: Option<&NamespaceConfig>)
        ensures
            match r {
                Some(n) => lookup(self.namespaces@, name@) == Some(*n),
                None => lookup(self.namespaces@, name@) is None,
            },
    {
        match find_entry(&self.namespaces, name) {
            Some(i) => Some(&self.namespaces[i].1),
            None => None,
        }
    }

    /// Run the startup validations against the selected namespace.
    ///
    /// In order: server names match `[a-z0-9-]+`; transports are `stdio` or
    /// `streamable-http`; a `cwd` is not blank, a stdio server has a command
    /// and an HTTP server an endpoint; the selected namespace (empty selects
    /// [`DEFAULT_NAMESPACE`]) exists; every namespace's `extends` names
    /// declared namespaces without a cycle; every server a namespace lists
    /// is declared in `[servers]`; every `[namespaces.<n>.tools]` key is one
    /// of that namespace's effective servers. The first failing check is
    /// reported. Tool names are not validated (tools are known only after
    /// discovery).
    pub fn validate(&self, namespace: &str) -> (r: Result<(), StartupError>)
        ensures
            match r {
                Ok(()) => validation_error(*self, namespace@) is None,
                Err(e) => validation_error(*self, namespace@) == e.validation_view()
                    && e.validation_view() is Some,
            },
    {
        let ghost c = *self;
        // 1. Server names.
        let ghost e1 = name_errors(c);
        let mut i: usize = 0;
        while i < self.servers.len()
            invariant
                c == *self,
                e1 == name_errors(c),
                i <= self.servers.len(),
                forall|j: int| 0 <= j < i ==> #[trigger] e1[j] is None,
            decreases self.servers.len() - i,
        {
            match validate_server_name(self.servers[i].0.as_str()) {
                Ok(()) => {},
                Err(e) => {
                    proof {
                        lemma_first_error_at(e1, i as int);
                    }
                    return Err(e);
                },
            }
            i = i + 1;
        }
        proof {
            lemma_first_error_none(e1);
        }
        // 2. Transports.
        let ghost e2 = transport_errors(c);
        let mut i: usize = 0;
        while i < self.servers.len()
            invariant
                c == *self,
                e2 == transport_errors(c),
                names_error(c) is None,
                i <= self.servers.len(),
                forall|j: int| 0 <= j < i ==> #[trigger] e2[j] is None,
            decreases self.servers.len() - i,
        {
            let kind = self.servers[i].1.transport_kind();
            if !(str_eq(kind, "stdio") || str_eq(kind, "streamable-http")) {
                proof {
                    assert(e2[i as int] == transport_error(c.servers@[i as int].0@, c.servers@[i as int].1));
                    lemma_first_error_at(e2, i as int);
                }
                return Err(
                    StartupError::UnsupportedTransport {
                        server: self.servers[i].0.clone(),
                        transport: string_of(kind),
                    },
                );
            }
            i = i + 1;
        }
        proof {
            lemma_first_error_none(e2);
        }
        // 3. Transport-specific required fields.
        let ghost e3 = field_errors(c);
        let mut i: usize = 0;
        while i < self.servers.len()
            invariant
                c == *self,
                e3 == field_errors(c),
                names_error(c) is None,
                transports_error(c) is None,
                i <= self.servers.len(),
                forall|j: int| 0 <= j < i ==> #[trigger] e3[j] is None,
            decreases self.servers.len() - i,
        {
            match check_fields(&self.servers[i].0, &self.servers[i].1) {
                Some(e) => {
                    proof {
                        lemma_first_error_at(e3, i as int);
                    }
                    return Err(e);
                },
                None => {},
            }
            i = i + 1;
        }
        proof {
            lemma_first_error_none(e3);
        }
        // 4. The selected namespace exists.
        let active: &str = if namespace.is_empty() {
            DEFAULT_NAMESPACE
        } else {
            namespace
        };
        if find_entry(&self.namespaces, active).is_none() {
            return Err(StartupError::UnknownNamespace { namespace: string_of(active) });
        }
        // 5. `extends` names declared namespaces, without a cycle.
        let fuel: usize = self.namespaces.len();
        let ghost e5 = extends_errors(c);
        let mut n: usize = 0;
        while n < self.namespaces.len()
            invariant
                c == *self,
                fuel == extends_fuel(c),
                e5 == extends_errors(c),
                names_error(c) is None,
                transports_error(c) is None,
                fields_error(c) is None,
                selected_namespace_error(c, namespace@) is None,
                n <= self.namespaces.len(),
                forall|j: int| 0 <= j < n ==> #[trigger] e5[j] is None,
            decreases self.namespaces.len() - n,
        {
            match extends_check(self, self.namespaces[n].0.as_str(), fuel) {
                Some(e) => {
                    proof {
                        assert(e5[n as int] == extends_error(c, c.namespaces@[n as int].0@, extends_fuel(c)));
                        lemma_first_error_at(e5, n as int);
                    }
                    return Err(e);
                },
                None => {},
            }
            n = n + 1;
        }
        proof {
            lemma_first_error_none(e5);
        }
        // 6. Listed servers are declared.
        let ghost e6 = declaration_errors(c);
        let mut n: usize = 0;
        while n < self.namespaces.len()
            invariant
                c == *self,
                fuel == extends_fuel(c),
                e6 == declaration_errors(c),
                names_error(c) is None,
                transports_error(c) is None,
                fields_error(c) is None,
                selected_namespace_error(c, namespace@) is None,
                extends_check_error(c) is None,
                n <= self.namespaces.len(),
                forall|j: int| 0 <= j < n ==> #[trigger] e6[j] is None,
            decreases self.namespaces.len() - n,
        {
            let ns_name = &self.namespaces[n].0;
            let ns = &self.namespaces[n].1;
            let ghost es = namespace_server_errors(c, ns_name@, *ns);
            assert(e6[n as int] == first_error(es));
            let mut k: usize = 0;
            while k < ns.servers.len()
                invariant
                    es == namespace_server_errors(c, ns_name@, *ns),
                    e6[n as int] == first_error(es),
                    n < e6.len(),
                    forall|j: int| 0 <= j < n ==> #[trigger] e6[j] is None,
                    c == *self,
                    fuel == extends_fuel(c),
                    e6 == declaration_errors(c),
                    names_error(c) is None,
                    transports_error(c) is None,
                    fields_error(c) is None,
                    selected_namespace_error(c, namespace@) is None,
                    extends_check_error(c) is None,
                    k <= ns.servers.len(),
                    forall|j: int| 0 <= j < k ==> #[trigger] es[j] is None,
                decreases ns.servers.len() - k,
            {
                if !self.has_server(ns.servers[k].as_str()) {
                    proof {
                        assert(es[k as int] == server_decl_error(c, ns_name@, ns.servers@[k as int]@));
                        lemma_first_error_at(es, k as int);
                        lemma_first_error_at(e6, n as int);
                    }
                    return Err(
                        StartupError::UndeclaredServer {
                            namespace: ns_name.clone(),
                            server: ns.servers[k].clone(),
                        },
                    );
                }
                k = k + 1;
            }
            proof {
                lemma_first_error_none(es);
            }
            n = n + 1;
        }
        proof {
            lemma_first_error_none(e6);
        }
        // 7. Tool-filter keys are effective servers.
        let ghost e7 = tool_filter_errors(c);
        let mut n: usize = 0;
        while n < self.namespaces.len()
            invariant
                c == *self,
                fuel == extends_fuel(c),
                e7 == tool_filter_errors(c),
                names_error(c) is None,
                transports_error(c) is None,
                fields_error(c) is None,
                selected_namespace_error(c, namespace@) is None,
                extends_check_error(c) is None,
                declarations_error(c) is None,
                n <= self.namespaces.len(),
                forall|j: int| 0 <= j < n ==> #[trigger] e7[j] is None,
            decreases self.namespaces.len() - n,
        {
            let ns_name = &self.namespaces[n].0;
            let ns = &self.namespaces[n].1;
            let ghost et = namespace_tool_errors(c, ns_name@, *ns);
            assert(e7[n as int] == namespace_tools_error(c, ns_name@, *ns));
            let mut k: usize = 0;
            while k < ns.tools.len()
                invariant
                    et == namespace_tool_errors(c, ns_name@, *ns),
                    e7[n as int] == namespace_tools_error(c, ns_name@, *ns),
                    n < e7.len(),
                    forall|j: int| 0 <= j < n ==> #[trigger] e7[j] is None,
                    c == *self,
                    fuel == extends_fuel(c),
                    e7 == tool_filter_errors(c),
                    names_error(c) is None,
                    transports_error(c) is None,
                    fields_error(c) is None,
                    selected_namespace_error(c, namespace@) is None,
                    extends_check_error(c) is None,
                    declarations_error(c) is None,
                    k <= ns.tools.len(),
                    forall|j: int| 0 <= j < k ==> #[trigger] et[j] is None,
                decreases ns.tools.len() - k,
            {
                if !in_effective_exec(self, ns_name.as_str(), ns.tools[k].0.as_str(), fuel) {
                    proof {
                        assert(et[k as int] == tool_key_error(c, ns_name@, ns.tools@[k as int].0@));
                        lemma_first_error_at(et, k as int);
                        lemma_first_error_at(e7, n as int);
                    }
                    return Err(
                        StartupError::ToolFilterUnknownServer {
                            namespace: ns_name.clone(),
                            server: ns.tools[k].0.clone(),
                        },
                    );
                }
                k = k + 1;
            }
            proof {
                lemma_first_error_none(et);
            }
            n = n + 1;
        }
        proof {
            lemma_first_error_none(e7);
        }
        Ok(())
    }
}

} // verus!
