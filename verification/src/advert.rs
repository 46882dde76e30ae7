//! The configured table of contents advertised in `initialize.instructions`
//! and appended to the `list_tools` description.
//!
//! Every allowed server gets one line (with its sanitized config
//! description). Optional tool-name hints drawn from a capability cache are
//! added while they fit a fixed byte budget; the namespace ACL, never the
//! cache, decides which tool names may appear.

use vstd::prelude::*;

use crate::config::TomlConfig;
use crate::lookup::{find_entry, lookup};
use crate::namespace::ActiveNamespace;
use crate::server::{
    display_identifier, row_description, sanitize_list_row_description,
    sanitize_upstream_identifier,
};
use crate::text::{
    decimal, push_decimal, push_str, str_chars, string_from_chars, trim_end, trim_end_chars,
    utf8_len, utf8_len_sat, views,
};

verus! {

/// The header that opens the table of contents.
pub const TOC_HEADER: &'static str = "\n\nConfigured servers:\n";

/// The byte budget that server lines plus tool hints may use.
pub const INSTRUCTIONS_BUDGET: usize = 3000;

/// Cached tool summaries per server: `(server, [(tool, summary)])`.
pub type CacheSummaries = Vec<(String, Vec<(String, String)>)>;

/// The sanitized, non-empty config description of a server.
pub open spec fn server_description(config: TomlConfig, server: Seq<char>) -> Option<Seq<char>> {
    match lookup(config.servers@, server) {
        Some(sc) => match sc.description {
            Some(d) => if row_description(d@).len() > 0 {
                Some(row_description(d@))
            } else {
                None
            },
            None => None,
        },
        None => None,
    }
}

/// The line of a server: `- <server>: <description>` or `- <server>`.
pub open spec fn toc_entry(config: TomlConfig, server: Seq<char>) -> Seq<char> {
    match server_description(config, server) {
        Some(d) => "- "@ + server + ": "@ + d + "\n"@,
        None => "- "@ + server + "\n"@,
    }
}

/// Total byte length of the lines of `servers`.
pub open spec fn entries_len(config: TomlConfig, servers: Seq<Seq<char>>) -> nat
    decreases servers.len(),
{
    if servers.len() == 0 {
        0
    } else {
        entries_len(config, servers.drop_last()) + utf8_len(toc_entry(config, servers.last()))
    }
}

/// The displayed names of the cached tools of `list` that the namespace
/// allows on `server`, in cache order.
pub open spec fn hint_names_of(
    ns: ActiveNamespace,
    server: Seq<char>,
    list: Seq<(String, String)>,
) -> Seq<Seq<char>>
    decreases list.len(),
{
    if list.len() == 0 {
        Seq::empty()
    } else {
        let rest = hint_names_of(ns, server, list.drop_last());
        if ns.tool_visible(server, list.last().0@) {
            rest.push(display_identifier(list.last().0@))
        } else {
            rest
        }
    }
}

/// The cached tool list of a server (empty when absent).
pub open spec fn cached_tools(sums: Seq<(String, Vec<(String, String)>)>, server: Seq<char>) -> Seq<
    (String, String),
> {
    match lookup(sums, server) {
        Some(v) => v@,
        None => Seq::empty(),
    }
}

/// Hint names of a server.
pub open spec fn hint_names(
    ns: ActiveNamespace,
    sums: Seq<(String, Vec<(String, String)>)>,
    server: Seq<char>,
) -> Seq<Seq<char>> {
    hint_names_of(ns, server, cached_tools(sums, server))
}

/// `parts` joined by `sep`.
pub open spec fn join(parts: Seq<Seq<char>>, sep: Seq<char>) -> Seq<char>
    decreases parts.len(),
{
    if parts.len() == 0 {
        Seq::empty()
    } else if parts.len() == 1 {
        parts[0]
    } else {
        join(parts.drop_last(), sep) + sep + parts.last()
    }
}

/// The ` +N more` suffix for `omitted` hidden names.
pub open spec fn more_text(omitted: nat) -> Seq<char> {
    if omitted > 0 {
        " +"@ + decimal(omitted) + " more"@
    } else {
        Seq::empty()
    }
}

/// The hint showing the first `shown` names: ` (tools: a, b +N more)`.
pub open spec fn hint_text(names: Seq<Seq<char>>, shown: nat) -> Seq<char> {
    " (tools: "@ + join(names.take(shown as int), ", "@) + more_text((names.len() - shown) as nat)
        + ")"@
}

/// The largest `shown` in `1..=k` whose hint fits `budget` bytes (0: none).
pub open spec fn best_shown(names: Seq<Seq<char>>, budget: nat, k: nat) -> nat
    decreases k,
{
    if k == 0 {
        0
    } else if utf8_len(hint_text(names, k)) <= budget {
        k
    } else {
        best_shown(names, budget, (k - 1) as nat)
    }
}

/// The hint chosen for a server under `budget` (empty when none fits).
pub open spec fn chosen_hint(names: Seq<Seq<char>>, budget: nat) -> Seq<char> {
    let k = best_shown(names, budget, names.len());
    if k > 0 {
        hint_text(names, k)
    } else {
        Seq::empty()
    }
}

/// The lines of `servers`, each followed by its hint, spending `budget`.
pub open spec fn toc_lines(
    config: TomlConfig,
    ns: ActiveNamespace,
    sums: Seq<(String, Vec<(String, String)>)>,
    servers: Seq<Seq<char>>,
    budget: nat,
) -> Seq<char>
    decreases servers.len(),
{
    if servers.len() == 0 {
        Seq::empty()
    } else {
        let s = servers[0];
        let hint = chosen_hint(hint_names(ns, sums, s), budget);
        trim_end(toc_entry(config, s)) + hint + "\n"@ + toc_lines(
            config,
            ns,
            sums,
            servers.drop_first(),
            (budget - utf8_len(hint)) as nat,
        )
    }
}

/// The budget left for hints once the header and every line are counted.
pub open spec fn hint_budget(config: TomlConfig, servers: Seq<Seq<char>>) -> nat {
    let base = utf8_len(TOC_HEADER@) + entries_len(config, servers);
    if base >= INSTRUCTIONS_BUDGET {
        0
    } else {
        (INSTRUCTIONS_BUDGET - base) as nat
    }
}

/// The table of contents of a namespace, `None` when it allows no server.
pub open spec fn spec_toc(
    config: TomlConfig,
    ns: ActiveNamespace,
    sums: Seq<(String, Vec<(String, String)>)>,
) -> Option<Seq<char>> {
    let servers = ns.sorted_servers();
    if servers.len() == 0 {
        None
    } else {
        Some(TOC_HEADER@ + toc_lines(config, ns, sums, servers, hint_budget(config, servers)))
    }
}

// ---------------------------------------------------------------------------
// Executable construction
// ---------------------------------------------------------------------------

fn toc_entry_string(config: &TomlConfig, server: &str) -> (r: String)
    ensures
        r@ == toc_entry(*config, server@),
{
    let mut line = String::new();
    push_str(&mut line, "- ");
    push_str(&mut line, server);
    let desc = match config.server(server) {
        Some(sc) => match &sc.description {
            Some(d) => {
                let s = sanitize_list_row_description(d.as_str());
                if s.as_str().is_empty() {
                    None
                } else {
                    Some(s)
                }
            },
            None => None,
        },
        None => None,
    };
    match desc {
        Some(d) => {
            push_str(&mut line, ": ");
            push_str(&mut line, d.as_str());
        },
        None => {},
    }
    push_str(&mut line, "\n");
    line
}

fn hint_name_list(
    ns: &ActiveNamespace,
    sums: &CacheSummaries,
    server: &str,
) -> (r: Vec<String>)
    ensures
        views(r@) == hint_names(*ns, sums@, server@),
{
    let mut out: Vec<String> = Vec::new();
    match find_entry(sums, server) {
        None => {
            assert(views(out@) =~= Seq::<Seq<char>>::empty());
        },
        Some(e) => {
            let list = &sums[e].1;
            let mut i: usize = 0;
            while i < list.len()
                invariant
                    i <= list.len(),
                    views(out@) == hint_names_of(*ns, server@, list@.take(i as int)),
                decreases list.len() - i,
            {
                assert(list@.take(i + 1).drop_last() =~= list@.take(i as int));
                let name = &list[i].0;
                if ns.is_tool_allowed(server, name.as_str()) {
                    let d = sanitize_upstream_identifier(name.as_str());
                    out.push(d);
                    assert(views(out@) =~= hint_names_of(*ns, server@, list@.take(i as int)).push(
                        display_identifier(name@),
                    ));
                }
                i = i + 1;
            }
            assert(list@.take(list.len() as int) =~= list@);
        },
    }
    out
}

fn hint_string(names: &Vec<String>, shown: usize) -> (r: String)
    requires
        shown <= names.len(),
    ensures
        r@ == hint_text(views(names@), shown as nat),
{
    let ghost nv = views(names@);
    let mut h = String::new();
    push_str(&mut h, " (tools: ");
    let ghost start = h@;
    let mut j: usize = 0;
    while j < shown
        invariant
            j <= shown,
            shown <= names.len(),
            nv == views(names@),
            h@ == start + join(nv.take(j as int), ", "@),
        decreases shown - j,
    {
        assert(nv.take(j + 1).drop_last() =~= nv.take(j as int));
        assert(nv.take(j + 1).last() == names@[j as int]@);
        if j > 0 {
            push_str(&mut h, ", ");
        } else {
            assert(nv.take(j as int) =~= Seq::<Seq<char>>::empty());
        }
        push_str(&mut h, names[j].as_str());
        j = j + 1;
    }
    let omitted = names.len() - shown;
    if omitted > 0 {
        push_str(&mut h, " +");
        push_decimal(&mut h, omitted);
        push_str(&mut h, " more");
    }
    push_str(&mut h, ")");
    h
}

/// Chooses the hint for a server: the most names whose hint fits `budget`.
fn choose_hint(names: &Vec<String>, budget: usize) -> (r: (String, usize))
    requires
        budget <= INSTRUCTIONS_BUDGET,
    ensures
        r.0@ == chosen_hint(views(names@), budget as nat),
        r.1 as nat == utf8_len(r.0@),
        r.1 <= budget,
{
    let ghost nv = views(names@);
    let mut k: usize = names.len();
    while k > 0
        invariant
            k <= names.len(),
            nv == views(names@),
            best_shown(nv, budget as nat, names.len() as nat) == best_shown(
                nv,
                budget as nat,
                k as nat,
            ),
            budget <= INSTRUCTIONS_BUDGET,
        decreases k,
    {
        let h = hint_string(names, k);
        let n = utf8_len_sat(h.as_str());
        if n <= budget {
            return (h, n);
        }
        k = k - 1;
    }
    (String::new(), 0)
}

/// The sum of line lengths plus the header, saturating at `usize::MAX`.
fn base_length(config: &TomlConfig, servers: &Vec<String>) -> (r: usize)
    ensures
        r as int == if utf8_len(TOC_HEADER@) + entries_len(*config, views(servers@))
            <= usize::MAX {
            (utf8_len(TOC_HEADER@) + entries_len(*config, views(servers@))) as int
        } else {
            usize::MAX as int
        },
{
    let ghost sv = views(servers@);
    let mut total = utf8_len_sat(TOC_HEADER);
    let mut i: usize = 0;
    while i < servers.len()
        invariant
            i <= servers.len(),
            sv == views(servers@),
            total as int == if utf8_len(TOC_HEADER@) + entries_len(*config, sv.take(i as int))
                <= usize::MAX {
                (utf8_len(TOC_HEADER@) + entries_len(*config, sv.take(i as int))) as int
            } else {
                usize::MAX as int
            },
        decreases servers.len() - i,
    {
        assert(sv.take(i + 1).drop_last() =~= sv.take(i as int));
        assert(sv.take(i + 1).last() == servers@[i as int]@);
        let line = toc_entry_string(config, servers[i].as_str());
        total = total.saturating_add(utf8_len_sat(line.as_str()));
        i = i + 1;
    }
    assert(sv.take(servers.len() as int) =~= sv);
    total
}

/// Builds the configured server table of contents without contacting any
/// upstream: `None` without a config and namespace, or when the namespace
/// allows no server.
pub fn configured_toc(
    config: Option<&TomlConfig>,
    namespace: Option<&ActiveNamespace>,
    cache_summaries: &CacheSummaries,
) -> (r: Option<String>)
    ensures
        match (config, namespace) {
            (Some(c), Some(ns)) => match r {
                Some(t) => spec_toc(*c, *ns, cache_summaries@) == Some(t@),
                None => spec_toc(*c, *ns, cache_summaries@) is None,
            },
            _ => r is None,
        },
{
    let config = match config {
        Some(c) => c,
        None => return None,
    };
    let namespace = match namespace {
        Some(n) => n,
        None => return None,
    };
    let servers = namespace.allowed_servers();
    if servers.len() == 0 {
        return None;
    }
    let ghost sv = views(servers@);
    let base = base_length(config, &servers);
    let mut remaining: usize = if base >= INSTRUCTIONS_BUDGET {
        0
    } else {
        INSTRUCTIONS_BUDGET - base
    };
    let ghost full = toc_lines(*config, *namespace, cache_summaries@, sv, remaining as nat);
    assert(sv.skip(0) =~= sv);
    let mut toc = String::new();
    push_str(&mut toc, TOC_HEADER);
    let mut i: usize = 0;
    while i < servers.len()
        invariant
            i <= servers.len(),
            sv == views(servers@),
            remaining <= INSTRUCTIONS_BUDGET,
            TOC_HEADER@ + full == toc@ + toc_lines(
                *config,
                *namespace,
                cache_summaries@,
                sv.skip(i as int),
                remaining as nat,
            ),
        decreases servers.len() - i,
    {
        let server = servers[i].as_str();
        assert(sv.skip(i as int)[0] == server@);
        assert(sv.skip(i as int).drop_first() =~= sv.skip(i + 1));
        let entry = toc_entry_string(config, server);
        let trimmed = string_from_chars(&trim_end_chars(&str_chars(entry.as_str())));
        let names = hint_name_list(namespace, cache_summaries, server);
        let (hint, used) = choose_hint(&names, remaining);
        push_str(&mut toc, trimmed.as_str());
        push_str(&mut toc, hint.as_str());
        push_str(&mut toc, "\n");
        remaining = remaining - used;
        i = i + 1;
    }
    assert(sv.skip(servers.len() as int) =~= Seq::<Seq<char>>::empty());
    Some(toc)
}

} // verus!
