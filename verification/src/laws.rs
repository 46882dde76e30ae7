//! Properties of the library as a whole, each stated over the spec
//! functions that the operations' contracts use and proved from them.

use vstd::prelude::*;

use crate::advert::{
    best_shown, chosen_hint, entries_len, hint_budget, hint_names_of, hint_text, spec_toc,
    toc_entry, toc_lines, INSTRUCTIONS_BUDGET, TOC_HEADER,
};
use crate::capture::{pending, segments};
use crate::compose::{acl_filter, effective_filter, extends_fuel, in_effective, in_parents, meet, parents_filter};
use crate::config::{
    active_namespace, declaration_errors, declarations_error, first_error, name_error, name_errors,
    names_error, namespace_server_errors, server_decl_error, valid_server_name, validation_error,
    TomlConfig,
};
use crate::error::ToolErrorView;
use crate::handlers::{invoke_request, list_tools_plan, row_of, schema_request, visible_rows, ToolSummary};
use crate::json::Json;
use crate::lookup::{first_key_index, has_key, is_first_key, lemma_least_key, lists, lookup};
use crate::namespace::ActiveNamespace;
use crate::redact::{occurs, occurs_at, redact_seq, replace_all, REDACTED};
use crate::server::{
    display_text, first_sep, lemma_first_sep_unique, neutralize_chars, neutralized, sep_at,
    spec_parse_server_tool,
};
use crate::text::{
    is_white_space, lemma_utf8_len_concat, lemma_utf8_len_ge_len, trim_end, trim_start,
    utf8_len,
};

verus! {

// ---------------------------------------------------------------------------
// Redaction
// ---------------------------------------------------------------------------

proof fn lemma_occurs_drop_first(t: Seq<char>, p: Seq<char>, i: int)
    requires
        t.len() > 0,
        occurs_at(t.drop_first(), p, i),
    ensures
        occurs_at(t, p, i + 1),
{
    assert(t.subrange(i + 1, i + 1 + p.len()) =~= t.drop_first().subrange(i, i + p.len()));
}

proof fn lemma_occurs_skip(t: Seq<char>, p: Seq<char>, n: int, i: int)
    requires
        0 <= n <= t.len(),
        occurs_at(t.skip(n), p, i),
    ensures
        occurs_at(t, p, i + n),
{
    assert(t.subrange(i + n, i + n + p.len()) =~= t.skip(n).subrange(i, i + p.len()));
}

/// Replacing a pattern that does not occur leaves the text unchanged.
proof fn lemma_replace_absent(t: Seq<char>, p: Seq<char>, r: Seq<char>)
    requires
        !occurs(t, p),
    ensures
        replace_all(t, p, r) == t,
    decreases t.len(),
{
    if t.len() > 0 {
        assert(!occurs_at(t, p, 0));
        assert(!occurs(t.drop_first(), p)) by {
            if occurs(t.drop_first(), p) {
                let i = choose|i: int| occurs_at(t.drop_first(), p, i);
                lemma_occurs_drop_first(t, p, i);
            }
        }
        lemma_replace_absent(t.drop_first(), p, r);
        assert(seq![t[0]] + t.drop_first() =~= t);
    }
}

/// Text in which no secret occurs is left unchanged by redaction.
pub proof fn law_redact_identity_without_secrets(t: Seq<char>, secrets: Seq<Seq<char>>)
    requires
        forall|i: int| 0 <= i < secrets.len() ==> !occurs(t, #[trigger] secrets[i]),
    ensures
        redact_seq(t, secrets) == t,
    decreases secrets.len(),
{
    if secrets.len() > 0 {
        law_redact_identity_without_secrets(t, secrets.drop_last());
        assert(!occurs(t, secrets[secrets.len() - 1]));
        lemma_replace_absent(t, secrets.last(), REDACTED@);
    }
}

/// A secret the redaction marker cannot produce: non-empty, without
/// brackets, and not part of `[REDACTED]`.
pub open spec fn marker_safe(q: Seq<char>) -> bool {
    &&& q.len() > 0
    &&& !q.contains('[')
    &&& !q.contains(']')
    &&& !occurs(REDACTED@, q)
}

/// If the first `k` characters of a replacement's output hold no `[`, they
/// are the first `k` characters of its input.
proof fn lemma_bracket_free_prefix(t: Seq<char>, p: Seq<char>, k: int)
    requires
        p.len() > 0,
        0 <= k <= replace_all(t, p, REDACTED@).len(),
        forall|j: int| 0 <= j < k ==> replace_all(t, p, REDACTED@)[j] != '[',
    ensures
        k <= t.len(),
        replace_all(t, p, REDACTED@).take(k) == t.take(k),
    decreases t.len(),
{
    reveal_strlit("[REDACTED]");
    let out = replace_all(t, p, REDACTED@);
    if t.len() == 0 {
        assert(out.len() == 0);
    } else if occurs_at(t, p, 0) {
        assert(out[0] == '[');
        assert(k == 0);
        assert(out.take(0) =~= t.take(0));
    } else if k > 0 {
        let rest = replace_all(t.drop_first(), p, REDACTED@);
        assert(out == seq![t[0]] + rest);
        assert forall|j: int| 0 <= j < k - 1 implies rest[j] != '[' by {
            assert(out[j + 1] == rest[j]);
        }
        lemma_bracket_free_prefix(t.drop_first(), p, k - 1);
        assert(out.take(k) =~= seq![t[0]] + rest.take(k - 1));
        assert(t.take(k) =~= seq![t[0]] + t.drop_first().take(k - 1));
    } else {
        assert(out.take(0) =~= t.take(0));
    }
}

/// An occurrence of a marker-safe `q` in a replacement's output comes from
/// an occurrence in its input, and `q` is not the replaced pattern.
proof fn lemma_replace_keeps_out(t: Seq<char>, p: Seq<char>, q: Seq<char>, i: int)
    requires
        p.len() > 0,
        marker_safe(q),
        occurs_at(replace_all(t, p, REDACTED@), q, i),
    ensures
        occurs(t, q),
        q != p,
    decreases t.len(),
{
    reveal_strlit("[REDACTED]");
    let r = REDACTED@;
    let out = replace_all(t, p, r);
    if t.len() == 0 {
        assert(out.len() == 0);
    } else if occurs_at(t, p, 0) {
        let rest = replace_all(t.skip(p.len() as int), p, r);
        assert(out == r + rest);
        if i + q.len() <= r.len() {
            assert(occurs_at(r, q, i)) by {
                assert(r.subrange(i, i + q.len()) =~= out.subrange(i, i + q.len()));
            }
        } else if i < r.len() {
            let j = r.len() - 1 - i;
            assert(out.subrange(i, i + q.len())[j] == out[r.len() - 1]);
            assert(out[r.len() - 1] == ']');
            assert(q[j] == ']');
        } else {
            assert(occurs_at(rest, q, i - r.len())) by {
                assert(rest.subrange(i - r.len(), i - r.len() + q.len()) =~= out.subrange(
                    i,
                    i + q.len(),
                ));
            }
            lemma_replace_keeps_out(t.skip(p.len() as int), p, q, i - r.len());
            let m = choose|m: int| occurs_at(t.skip(p.len() as int), q, m);
            lemma_occurs_skip(t, q, p.len() as int, m);
        }
    } else {
        let rest = replace_all(t.drop_first(), p, r);
        assert(out == seq![t[0]] + rest);
        if i >= 1 {
            assert(occurs_at(rest, q, i - 1)) by {
                assert(rest.subrange(i - 1, i - 1 + q.len()) =~= out.subrange(i, i + q.len()));
            }
            lemma_replace_keeps_out(t.drop_first(), p, q, i - 1);
            let m = choose|m: int| occurs_at(t.drop_first(), q, m);
            lemma_occurs_drop_first(t, q, m);
        } else {
            assert forall|j: int| 0 <= j < q.len() implies out[j] != '[' by {
                assert(out.subrange(0, q.len() as int)[j] == out[j]);
                if out[j] == '[' {
                    assert(q[j] == '[');
                }
            }
            lemma_bracket_free_prefix(t, p, q.len() as int);
            assert(t.subrange(0, q.len() as int) =~= t.take(q.len() as int));
            assert(out.subrange(0, q.len() as int) =~= out.take(q.len() as int));
            assert(occurs_at(t, q, 0));
        }
    }
}

/// Redaction removes every registered secret from the text, provided no
/// secret is produced by the marker `[REDACTED]` itself: each is non-empty,
/// holds no bracket, and is not part of `[REDACTED]`.
pub proof fn law_redact_hides_secrets(t: Seq<char>, secrets: Seq<Seq<char>>)
    requires
        forall|i: int| 0 <= i < secrets.len() ==> marker_safe(#[trigger] secrets[i]),
    ensures
        forall|i: int| 0 <= i < secrets.len() ==> !occurs(redact_seq(t, secrets), #[trigger] secrets[i]),
    decreases secrets.len(),
{
    if secrets.len() > 0 {
        let init = secrets.drop_last();
        let last = secrets.last();
        law_redact_hides_secrets(t, init);
        let before = redact_seq(t, init);
        let after = redact_seq(t, secrets);
        assert(after == replace_all(before, last, REDACTED@));
        assert(marker_safe(secrets[secrets.len() - 1]));
        assert forall|i: int| 0 <= i < secrets.len() implies !occurs(after, #[trigger] secrets[i]) by {
            assert(marker_safe(secrets[i]));
            if occurs(after, secrets[i]) {
                let m = choose|m: int| occurs_at(after, secrets[i], m);
                lemma_replace_keeps_out(before, last, secrets[i], m);
                if i < secrets.len() - 1 {
                    assert(init[i] == secrets[i]);
                }
            }
        }
    }
}


// ---------------------------------------------------------------------------
// Display sanitization
// ---------------------------------------------------------------------------

proof fn lemma_trim_start_suffix(s: Seq<char>) -> (k: int)
    ensures
        0 <= k <= s.len(),
        trim_start(s) == s.skip(k),
        trim_start(s).len() > 0 ==> !is_white_space(trim_start(s)[0]),
    decreases s.len(),
{
    if s.len() > 0 && is_white_space(s[0]) {
        let k = lemma_trim_start_suffix(s.drop_first());
        assert(s.drop_first().skip(k) =~= s.skip(k + 1));
        k + 1
    } else {
        assert(s.skip(0) =~= s);
        0
    }
}

proof fn lemma_trim_end_prefix(s: Seq<char>) -> (k: int)
    ensures
        0 <= k <= s.len(),
        trim_end(s) == s.take(k),
        trim_end(s).len() > 0 ==> !is_white_space(trim_end(s).last()),
    decreases s.len(),
{
    if s.len() > 0 && is_white_space(s.last()) {
        let k = lemma_trim_end_prefix(s.drop_last());
        assert(s.drop_last().take(k) =~= s.take(k));
        k
    } else {
        assert(s.take(s.len() as int) =~= s);
        s.len() as int
    }
}

/// Display text holds no neutralized character, and neither starts nor
/// ends with whitespace.
pub proof fn law_display_text_is_clean(s: Seq<char>)
    ensures
        forall|i: int| 0 <= i < display_text(s).len() ==> !neutralized(#[trigger] display_text(s)[i]),
        display_text(s).len() > 0 ==> !is_white_space(display_text(s)[0]) && !is_white_space(
            display_text(s).last(),
        ),
{
    let n = neutralize_chars(s);
    let a = lemma_trim_start_suffix(n);
    let u = trim_start(n);
    let b = lemma_trim_end_prefix(u);
    let d = display_text(s);
    assert(d == u.take(b));
    assert forall|i: int| 0 <= i < d.len() implies !neutralized(#[trigger] d[i]) by {
        assert(d[i] == n[i + a]);
        assert(!neutralized(' '));
    }
    if d.len() > 0 {
        assert(d[0] == u[0]);
    }
}

/// Sanitizing display text again changes nothing.
pub proof fn law_display_text_idempotent(s: Seq<char>)
    ensures
        display_text(display_text(s)) == display_text(s),
{
    let d = display_text(s);
    law_display_text_is_clean(s);
    assert(neutralize_chars(d) =~= d);
    if d.len() > 0 {
        assert(trim_start(d) == d);
        assert(trim_end(d) == d);
    } else {
        assert(trim_start(d) == d);
    }
}

// ---------------------------------------------------------------------------
// `server__tool` names
// ---------------------------------------------------------------------------

/// A tool of a validly named server is addressed by `server__tool`: the
/// name splits back into exactly that server and tool.
pub proof fn law_server_tool_round_trip(server: Seq<char>, tool: Seq<char>)
    requires
        valid_server_name(server),
        tool.len() > 0,
    ensures
        spec_parse_server_tool(server + "__"@ + tool) == Some((server, tool)),
{
    reveal_strlit("__");
    let x = server + "__"@ + tool;
    let i = server.len() as int;
    assert(sep_at(x, i));
    assert forall|j: int| 0 <= j < i implies !#[trigger] sep_at(x, j) by {
        assert(x[j] == server[j]);
        assert(crate::config::is_server_name_char(server[j]));
    }
    assert(first_sep(x, i));
    lemma_first_sep_unique(x, i);
    assert(x.take(i) =~= server);
    assert(x.skip(i + 2) =~= tool);
}

// ---------------------------------------------------------------------------
// Validated configurations
// ---------------------------------------------------------------------------

proof fn lemma_first_error_none_all(errs: Seq<Option<crate::error::StartupErrorView>>, i: int)
    requires
        first_error(errs) is None,
        0 <= i < errs.len(),
    ensures
        errs[i] is None,
    decreases i,
{
    if i > 0 {
        assert(errs.drop_first()[i - 1] == errs[i]);
        lemma_first_error_none_all(errs.drop_first(), i - 1);
    }
}

proof fn lemma_first_key_found<V>(v: Seq<(String, V)>, k: Seq<char>)
    requires
        has_key(v, k),
    ensures
        is_first_key(v, k, first_key_index(v, k)),
{
    let w = choose|w: int| 0 <= w < v.len() && #[trigger] v[w].0@ == k;
    lemma_least_key(v, k, w);
}

/// Every server of a validated configuration has a valid name, so each of
/// its tools is addressed by `server__tool`.
pub proof fn law_validated_servers_addressable(c: TomlConfig, selected: Seq<char>, i: int, tool: Seq<char>)
    requires
        validation_error(c, selected) is None,
        0 <= i < c.servers@.len(),
        tool.len() > 0,
    ensures
        valid_server_name(c.servers@[i].0@),
        spec_parse_server_tool(c.servers@[i].0@ + "__"@ + tool) == Some((c.servers@[i].0@, tool)),
{
    assert(names_error(c) is None);
    lemma_first_error_none_all(name_errors(c), i);
    assert(name_errors(c)[i] == name_error(c.servers@[i].0@));
    law_server_tool_round_trip(c.servers@[i].0@, tool);
}

/// The access list keeps a tool filter only for a server it allows.
pub proof fn law_filters_only_for_allowed(c: TomlConfig, selected: Seq<char>, ns: ActiveNamespace, server: Seq<char>)
    requires
        forall|s: Seq<char>|
            #[trigger] ns.allowed().contains(s) <==> in_effective(
                c,
                active_namespace(selected),
                s,
                extends_fuel(c),
            ),
        forall|k: Seq<char>| #[trigger] ns.filter(k) == acl_filter(c, active_namespace(selected), k),
        ns.filter(server) is Some,
    ensures
        ns.allowed().contains(server),
{
    assert(ns.filter(server) == acl_filter(c, active_namespace(selected), server));
}

proof fn lemma_effective_listed(c: TomlConfig, n: Seq<char>, s: Seq<char>, k: nat)
    requires
        in_effective(c, n, s, k),
    ensures
        exists|e: int| 0 <= e < c.namespaces@.len() && lists(#[trigger] c.namespaces@[e].1.servers@, s),
    decreases k, 0nat,
{
    let ns = lookup(c.namespaces@, n)->0;
    lemma_first_key_found(c.namespaces@, n);
    let e = first_key_index(c.namespaces@, n);
    if lists(ns.servers@, s) {
        assert(lists(c.namespaces@[e].1.servers@, s));
    } else {
        lemma_parents_listed(c, ns.extends@, s, (k - 1) as nat);
    }
}

proof fn lemma_parents_listed(c: TomlConfig, parents: Seq<String>, s: Seq<char>, k: nat)
    requires
        in_parents(c, parents, s, k),
    ensures
        exists|e: int| 0 <= e < c.namespaces@.len() && lists(#[trigger] c.namespaces@[e].1.servers@, s),
    decreases k, parents.len() + 1,
{
    if in_parents(c, parents.drop_last(), s, k) {
        lemma_parents_listed(c, parents.drop_last(), s, k);
    } else {
        lemma_effective_listed(c, parents.last()@, s, k);
    }
}

/// Every effective server of every namespace of a validated configuration,
/// inherited ones included, is declared in `[servers]`.
pub proof fn law_validated_effective_servers_declared(c: TomlConfig, selected: Seq<char>, n: Seq<char>, s: Seq<char>)
    requires
        validation_error(c, selected) is None,
        in_effective(c, n, s, extends_fuel(c)),
    ensures
        has_key(c.servers@, s),
{
    lemma_effective_listed(c, n, s, extends_fuel(c));
    let e = choose|e: int| 0 <= e < c.namespaces@.len() && lists(#[trigger] c.namespaces@[e].1.servers@, s);
    let j = choose|j: int| 0 <= j < c.namespaces@[e].1.servers@.len() && #[trigger] c.namespaces@[e].1.servers@[j]@ == s;
    assert(declarations_error(c) is None);
    lemma_first_error_none_all(declaration_errors(c), e);
    let es = namespace_server_errors(c, c.namespaces@[e].0@, c.namespaces@[e].1);
    assert(declaration_errors(c)[e] == first_error(es));
    lemma_first_error_none_all(es, j);
    assert(es[j] == server_decl_error(c, c.namespaces@[e].0@, s));
}

// ---------------------------------------------------------------------------
// Meta-tool access control
// ---------------------------------------------------------------------------

/// `invoke_tool` forwards a call only to a configured server and only for
/// a tool the active namespace shows; without a registry it never forwards.
pub proof fn law_invoke_only_visible(
    config: Option<&TomlConfig>,
    ns: Option<&ActiveNamespace>,
    args: Option<&Vec<(String, Json)>>,
)
    ensures
        invoke_request(config, ns, args) matches Ok((s, t, _)) ==> {
            &&& config matches Some(c) && has_key(c.servers@, s)
            &&& ns matches Some(n) && n.tool_visible(s, t)
        },
{
}

/// `get_tool_schema` reads a schema only of a configured server's tool that
/// the active namespace shows.
pub proof fn law_schema_only_visible(
    config: Option<&TomlConfig>,
    ns: Option<&ActiveNamespace>,
    args: Option<&Vec<(String, Json)>>,
)
    ensures
        schema_request(config, ns, args) matches Ok((s, t)) ==> {
            &&& config matches Some(c) && has_key(c.servers@, s)
            &&& ns matches Some(n) && n.tool_visible(s, t)
        },
{
}

/// `list_tools` inventories only servers the active namespace allows, and
/// without a registry answers `not_implemented`.
pub proof fn law_list_only_allowed(
    config: Option<&TomlConfig>,
    ns: Option<&ActiveNamespace>,
    server_arg: Option<Seq<char>>,
)
    ensures
        list_tools_plan(config, ns, server_arg) matches Ok(servers) ==> ns matches Some(n) && forall|
            i: int,
        | 0 <= i < servers.len() ==> n.allowed().contains(#[trigger] servers[i]),
        config is None || ns is None ==> list_tools_plan(config, ns, server_arg) == Err::<
            Seq<Seq<char>>,
            ToolErrorView,
        >(ToolErrorView::NotImplemented { tool: "list_tools"@ }),
{
    match (config, ns) {
        (Some(c), Some(n)) => match server_arg {
            Some(s) => {},
            None => {
                assert forall|i: int| 0 <= i < n.sorted_servers().len() implies n.allowed().contains(
                    #[trigger] n.sorted_servers()[i],
                ) by {
                    assert(n.sorted_servers().contains(n.sorted_servers()[i]));
                }
            },
        },
        _ => {},
    }
}

/// The rows `list_tools` emits for a server are exactly its visible tools:
/// every row is a tool the namespace shows, and every such tool has a row.
pub proof fn law_rows_are_visible_tools(ns: ActiveNamespace, server: Seq<char>, tools: Seq<ToolSummary>)
    ensures
        forall|k: int|
            0 <= k < visible_rows(ns, server, tools).len() ==> exists|j: int|
                0 <= j < tools.len() && ns.tool_visible(server, tools[j].name@) && #[trigger] visible_rows(
                    ns,
                    server,
                    tools,
                )[k] == row_of(server, tools[j]),
        forall|j: int|
            0 <= j < tools.len() && ns.tool_visible(server, #[trigger] tools[j].name@) ==> visible_rows(
                ns,
                server,
                tools,
            ).contains(row_of(server, tools[j])),
    decreases tools.len(),
{
    if tools.len() > 0 {
        let init = tools.drop_last();
        law_rows_are_visible_tools(ns, server, init);
        let rest = visible_rows(ns, server, init);
        let rows = visible_rows(ns, server, tools);
        assert forall|k: int| 0 <= k < rows.len() implies exists|j: int|
            0 <= j < tools.len() && ns.tool_visible(server, tools[j].name@) && #[trigger] rows[k]
                == row_of(server, tools[j]) by {
            if k < rest.len() {
                assert(rows[k] == rest[k]);
                let j = choose|j: int|
                    0 <= j < init.len() && ns.tool_visible(server, init[j].name@) && #[trigger] rest[k]
                        == row_of(server, init[j]);
                assert(init[j] == tools[j]);
            } else {
                assert(rows[k] == row_of(server, tools[tools.len() - 1]));
            }
        }
        assert forall|j: int|
            0 <= j < tools.len() && ns.tool_visible(server, #[trigger] tools[j].name@) implies rows.contains(
            row_of(server, tools[j]),
        ) by {
            if j < tools.len() - 1 {
                assert(init[j] == tools[j]);
                assert(ns.tool_visible(server, init[j].name@));
                let k = choose|k: int| 0 <= k < rest.len() && rest[k] == row_of(server, init[j]);
                assert(rows[k] == rest[k]);
            } else {
                assert(rows[rows.len() - 1] == row_of(server, tools[j]));
            }
        }
    }
}

// ---------------------------------------------------------------------------
// Upstream stderr lines
// ---------------------------------------------------------------------------

/// Reading more of a stream only adds lines after those already complete:
/// the lines logged do not depend on how the reads split the stream.
pub proof fn law_stderr_lines_prefix(a: Seq<u8>, b: Seq<u8>)
    ensures
        segments(a).len() <= segments(a + b).len(),
        segments(a + b).take(segments(a).len() as int) == segments(a),
    decreases b.len(),
{
    if b.len() == 0 {
        assert(a + b =~= a);
        assert(segments(a).take(segments(a).len() as int) =~= segments(a));
    } else {
        let b0 = b.drop_last();
        law_stderr_lines_prefix(a, b0);
        assert((a + b).drop_last() =~= a + b0);
        assert((a + b).last() == b.last());
        let n = segments(a).len() as int;
        if b.last() == 10u8 {
            assert(segments(a + b) == segments(a + b0).push(pending(a + b0)));
            assert(segments(a + b).take(n) =~= segments(a + b0).take(n));
        } else {
            assert(segments(a + b) == segments(a + b0));
        }
    }
}

// ---------------------------------------------------------------------------
// The advertised table of contents
// ---------------------------------------------------------------------------

/// Tool-name hints come from the namespace, never from the cache alone:
/// every hint name is the display name of a cached tool that the namespace
/// shows on that server.
pub proof fn law_hints_only_visible_tools(ns: ActiveNamespace, server: Seq<char>, list: Seq<(String, String)>)
    ensures
        forall|k: int|
            0 <= k < hint_names_of(ns, server, list).len() ==> exists|j: int|
                0 <= j < list.len() && ns.tool_visible(server, list[j].0@) && #[trigger] hint_names_of(
                    ns,
                    server,
                    list,
                )[k] == crate::server::display_identifier(list[j].0@),
    decreases list.len(),
{
    if list.len() > 0 {
        let init = list.drop_last();
        law_hints_only_visible_tools(ns, server, init);
        let rest = hint_names_of(ns, server, init);
        let names = hint_names_of(ns, server, list);
        assert forall|k: int| 0 <= k < names.len() implies exists|j: int|
            0 <= j < list.len() && ns.tool_visible(server, list[j].0@) && #[trigger] names[k]
                == crate::server::display_identifier(list[j].0@) by {
            if k < rest.len() {
                assert(names[k] == rest[k]);
                let j = choose|j: int|
                    0 <= j < init.len() && ns.tool_visible(server, init[j].0@) && #[trigger] rest[k]
                        == crate::server::display_identifier(init[j].0@);
                assert(init[j] == list[j]);
            } else {
                assert(names[k] == crate::server::display_identifier(list[list.len() - 1].0@));
            }
        }
    }
}

proof fn lemma_best_shown_fits(names: Seq<Seq<char>>, budget: nat, k: nat)
    ensures
        best_shown(names, budget, k) > 0 ==> utf8_len(hint_text(names, best_shown(names, budget, k)))
            <= budget,
    decreases k,
{
    if k > 0 {
        lemma_best_shown_fits(names, budget, (k - 1) as nat);
    }
}

/// A server's tool hint never exceeds the budget it is given.
pub proof fn law_hint_fits_budget(names: Seq<Seq<char>>, budget: nat)
    ensures
        utf8_len(chosen_hint(names, budget)) <= budget,
{
    lemma_best_shown_fits(names, budget, names.len());
    assert(utf8_len(Seq::<char>::empty()) == 0);
}

proof fn lemma_entries_len_first(config: TomlConfig, servers: Seq<Seq<char>>)
    requires
        servers.len() > 0,
    ensures
        entries_len(config, servers) == utf8_len(toc_entry(config, servers[0])) + entries_len(
            config,
            servers.drop_first(),
        ),
    decreases servers.len(),
{
    if servers.len() == 1 {
        assert(entries_len(config, servers.drop_last()) == 0);
        assert(entries_len(config, servers.drop_first()) == 0);
        assert(servers.last() == servers[0]);
    } else {
        lemma_entries_len_first(config, servers.drop_last());
        assert(servers.drop_last().drop_first() =~= servers.drop_first().drop_last());
        assert(servers.drop_last()[0] == servers[0]);
        assert(servers.drop_first().last() == servers.last());
    }
}

proof fn lemma_line_shorter(config: TomlConfig, server: Seq<char>)
    ensures
        utf8_len(trim_end(toc_entry(config, server))) + 1 <= utf8_len(toc_entry(config, server)),
{
    reveal_strlit("\n");
    let e = toc_entry(config, server);
    assert(e.last() == '\n');
    assert(is_white_space('\n'));
    let k = lemma_trim_end_prefix(e.drop_last());
    assert(trim_end(e) == trim_end(e.drop_last()));
    assert(e.drop_last().take(k) =~= e.take(k));
    assert(e =~= e.take(k) + e.skip(k));
    lemma_utf8_len_concat(e.take(k), e.skip(k));
    lemma_utf8_len_ge_len(e.skip(k));
}

proof fn lemma_toc_lines_len(
    config: TomlConfig,
    ns: ActiveNamespace,
    sums: Seq<(String, Vec<(String, String)>)>,
    servers: Seq<Seq<char>>,
    budget: nat,
)
    ensures
        utf8_len(toc_lines(config, ns, sums, servers, budget)) <= entries_len(config, servers)
            + budget,
    decreases servers.len(),
{
    reveal_strlit("\n");
    if servers.len() > 0 {
        let s = servers[0];
        let hint = chosen_hint(crate::advert::hint_names(ns, sums, s), budget);
        law_hint_fits_budget(crate::advert::hint_names(ns, sums, s), budget);
        let rest_budget = (budget - utf8_len(hint)) as nat;
        let rest = toc_lines(config, ns, sums, servers.drop_first(), rest_budget);
        lemma_toc_lines_len(config, ns, sums, servers.drop_first(), rest_budget);
        let line = trim_end(toc_entry(config, s));
        lemma_utf8_len_concat(line, hint);
        lemma_utf8_len_concat(line + hint, "\n"@);
        lemma_utf8_len_concat(line + hint + "\n"@, rest);
        assert(utf8_len("\n"@) == 1) by {
            assert("\n"@.len() == 1);
            assert(utf8_len("\n"@.drop_last()) == 0);
            assert("\n"@.last() == '\n');
        }
        lemma_line_shorter(config, s);
        lemma_entries_len_first(config, servers);
    }
}

/// The table of contents stays within the 3000-byte instructions budget,
/// unless the server lines alone are longer (they are always all shown).
pub proof fn law_toc_within_budget(
    config: TomlConfig,
    ns: ActiveNamespace,
    sums: Seq<(String, Vec<(String, String)>)>,
)
    ensures
        spec_toc(config, ns, sums) matches Some(t) ==> {
            let base = utf8_len(TOC_HEADER@) + entries_len(config, ns.sorted_servers());
            utf8_len(t) <= if base > INSTRUCTIONS_BUDGET {
                base
            } else {
                INSTRUCTIONS_BUDGET as nat
            }
        },
{
    let servers = ns.sorted_servers();
    if servers.len() > 0 {
        let budget = hint_budget(config, servers);
        lemma_toc_lines_len(config, ns, sums, servers, budget);
        lemma_utf8_len_concat(TOC_HEADER@, toc_lines(config, ns, sums, servers, budget));
    }
}

// ---------------------------------------------------------------------------
// Namespace composition
// ---------------------------------------------------------------------------

proof fn lemma_in_parents_prefix(c: TomlConfig, parents: Seq<String>, s: Seq<char>, k: nat, i: int)
    requires
        0 <= i < parents.len(),
        in_effective(c, parents[i]@, s, k),
    ensures
        in_parents(c, parents, s, k),
    decreases parents.len(),
{
    if i < parents.len() - 1 {
        assert(parents.drop_last()[i] == parents[i]);
        lemma_in_parents_prefix(c, parents.drop_last(), s, k, i);
    }
}

/// A namespace inherits every effective server of each namespace it
/// extends.
pub proof fn law_inherited_servers_allowed(c: TomlConfig, n: Seq<char>, i: int, s: Seq<char>, k: nat)
    requires
        k > 0,
        lookup(c.namespaces@, n) is Some,
        0 <= i < lookup(c.namespaces@, n)->0.extends@.len(),
        in_effective(c, lookup(c.namespaces@, n)->0.extends@[i]@, s, (k - 1) as nat),
    ensures
        in_effective(c, n, s, k),
{
    lemma_in_parents_prefix(c, lookup(c.namespaces@, n)->0.extends@, s, (k - 1) as nat, i);
}

proof fn lemma_parents_filter_narrows(
    c: TomlConfig,
    parents: Seq<String>,
    s: Seq<char>,
    k: nat,
    acc: Option<Set<Seq<char>>>,
    i: int,
)
    requires
        0 <= i < parents.len(),
        effective_filter(c, parents[i]@, s, k) is Some,
    ensures
        parents_filter(c, parents, s, k, acc) is Some,
        parents_filter(c, parents, s, k, acc)->0.subset_of(effective_filter(c, parents[i]@, s, k)->0),
    decreases parents.len(),
{
    let last = effective_filter(c, parents.last()@, s, k);
    let rest = parents_filter(c, parents.drop_last(), s, k, acc);
    if i < parents.len() - 1 {
        assert(parents.drop_last()[i] == parents[i]);
        lemma_parents_filter_narrows(c, parents.drop_last(), s, k, acc, i);
        match last {
            Some(l) => {
                assert(meet(rest, last)->0 == rest->0.intersect(l));
            },
            None => {},
        }
    } else {
        match rest {
            Some(r) => {
                assert(meet(rest, last)->0 == r.intersect(last->0));
            },
            None => {},
        }
    }
}

/// Inheritance only narrows tool filters: when a namespace extends one that
/// filters a server's tools, its own effective filter for that server is
/// present and allows no tool the parent's filter does not.
pub proof fn law_inherited_filter_narrows(c: TomlConfig, n: Seq<char>, i: int, s: Seq<char>, k: nat)
    requires
        k > 0,
        lookup(c.namespaces@, n) is Some,
        0 <= i < lookup(c.namespaces@, n)->0.extends@.len(),
        effective_filter(c, lookup(c.namespaces@, n)->0.extends@[i]@, s, (k - 1) as nat) is Some,
    ensures
        effective_filter(c, n, s, k) is Some,
        effective_filter(c, n, s, k)->0.subset_of(
            effective_filter(c, lookup(c.namespaces@, n)->0.extends@[i]@, s, (k - 1) as nat)->0,
        ),
{
    let ns = lookup(c.namespaces@, n)->0;
    lemma_parents_filter_narrows(
        c,
        ns.extends@,
        s,
        (k - 1) as nat,
        crate::compose::local_filter(ns, s),
        i,
    );
}

// ---------------------------------------------------------------------------
// Tool hints
// ---------------------------------------------------------------------------

/// A tool hint names the first `shown` tool names in order, separated by
/// `, `, and accounts for all the others: when some are left out it ends in
/// ` +M more)` with `M` the number left out, so the names shown and `M`
/// together count every visible cached tool; when all are shown it carries
/// no count.
pub proof fn law_hint_counts_omitted(names: Seq<Seq<char>>, shown: nat)
    requires
        shown <= names.len(),
    ensures
        shown < names.len() ==> hint_text(names, shown) == " (tools: "@ + crate::advert::join(
            names.take(shown as int),
            ", "@,
        ) + " +"@ + crate::text::decimal((names.len() - shown) as nat) + " more"@ + ")"@,
        shown == names.len() ==> hint_text(names, shown) == " (tools: "@ + crate::advert::join(
            names,
            ", "@,
        ) + ")"@,
{
    let head = " (tools: "@ + crate::advert::join(names.take(shown as int), ", "@);
    if shown < names.len() {
        let d = crate::text::decimal((names.len() - shown) as nat);
        assert(hint_text(names, shown) == head + (" +"@ + d + " more"@) + ")"@);
        assert(head + (" +"@ + d + " more"@) + ")"@ =~= head + " +"@ + d + " more"@ + ")"@);
    } else {
        assert(names.take(shown as int) =~= names);
        assert(hint_text(names, shown) == head + Seq::<char>::empty() + ")"@);
        assert(head + Seq::<char>::empty() + ")"@ =~= head + ")"@);
    }
}

} // verus!
