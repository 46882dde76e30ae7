//! Properties of validated configurations: how namespace inheritance
//! resolves, and what validation depends on.

use vstd::prelude::*;

use crate::compose::{
    acl_filter, effective_filter, extends_error, extends_fuel, in_effective, in_parents,
    local_filter, meet, parents_error, parents_filter,
};
use crate::config::{
    blank, declaration_errors, extends_check_error, extends_errors, field_errors, filled,
    first_error, name_errors, namespace_server_errors, namespace_tool_errors, namespace_tools_error,
    spec_transport_kind, tool_filter_errors, tool_filters_error, tool_key_error, transport_errors,
    validation_error, ServerConfig, TomlConfig,
};
use crate::lookup::{first_key_index, has_key, is_first_key, lemma_least_key, lists, lookup};

verus! {

// ---------------------------------------------------------------------------
// Facts a validated configuration gives
// ---------------------------------------------------------------------------

proof fn lemma_first_error_none_at(errs: Seq<Option<crate::error::StartupErrorView>>, i: int)
    requires
        first_error(errs) is None,
        0 <= i < errs.len(),
    ensures
        errs[i] is None,
    decreases i,
{
    if i > 0 {
        assert(errs.drop_first()[i - 1] == errs[i]);
        lemma_first_error_none_at(errs.drop_first(), i - 1);
    }
}

proof fn lemma_key_found<V>(v: Seq<(String, V)>, k: Seq<char>)
    requires
        has_key(v, k),
    ensures
        is_first_key(v, k, first_key_index(v, k)),
{
    let w = choose|w: int| 0 <= w < v.len() && #[trigger] v[w].0@ == k;
    lemma_least_key(v, k, w);
}

/// A declared namespace of a configuration that passes the `extends` check
/// resolves without a cycle.
proof fn lemma_extends_ok(c: TomlConfig, m: Seq<char>)
    requires
        extends_check_error(c) is None,
        has_key(c.namespaces@, m),
    ensures
        extends_error(c, m, extends_fuel(c)) is None,
{
    lemma_key_found(c.namespaces@, m);
    let e = first_key_index(c.namespaces@, m);
    lemma_first_error_none_at(extends_errors(c), e);
    assert(extends_errors(c)[e] == extends_error(c, c.namespaces@[e].0@, extends_fuel(c)));
}

/// In a configuration that passes the tool-filter check, every key of a
/// namespace's own tool filters is one of its effective servers.
proof fn lemma_tool_key_ok(c: TomlConfig, m: Seq<char>, t: Seq<char>)
    requires
        tool_filters_error(c) is None,
        lookup(c.namespaces@, m) is Some,
        has_key(lookup(c.namespaces@, m)->0.tools@, t),
    ensures
        in_effective(c, m, t, extends_fuel(c)),
{
    lemma_key_found(c.namespaces@, m);
    let e = first_key_index(c.namespaces@, m);
    let ns = c.namespaces@[e].1;
    lemma_first_error_none_at(tool_filter_errors(c), e);
    assert(tool_filter_errors(c)[e] == namespace_tools_error(c, m, ns));
    let w = choose|w: int| 0 <= w < ns.tools@.len() && #[trigger] ns.tools@[w].0@ == t;
    lemma_first_error_none_at(namespace_tool_errors(c, m, ns), w);
    assert(namespace_tool_errors(c, m, ns)[w] == tool_key_error(c, m, t));
}

/// Every parent that `parents_error` passes is declared and resolves
/// without a cycle.
proof fn lemma_parents_ok(c: TomlConfig, n: Seq<char>, ps: Seq<String>, k: nat)
    requires
        parents_error(c, n, ps, k) is None,
    ensures
        forall|j: int|
            0 <= j < ps.len() ==> has_key(c.namespaces@, ps[j]@) && extends_error(
                c,
                #[trigger] ps[j]@,
                k,
            ) is None,
    decreases ps.len(),
{
    if ps.len() > 0 {
        lemma_parents_ok(c, n, ps.drop_first(), k);
        assert forall|j: int| 0 < j < ps.len() implies has_key(c.namespaces@, ps[j]@)
            && extends_error(c, #[trigger] ps[j]@, k) is None by {
            assert(ps.drop_first()[j - 1] == ps[j]);
        }
    }
}

// ---------------------------------------------------------------------------
// Enough steps: resolving with more steps than a cycle-free chain needs
// changes nothing
// ---------------------------------------------------------------------------

proof fn lemma_effective_steps(c: TomlConfig, m: Seq<char>, s: Seq<char>, k: nat, k2: nat)
    requires
        extends_error(c, m, k) is None,
        k <= k2,
    ensures
        in_effective(c, m, s, k2) == in_effective(c, m, s, k),
        effective_filter(c, m, s, k2) == effective_filter(c, m, s, k),
    decreases k, 0nat,
{
    if k > 0 {
        match lookup(c.namespaces@, m) {
            None => {},
            Some(ns) => {
                lemma_parents_ok(c, m, ns.extends@, (k - 1) as nat);
                lemma_parents_steps(
                    c,
                    ns.extends@,
                    s,
                    (k - 1) as nat,
                    (k2 - 1) as nat,
                    local_filter(ns, s),
                );
            },
        }
    }
}

proof fn lemma_parents_steps(
    c: TomlConfig,
    ps: Seq<String>,
    s: Seq<char>,
    k: nat,
    k2: nat,
    acc: Option<Set<Seq<char>>>,
)
    requires
        forall|j: int| 0 <= j < ps.len() ==> extends_error(c, #[trigger] ps[j]@, k) is None,
        k <= k2,
    ensures
        in_parents(c, ps, s, k2) == in_parents(c, ps, s, k),
        parents_filter(c, ps, s, k2, acc) == parents_filter(c, ps, s, k, acc),
    decreases k, ps.len() + 1,
{
    if ps.len() > 0 {
        assert forall|j: int| 0 <= j < ps.drop_last().len() implies extends_error(
            c,
            #[trigger] ps.drop_last()[j]@,
            k,
        ) is None by {
            assert(ps.drop_last()[j] == ps[j]);
        }
        lemma_parents_steps(c, ps.drop_last(), s, k, k2, acc);
        assert(ps.last() == ps[ps.len() - 1]);
        lemma_effective_steps(c, ps.last()@, s, k, k2);
    }
}

// ---------------------------------------------------------------------------
// A filter is present only for an effective server
// ---------------------------------------------------------------------------

proof fn lemma_filter_only_effective(c: TomlConfig, m: Seq<char>, s: Seq<char>, k: nat)
    requires
        tool_filters_error(c) is None,
        extends_error(c, m, k) is None,
        k <= extends_fuel(c),
    ensures
        effective_filter(c, m, s, k) is Some ==> in_effective(c, m, s, k),
    decreases k, 0nat,
{
    if k > 0 {
        match lookup(c.namespaces@, m) {
            None => {},
            Some(ns) => {
                lemma_parents_ok(c, m, ns.extends@, (k - 1) as nat);
                lemma_parents_filter_only_effective(
                    c,
                    ns.extends@,
                    s,
                    (k - 1) as nat,
                    local_filter(ns, s),
                );
                if local_filter(ns, s) is Some {
                    assert(has_key(ns.tools@, s));
                    lemma_tool_key_ok(c, m, s);
                    lemma_effective_steps(c, m, s, k, extends_fuel(c));
                }
            },
        }
    }
}

proof fn lemma_parents_filter_only_effective(
    c: TomlConfig,
    ps: Seq<String>,
    s: Seq<char>,
    k: nat,
    acc: Option<Set<Seq<char>>>,
)
    requires
        tool_filters_error(c) is None,
        forall|j: int| 0 <= j < ps.len() ==> extends_error(c, #[trigger] ps[j]@, k) is None,
        k <= extends_fuel(c),
    ensures
        parents_filter(c, ps, s, k, acc) is Some ==> (acc is Some || in_parents(c, ps, s, k)),
    decreases k, ps.len() + 1,
{
    if ps.len() > 0 {
        assert forall|j: int| 0 <= j < ps.drop_last().len() implies extends_error(
            c,
            #[trigger] ps.drop_last()[j]@,
            k,
        ) is None by {
            assert(ps.drop_last()[j] == ps[j]);
        }
        lemma_parents_filter_only_effective(c, ps.drop_last(), s, k, acc);
        assert(ps.last() == ps[ps.len() - 1]);
        lemma_filter_only_effective(c, ps.last()@, s, k);
    }
}

// ---------------------------------------------------------------------------
// Inherited filters
// ---------------------------------------------------------------------------

/// The meet of the access-list filters that `parents` keep for server `s`,
/// in order, starting from "all tools".
pub open spec fn parents_meet(c: TomlConfig, parents: Seq<String>, s: Seq<char>) -> Option<
    Set<Seq<char>>,
>
    decreases parents.len(),
{
    if parents.len() == 0 {
        None
    } else {
        meet(parents_meet(c, parents.drop_last(), s), acl_filter(c, parents.last()@, s))
    }
}

proof fn lemma_parents_filter_is_meet(c: TomlConfig, ps: Seq<String>, s: Seq<char>)
    requires
        tool_filters_error(c) is None,
        extends_fuel(c) > 0,
        forall|j: int|
            0 <= j < ps.len() ==> extends_error(c, #[trigger] ps[j]@, (extends_fuel(c) - 1) as nat)
                is None,
    ensures
        parents_filter(c, ps, s, (extends_fuel(c) - 1) as nat, None) == parents_meet(c, ps, s),
    decreases ps.len(),
{
    let kk = (extends_fuel(c) - 1) as nat;
    if ps.len() > 0 {
        assert forall|j: int| 0 <= j < ps.drop_last().len() implies extends_error(
            c,
            #[trigger] ps.drop_last()[j]@,
            kk,
        ) is None by {
            assert(ps.drop_last()[j] == ps[j]);
        }
        lemma_parents_filter_is_meet(c, ps.drop_last(), s);
        let p = ps.last()@;
        assert(ps.last() == ps[ps.len() - 1]);
        lemma_effective_steps(c, p, s, kk, extends_fuel(c));
        lemma_filter_only_effective(c, p, s, kk);
        assert(effective_filter(c, p, s, kk) == acl_filter(c, p, s));
    }
}

/// A namespace's inherited tool filter is the intersection of its parents'
/// filters. In a validated configuration, for a server that a namespace
/// reaches but does not filter itself, the access-list filter is the meet,
/// in `extends` order, of the filters each parent's own access list keeps
/// for that server: a parent that keeps none (it allows every tool, or does
/// not reach the server) is the identity, and an empty intersection stays
/// present and allows no tool.
pub proof fn law_inherited_filter_is_parents_meet(
    c: TomlConfig,
    selected: Seq<char>,
    n: Seq<char>,
    s: Seq<char>,
)
    requires
        validation_error(c, selected) is None,
        lookup(c.namespaces@, n) is Some,
        !has_key(lookup(c.namespaces@, n)->0.tools@, s),
        in_effective(c, n, s, extends_fuel(c)),
    ensures
        acl_filter(c, n, s) == parents_meet(c, lookup(c.namespaces@, n)->0.extends@, s),
{
    let ns = lookup(c.namespaces@, n)->0;
    let kk = (extends_fuel(c) - 1) as nat;
    assert(extends_check_error(c) is None);
    assert(tool_filters_error(c) is None);
    lemma_extends_ok(c, n);
    lemma_parents_ok(c, n, ns.extends@, kk);
    assert(local_filter(ns, s) is None);
    lemma_parents_filter_is_meet(c, ns.extends@, s);
}

// ---------------------------------------------------------------------------
// What validation reads of a server
// ---------------------------------------------------------------------------

proof fn lemma_effective_same_namespaces(c1: TomlConfig, c2: TomlConfig, m: Seq<char>, s: Seq<char>, k: nat)
    requires
        c1.namespaces@ == c2.namespaces@,
    ensures
        in_effective(c1, m, s, k) == in_effective(c2, m, s, k),
        extends_error(c1, m, k) == extends_error(c2, m, k),
    decreases k, 0nat,
{
    if k > 0 {
        match lookup(c1.namespaces@, m) {
            None => {},
            Some(ns) => {
                lemma_parents_same_namespaces(c1, c2, m, ns.extends@, s, (k - 1) as nat);
            },
        }
    }
}

proof fn lemma_parents_same_namespaces(
    c1: TomlConfig,
    c2: TomlConfig,
    m: Seq<char>,
    ps: Seq<String>,
    s: Seq<char>,
    k: nat,
)
    requires
        c1.namespaces@ == c2.namespaces@,
    ensures
        in_parents(c1, ps, s, k) == in_parents(c2, ps, s, k),
        parents_error(c1, m, ps, k) == parents_error(c2, m, ps, k),
    decreases k, ps.len() + 1,
{
    if ps.len() > 0 {
        lemma_parents_same_namespaces(c1, c2, m, ps.drop_last(), s, k);
        lemma_parents_same_namespaces(c1, c2, m, ps.drop_first(), s, k);
        lemma_effective_same_namespaces(c1, c2, ps.last()@, s, k);
        lemma_effective_same_namespaces(c1, c2, ps[0]@, s, k);
    }
}

/// The fields of a server that validation reads: its transport kind, and
/// whether its `cwd` is blank and its command and endpoint are filled.
pub open spec fn validation_fields_agree(a: ServerConfig, b: ServerConfig) -> bool {
    &&& spec_transport_kind(a) == spec_transport_kind(b)
    &&& blank(a.cwd) == blank(b.cwd)
    &&& filled(a.command) == filled(b.command)
    &&& filled(a.endpoint) == filled(b.endpoint)
}

/// Server `i` has the same name in both configurations, and the same fields
/// as far as validation reads them.
pub open spec fn server_agrees(c1: TomlConfig, c2: TomlConfig, i: int) -> bool {
    &&& c1.servers@[i].0@ == c2.servers@[i].0@
    &&& validation_fields_agree(c1.servers@[i].1, c2.servers@[i].1)
}

/// Validation never looks a command up on disk and never reads a
/// description: it reads a server's command only as filled or blank. Two
/// configurations with the same namespaces whose servers agree in name,
/// transport kind, and blankness of `cwd`, command and endpoint (for
/// instance, one server runs another non-blank command, a path that exists
/// nowhere, or has a description added or removed) pass or fail validation
/// alike, with the same error, for every selected namespace.
pub proof fn law_validation_reads_command_only_as_filled(
    c1: TomlConfig,
    c2: TomlConfig,
    selected: Seq<char>,
)
    requires
        c1.namespaces@ == c2.namespaces@,
        c1.servers@.len() == c2.servers@.len(),
        forall|i: int| 0 <= i < c1.servers@.len() ==> #[trigger] server_agrees(c1, c2, i),
    ensures
        validation_error(c1, selected) == validation_error(c2, selected),
{
    assert forall|i: int| 0 <= i < c1.servers@.len() implies name_errors(c1)[i] == name_errors(
        c2,
    )[i] && transport_errors(c1)[i] == transport_errors(c2)[i] && field_errors(c1)[i]
        == field_errors(c2)[i] by {
        assert(server_agrees(c1, c2, i));
    }
    assert(name_errors(c1) =~= name_errors(c2));
    assert(transport_errors(c1) =~= transport_errors(c2));
    assert(field_errors(c1) =~= field_errors(c2));
    assert forall|x: Seq<char>| has_key(c1.servers@, x) == has_key(c2.servers@, x) by {
        if has_key(c1.servers@, x) {
            let w = choose|w: int| 0 <= w < c1.servers@.len() && #[trigger] c1.servers@[w].0@ == x;
            assert(server_agrees(c1, c2, w));
            assert(c2.servers@[w].0@ == x);
        }
        if has_key(c2.servers@, x) {
            let w = choose|w: int| 0 <= w < c2.servers@.len() && #[trigger] c2.servers@[w].0@ == x;
            assert(server_agrees(c1, c2, w));
            assert(c1.servers@[w].0@ == x);
        }
    }
    let kk = extends_fuel(c1);
    assert(extends_fuel(c2) == kk);
    assert forall|e: int| 0 <= e < c1.namespaces@.len() implies extends_errors(c1)[e]
        == extends_errors(c2)[e] && declaration_errors(c1)[e] == declaration_errors(c2)[e]
        && tool_filter_errors(c1)[e] == tool_filter_errors(c2)[e] by {
        let name = c1.namespaces@[e].0@;
        let ns = c1.namespaces@[e].1;
        lemma_effective_same_namespaces(c1, c2, name, name, kk);
        assert(namespace_server_errors(c1, name, ns) =~= namespace_server_errors(c2, name, ns));
        assert forall|t: int| 0 <= t < ns.tools@.len() implies namespace_tool_errors(
            c1,
            name,
            ns,
        )[t] == namespace_tool_errors(c2, name, ns)[t] by {
            lemma_effective_same_namespaces(c1, c2, name, ns.tools@[t].0@, kk);
        }
        assert(namespace_tool_errors(c1, name, ns) =~= namespace_tool_errors(c2, name, ns));
    }
    assert(extends_errors(c1) =~= extends_errors(c2));
    assert(declaration_errors(c1) =~= declaration_errors(c2));
    assert(tool_filter_errors(c1) =~= tool_filter_errors(c2));
}

// ---------------------------------------------------------------------------
// A namespace's own filter always applies
// ---------------------------------------------------------------------------

proof fn lemma_parents_filter_within(
    c: TomlConfig,
    ps: Seq<String>,
    s: Seq<char>,
    k: nat,
    a: Set<Seq<char>>,
)
    ensures
        parents_filter(c, ps, s, k, Some(a)) is Some,
        parents_filter(c, ps, s, k, Some(a))->0.subset_of(a),
    decreases ps.len(),
{
    if ps.len() > 0 {
        lemma_parents_filter_within(c, ps.drop_last(), s, k, a);
        let rest = parents_filter(c, ps.drop_last(), s, k, Some(a));
        let last = effective_filter(c, ps.last()@, s, k);
        match last {
            Some(q) => {
                assert(meet(rest, last) == Some(rest->0.intersect(q)));
            },
            None => {},
        }
    }
}

/// A namespace's own tool list for a server always restricts it, whether
/// the namespace lists that server itself or inherits it: at every depth of
/// resolution its effective filter for the server is present and allows
/// only tools the list names.
pub proof fn law_own_filter_bounds_effective(
    c: TomlConfig,
    n: Seq<char>,
    s: Seq<char>,
    k: nat,
    list: Vec<String>,
)
    requires
        k > 0,
        lookup(c.namespaces@, n) is Some,
        lookup(lookup(c.namespaces@, n)->0.tools@, s) == Some(list),
    ensures
        effective_filter(c, n, s, k) is Some,
        forall|t: Seq<char>| #[trigger] effective_filter(c, n, s, k)->0.contains(t) ==> lists(list@, t),
{
    let ns = lookup(c.namespaces@, n)->0;
    let own = crate::text::views(list@).to_set();
    assert(local_filter(ns, s) == Some(own));
    lemma_parents_filter_within(c, ns.extends@, s, (k - 1) as nat, own);
    assert forall|t: Seq<char>| #[trigger] effective_filter(c, n, s, k)->0.contains(t) implies lists(
        list@,
        t,
    ) by {
        crate::lookup::lemma_lists_to_set(list@, t);
    }
}

/// The access list that `ActiveNamespace::new` builds honours the active
/// namespace's own tool list for a server it reaches, listed there or
/// inherited: the server keeps a filter, and the filter allows only tools
/// that list names.
pub proof fn law_own_filter_restricts(
    c: TomlConfig,
    selected: Seq<char>,
    a: crate::namespace::ActiveNamespace,
    s: Seq<char>,
    list: Vec<String>,
)
    requires
        forall|x: Seq<char>|
            #[trigger] a.allowed().contains(x) <==> in_effective(
                c,
                crate::config::active_namespace(selected),
                x,
                extends_fuel(c),
            ),
        forall|x: Seq<char>|
            #[trigger] a.filter(x) == acl_filter(c, crate::config::active_namespace(selected), x),
        lookup(c.namespaces@, crate::config::active_namespace(selected)) is Some,
        lookup(lookup(c.namespaces@, crate::config::active_namespace(selected))->0.tools@, s)
            == Some(list),
        a.allowed().contains(s),
    ensures
        a.filter(s) is Some,
        forall|t: Seq<char>| #[trigger] a.filter(s)->0.contains(t) ==> lists(list@, t),
{
    let n = crate::config::active_namespace(selected);
    assert(a.filter(s) == acl_filter(c, n, s));
    assert(in_effective(c, n, s, extends_fuel(c)));
    assert(extends_fuel(c) > 0);
    law_own_filter_bounds_effective(c, n, s, extends_fuel(c), list);
}

} // verus!
