//! Namespace composition through `extends`.
//!
//! A namespace's effective servers are its own servers together with the
//! effective servers of every namespace it extends (transitively). Its
//! effective tool filter for a server is the intersection of its own filter
//! for that server (if any) with every parent's effective filter for it (if
//! any): a missing filter is the identity ("all tools"), and an empty
//! intersection stays present as "no tool". Resolution visits at most as
//! many namespaces along one `extends` chain as there are namespaces; a
//! longer chain repeats a namespace, and is reported as a cycle.

use vstd::prelude::*;

use crate::config::{NamespaceConfig, TomlConfig};
use crate::error::{StartupError, StartupErrorView};
use crate::lookup::{contains_str, find_entry, has_key, lemma_lists_to_set, lists, lookup};
use crate::namespace::filter_set;
use crate::text::{sorted_insert, sorted_strict, string_of, views};

verus! {

/// How many namespaces resolution may visit along one `extends` chain: the
/// number of namespaces, which any chain without a repeat fits in.
pub open spec fn extends_fuel(c: TomlConfig) -> nat {
    c.namespaces@.len()
}

/// Whether `s` is an effective server of namespace `n`, following at most
/// `k` namespaces down the `extends` chains.
pub open spec fn in_effective(c: TomlConfig, n: Seq<char>, s: Seq<char>, k: nat) -> bool
    decreases k, 0nat,
{
    if k == 0 {
        false
    } else {
        match lookup(c.namespaces@, n) {
            None => false,
            Some(ns) => lists(ns.servers@, s) || in_parents(c, ns.extends@, s, (k - 1) as nat),
        }
    }
}

/// Whether `s` is an effective server of one of `parents`.
pub open spec fn in_parents(c: TomlConfig, parents: Seq<String>, s: Seq<char>, k: nat) -> bool
    decreases k, parents.len() + 1,
{
    if parents.len() == 0 {
        false
    } else {
        in_parents(c, parents.drop_last(), s, k) || in_effective(c, parents.last()@, s, k)
    }
}

/// Intersection of two optional filters, where a missing filter allows all.
pub open spec fn meet(a: Option<Set<Seq<char>>>, b: Option<Set<Seq<char>>>) -> Option<
    Set<Seq<char>>,
> {
    match (a, b) {
        (None, x) => x,
        (x, None) => x,
        (Some(p), Some(q)) => Some(p.intersect(q)),
    }
}

/// A namespace's own tool filter for server `s`.
pub open spec fn local_filter(ns: NamespaceConfig, s: Seq<char>) -> Option<Set<Seq<char>>> {
    match lookup(ns.tools@, s) {
        Some(list) => Some(filter_set(list)),
        None => None,
    }
}

/// The effective tool filter of namespace `n` for server `s`: its own filter
/// met with every parent's effective filter, in `extends` order.
pub open spec fn effective_filter(c: TomlConfig, n: Seq<char>, s: Seq<char>, k: nat) -> Option<
    Set<Seq<char>>,
>
    decreases k, 0nat,
{
    if k == 0 {
        None
    } else {
        match lookup(c.namespaces@, n) {
            None => None,
            Some(ns) => parents_filter(
                c,
                ns.extends@,
                s,
                (k - 1) as nat,
                local_filter(ns, s),
            ),
        }
    }
}

/// `acc` met with the effective filter of each of `parents`, in order.
pub open spec fn parents_filter(
    c: TomlConfig,
    parents: Seq<String>,
    s: Seq<char>,
    k: nat,
    acc: Option<Set<Seq<char>>>,
) -> Option<Set<Seq<char>>>
    decreases k, parents.len() + 1,
{
    if parents.len() == 0 {
        acc
    } else {
        meet(
            parents_filter(c, parents.drop_last(), s, k, acc),
            effective_filter(c, parents.last()@, s, k),
        )
    }
}

/// The filter the access list keeps for `s`: the effective filter of an
/// effective server, none for any other.
pub open spec fn acl_filter(c: TomlConfig, n: Seq<char>, s: Seq<char>) -> Option<Set<Seq<char>>> {
    if in_effective(c, n, s, extends_fuel(c)) {
        effective_filter(c, n, s, extends_fuel(c))
    } else {
        None
    }
}

/// The first `extends` problem met resolving namespace `n` with `k` steps
/// left: a parent that is not declared, or running out of steps (a cycle).
pub open spec fn extends_error(c: TomlConfig, n: Seq<char>, k: nat) -> Option<StartupErrorView>
    decreases k, 0nat,
{
    if k == 0 {
        Some(StartupErrorView::NamespaceCycle { namespace: n })
    } else {
        match lookup(c.namespaces@, n) {
            None => None,
            Some(ns) => parents_error(c, n, ns.extends@, (k - 1) as nat),
        }
    }
}

/// The first problem among the remaining `parents` of `n`, in order.
pub open spec fn parents_error(c: TomlConfig, n: Seq<char>, parents: Seq<String>, k: nat) -> Option<
    StartupErrorView,
>
    decreases k, parents.len() + 1,
{
    if parents.len() == 0 {
        None
    } else if !has_key(c.namespaces@, parents[0]@) {
        Some(StartupErrorView::UnknownParentNamespace { namespace: n, parent: parents[0]@ })
    } else {
        match extends_error(c, parents[0]@, k) {
            Some(e) => Some(e),
            None => parents_error(c, n, parents.drop_first(), k),
        }
    }
}

// ---------------------------------------------------------------------------
// Executable resolution
// ---------------------------------------------------------------------------

/// Whether `s` is an effective server of `n` within `fuel` steps.
pub fn in_effective_exec(c: &TomlConfig, n: &str, s: &str, fuel: usize) -> (r: bool)
    ensures
        r == in_effective(*c, n@, s@, fuel as nat),
    decreases fuel,
{
    if fuel == 0 {
        return false;
    }
    let f1: usize = fuel - 1;
    let ns = match c.namespace(n) {
        Some(ns) => ns,
        None => return false,
    };
    let mut found = contains_str(&ns.servers, s);
    let mut j: usize = 0;
    while j < ns.extends.len()
        invariant
            j <= ns.extends.len(),
            f1 == fuel - 1,
            found == (lists(ns.servers@, s@) || in_parents(*c, ns.extends@.take(j as int), s@, f1 as nat)),
        decreases ns.extends.len() - j,
    {
        let here = in_effective_exec(c, ns.extends[j].as_str(), s, f1);
        assert(ns.extends@.take(j + 1).drop_last() =~= ns.extends@.take(j as int));
        assert(ns.extends@.take(j + 1).last() == ns.extends@[j as int]);
        found = found || here;
        j = j + 1;
    }
    assert(ns.extends@.take(ns.extends.len() as int) =~= ns.extends@);
    found
}

/// Adds the effective servers of `n` within `fuel` steps to `acc`.
pub fn collect_effective(c: &TomlConfig, n: &str, fuel: usize, acc: &mut Vec<String>)
    requires
        sorted_strict(views(old(acc)@)),
    ensures
        sorted_strict(views(final(acc)@)),
        forall|x: Seq<char>|
            #[trigger] views(final(acc)@).to_set().contains(x) <==> (views(old(acc)@).to_set().contains(
                x,
            ) || in_effective(*c, n@, x, fuel as nat)),
    decreases fuel,
{
    if fuel == 0 {
        return;
    }
    let f1: usize = fuel - 1;
    let ns = match c.namespace(n) {
        Some(ns) => ns,
        None => return,
    };
    let ghost start = views(acc@).to_set();
    let mut i: usize = 0;
    while i < ns.servers.len()
        invariant
            i <= ns.servers.len(),
            sorted_strict(views(acc@)),
            start == views(old(acc)@).to_set(),
            views(acc@).to_set() == start.union(views(ns.servers@.take(i as int)).to_set()),
        decreases ns.servers.len() - i,
    {
        sorted_insert(acc, ns.servers[i].clone());
        assert(views(ns.servers@.take(i + 1)) =~= views(ns.servers@.take(i as int)).push(
            ns.servers@[i as int]@,
        ));
        proof {
            views(ns.servers@.take(i as int)).lemma_push_to_set_commute(ns.servers@[i as int]@);
            assert(views(acc@).to_set() =~= start.union(views(ns.servers@.take(i + 1)).to_set()));
        }
        i = i + 1;
    }
    assert(ns.servers@.take(ns.servers.len() as int) =~= ns.servers@);
    proof {
        assert forall|x: Seq<char>| views(ns.servers@).to_set().contains(x) <==> lists(
            ns.servers@,
            x,
        ) by {
            lemma_lists_to_set(ns.servers@, x);
        }
    }
    let mut j: usize = 0;
    while j < ns.extends.len()
        invariant
            j <= ns.extends.len(),
            f1 == fuel - 1,
            sorted_strict(views(acc@)),
            start == views(old(acc)@).to_set(),
            lookup(c.namespaces@, n@) == Some(*ns),
            forall|x: Seq<char>|
                #[trigger] views(acc@).to_set().contains(x) <==> (start.contains(x) || lists(
                    ns.servers@,
                    x,
                ) || in_parents(*c, ns.extends@.take(j as int), x, f1 as nat)),
        decreases ns.extends.len() - j,
    {
        let ghost before = views(acc@).to_set();
        collect_effective(c, ns.extends[j].as_str(), f1, acc);
        assert(ns.extends@.take(j + 1).drop_last() =~= ns.extends@.take(j as int));
        assert(ns.extends@.take(j + 1).last() == ns.extends@[j as int]);
        proof {
            assert forall|x: Seq<char>|
                #[trigger] views(acc@).to_set().contains(x) <==> (start.contains(x) || lists(
                    ns.servers@,
                    x,
                ) || in_parents(*c, ns.extends@.take(j + 1), x, f1 as nat)) by {
                assert(views(acc@).to_set().contains(x) <==> (before.contains(x) || in_effective(
                    *c,
                    ns.extends@[j as int]@,
                    x,
                    f1 as nat,
                )));
                assert(before.contains(x) <==> (start.contains(x) || lists(ns.servers@, x)
                    || in_parents(*c, ns.extends@.take(j as int), x, f1 as nat)));
            }
        }
        j = j + 1;
    }
    assert(ns.extends@.take(ns.extends.len() as int) =~= ns.extends@);
}

/// A sorted list holding exactly the strings of `list`.
fn sorted_set_of(list: &Vec<String>) -> (r: Vec<String>)
    ensures
        sorted_strict(views(r@)),
        views(r@).to_set() == filter_set(*list),
{
    let mut set: Vec<String> = Vec::new();
    let mut t: usize = 0;
    while t < list.len()
        invariant
            t <= list.len(),
            sorted_strict(views(set@)),
            views(set@).to_set() == views(list@.take(t as int)).to_set(),
        decreases list.len() - t,
    {
        sorted_insert(&mut set, list[t].clone());
        assert(views(list@.take(t + 1)) =~= views(list@.take(t as int)).push(list@[t as int]@));
        proof {
            views(list@.take(t as int)).lemma_push_to_set_commute(list@[t as int]@);
        }
        t = t + 1;
    }
    assert(list@.take(list.len() as int) =~= list@);
    set
}

/// An optional sorted list taken as an optional set.
pub open spec fn opt_set(v: Option<Vec<String>>) -> Option<Set<Seq<char>>> {
    match v {
        Some(l) => Some(views(l@).to_set()),
        None => None,
    }
}

/// An optional list that, when present, is strictly sorted.
pub open spec fn opt_sorted(v: Option<Vec<String>>) -> bool {
    match v {
        Some(l) => sorted_strict(views(l@)),
        None => true,
    }
}

/// Executable `meet` over sorted lists.
fn meet_lists(a: Option<Vec<String>>, b: Option<Vec<String>>) -> (r: Option<Vec<String>>)
    requires
        opt_sorted(a),
        opt_sorted(b),
    ensures
        opt_sorted(r),
        opt_set(r) == meet(opt_set(a), opt_set(b)),
{
    match (a, b) {
        (None, x) => x,
        (Some(p), None) => Some(p),
        (Some(p), Some(q)) => {
            let ghost qs = views(q@).to_set();
            let mut out: Vec<String> = Vec::new();
            let mut i: usize = 0;
            while i < p.len()
                invariant
                    i <= p.len(),
                    qs == views(q@).to_set(),
                    sorted_strict(views(out@)),
                    views(out@).to_set() == views(p@.take(i as int)).to_set().intersect(qs),
                decreases p.len() - i,
            {
                let ghost before = views(out@).to_set();
                assert(views(p@.take(i + 1)) =~= views(p@.take(i as int)).push(p@[i as int]@));
                proof {
                    views(p@.take(i as int)).lemma_push_to_set_commute(p@[i as int]@);
                    lemma_lists_to_set(q@, p@[i as int]@);
                }
                if contains_str(&q, p[i].as_str()) {
                    sorted_insert(&mut out, p[i].clone());
                }
                assert(views(out@).to_set() =~= views(p@.take(i + 1)).to_set().intersect(qs));
                i = i + 1;
            }
            assert(p@.take(p.len() as int) =~= p@);
            Some(out)
        },
    }
}

/// The effective tool filter of `n` for `s` within `fuel` steps, as a
/// sorted list.
pub fn effective_filter_exec(c: &TomlConfig, n: &str, s: &str, fuel: usize) -> (r: Option<
    Vec<String>,
>)
    ensures
        opt_sorted(r),
        opt_set(r) == effective_filter(*c, n@, s@, fuel as nat),
    decreases fuel,
{
    if fuel == 0 {
        return None;
    }
    let f1: usize = fuel - 1;
    let ns = match c.namespace(n) {
        Some(ns) => ns,
        None => return None,
    };
    let mut acc: Option<Vec<String>> = match find_entry(&ns.tools, s) {
        Some(i) => Some(sorted_set_of(&ns.tools[i].1)),
        None => None,
    };
    let ghost local = local_filter(*ns, s@);
    assert(opt_set(acc) == local);
    let mut j: usize = 0;
    while j < ns.extends.len()
        invariant
            j <= ns.extends.len(),
            fuel > 0,
            f1 == fuel - 1,
            lookup(c.namespaces@, n@) == Some(*ns),
            opt_sorted(acc),
            opt_set(acc) == parents_filter(
                *c,
                ns.extends@.take(j as int),
                s@,
                f1 as nat,
                local,
            ),
        decreases ns.extends.len() - j,
    {
        let f = effective_filter_exec(c, ns.extends[j].as_str(), s, f1);
        assert(ns.extends@.take(j + 1).drop_last() =~= ns.extends@.take(j as int));
        assert(ns.extends@.take(j + 1).last() == ns.extends@[j as int]);
        acc = meet_lists(acc, f);
        j = j + 1;
    }
    assert(ns.extends@.take(ns.extends.len() as int) =~= ns.extends@);
    acc
}

/// The first `extends` problem of namespace `n` within `fuel` steps.
pub fn extends_check(c: &TomlConfig, n: &str, fuel: usize) -> (r: Option<StartupError>)
    ensures
        match r {
            Some(e) => e.validation_view() is Some && extends_error(*c, n@, fuel as nat)
                == e.validation_view(),
            None => extends_error(*c, n@, fuel as nat) is None,
        },
    decreases fuel,
{
    if fuel == 0 {
        return Some(StartupError::NamespaceCycle { namespace: string_of(n) });
    }
    let f1: usize = fuel - 1;
    let ns = match c.namespace(n) {
        Some(ns) => ns,
        None => return None,
    };
    let mut j: usize = 0;
    assert(ns.extends@.skip(0) =~= ns.extends@);
    while j < ns.extends.len()
        invariant
            j <= ns.extends.len(),
            fuel > 0,
            f1 == fuel - 1,
            lookup(c.namespaces@, n@) == Some(*ns),
            extends_error(*c, n@, fuel as nat) == parents_error(
                *c,
                n@,
                ns.extends@.skip(j as int),
                f1 as nat,
            ),
        decreases ns.extends.len() - j,
    {
        let p = &ns.extends[j];
        let ghost rest = ns.extends@.skip(j as int);
        assert(rest[0] == *p);
        assert(rest.drop_first() =~= ns.extends@.skip(j + 1));
        if !c.has_namespace(p.as_str()) {
            return Some(
                StartupError::UnknownParentNamespace { namespace: string_of(n), parent: p.clone() },
            );
        }
        match extends_check(c, p.as_str(), f1) {
            Some(e) => {
                return Some(e);
            },
            None => {},
        }
        j = j + 1;
    }
    None
}

} // verus!
