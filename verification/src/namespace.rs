//! Namespace ACL — scopes a session's visible servers and tools.

use vstd::prelude::*;

use crate::compose::{acl_filter, collect_effective, effective_filter, effective_filter_exec, extends_fuel, in_effective};
use crate::config::{active_namespace, TomlConfig, DEFAULT_NAMESPACE};
use crate::lookup::{
    contains_str, find_entry, has_key, keys, lemma_lists_to_set, lists, lookup,
    sorted_insert_entry,
};
use crate::text::{lemma_seq_lt_irreflexive, seq_lt, sorted_strict, string_of, views};

verus! {

/// The active namespace ACL for this session.
///
/// Stores the server allow-list and the optional per-server tool allow-lists
/// (name-level only). An absent entry for an allowed server means all its
/// tools are visible; a present list is an exact allow-list (a present empty
/// list denies every tool). Servers, filter keys and filter lists are kept
/// strictly sorted so consumers can inspect them deterministically.
#[derive(Debug)]
pub struct ActiveNamespace {
    name: String,
    servers: Vec<String>,
    tools: Vec<(String, Vec<String>)>,
}

/// The tool set a filter list denotes.
pub open spec fn filter_set(list: Vec<String>) -> Set<Seq<char>> {
    views(list@).to_set()
}

/// The tool set of an optional filter list.
pub open spec fn opt_filter(list: Option<Vec<String>>) -> Option<Set<Seq<char>>> {
    match list {
        Some(l) => Some(filter_set(l)),
        None => None,
    }
}

/// Every list of the entries is strictly sorted.
pub open spec fn lists_sorted(tools: Seq<(String, Vec<String>)>) -> bool {
    forall|i: int| 0 <= i < tools.len() ==> sorted_strict(views(#[trigger] tools[i].1@))
}

impl ActiveNamespace {
    #[verifier::type_invariant]
    spec fn well_formed(self) -> bool {
        &&& sorted_strict(views(self.servers@))
        &&& sorted_strict(keys(self.tools@))
        &&& lists_sorted(self.tools@)
    }

    /// The active namespace name.
    pub closed spec fn spec_name(&self) -> Seq<char> {
        self.name@
    }

    /// The visible servers, in sorted order.
    pub closed spec fn sorted_servers(&self) -> Seq<Seq<char>> {
        views(self.servers@)
    }

    /// The servers visible in this namespace.
    pub open spec fn allowed(&self) -> Set<Seq<char>> {
        self.sorted_servers().to_set()
    }

    /// The tool allow-list of a server, if one is present.
    pub closed spec fn filter(&self, server: Seq<char>) -> Option<Set<Seq<char>>> {
        opt_filter(lookup(self.tools@, server))
    }

    /// Whether a tool is visible: its server is allowed and either no list
    /// exists for the server or the list names the tool exactly.
    pub open spec fn tool_visible(&self, server: Seq<char>, tool: Seq<char>) -> bool {
        &&& self.allowed().contains(server)
        &&& match self.filter(server) {
            None => true,
            Some(set) => set.contains(tool),
        }
    }

    /// Builds an ACL from the config and selected namespace (empty selects
    /// [`DEFAULT_NAMESPACE`]). The namespace must be declared, which a
    /// validated config guarantees. Its servers are the namespace's
    /// effective servers (its own and every inherited one); its tool filters
    /// are the effective filters of those servers, an empty intersection
    /// kept as a present filter that denies every tool.
    pub fn new(config: &TomlConfig, selected: &str) -> (r: Self)
        requires
            has_key(config.namespaces@, active_namespace(selected@)),
        ensures
            r.spec_name() == active_namespace(selected@),
            forall|s: Seq<char>|
                #[trigger] r.allowed().contains(s) <==> in_effective(
                    *config,
                    active_namespace(selected@),
                    s,
                    extends_fuel(*config),
                ),
            forall|k: Seq<char>|
                #[trigger] r.filter(k) == acl_filter(*config, active_namespace(selected@), k),
    {
        let name = if selected.is_empty() {
            string_of(DEFAULT_NAMESPACE)
        } else {
            string_of(selected)
        };
        let fuel: usize = config.namespaces.len();
        let mut servers: Vec<String> = Vec::new();
        collect_effective(config, name.as_str(), fuel, &mut servers);
        let ghost act = name@;
        let ghost sv = views(servers@);
        let mut tools: Vec<(String, Vec<String>)> = Vec::new();
        let mut i: usize = 0;
        while i < servers.len()
            invariant
                i <= servers.len(),
                fuel == extends_fuel(*config),
                act == name@,
                sv == views(servers@),
                sorted_strict(sv),
                sorted_strict(keys(tools@)),
                lists_sorted(tools@),
                forall|key: Seq<char>|
                    has_key(tools@, key) ==> #[trigger] sv.take(i as int).contains(key),
                forall|key: Seq<char>|
                    #[trigger] opt_filter(lookup(tools@, key)) == if sv.take(i as int).contains(key) {
                        effective_filter(*config, act, key, fuel as nat)
                    } else {
                        None
                    },
            decreases servers.len() - i,
        {
            let server = &servers[i];
            let f = effective_filter_exec(config, name.as_str(), server.as_str(), fuel);
            assert(sv.take(i + 1) =~= sv.take(i as int).push(server@));
            proof {
                // The servers are strictly sorted, so this one is not yet a key.
                if sv.take(i as int).contains(server@) {
                    let j = choose|j: int| 0 <= j < i && sv.take(i as int)[j] == server@;
                    assert(seq_lt(sv[j], sv[i as int]));
                    lemma_seq_lt_irreflexive(server@);
                }
            }
            match f {
                Some(list) => {
                    let ghost old_tools = tools@;
                    sorted_insert_entry(&mut tools, server.clone(), list);
                    proof {
                        assert forall|j: int| 0 <= j < tools@.len() implies sorted_strict(
                            views(#[trigger] tools@[j].1@),
                        ) by {
                            let (kk, vv) = tools@[j];
                            crate::lookup::lemma_sorted_first_key(tools@, j);
                            if kk@ != server@ {
                                assert(has_key(old_tools, kk@));
                                let w = choose|w: int|
                                    0 <= w < old_tools.len() && #[trigger] old_tools[w].0@ == kk@;
                                crate::lookup::lemma_sorted_first_key(old_tools, w);
                                assert(vv == old_tools[w].1);
                            }
                        }
                        assert forall|key: Seq<char>|
                            #[trigger] opt_filter(lookup(tools@, key)) == if sv.take(i + 1).contains(
                                key,
                            ) {
                                effective_filter(*config, act, key, fuel as nat)
                            } else {
                                None
                            } by {
                            if key != server@ {
                                assert(sv.take(i + 1).contains(key) == sv.take(i as int).contains(
                                    key,
                                ));
                            } else {
                                assert(sv.take(i + 1)[i as int] == key);
                                assert(lookup(tools@, key) == Some(list));
                                assert(opt_filter(lookup(tools@, key)) == Some(filter_set(list)));
                            }
                        }
                        assert forall|key: Seq<char>|
                            has_key(tools@, key) implies #[trigger] sv.take(i + 1).contains(key) by {
                            if key != server@ {
                                assert(has_key(old_tools, key));
                                assert(sv.take(i as int).contains(key));
                            } else {
                                assert(sv.take(i + 1)[i as int] == key);
                            }
                        }
                    }
                },
                None => {
                    proof {
                        assert forall|key: Seq<char>|
                            #[trigger] opt_filter(lookup(tools@, key)) == if sv.take(i + 1).contains(
                                key,
                            ) {
                                effective_filter(*config, act, key, fuel as nat)
                            } else {
                                None
                            } by {
                            if key != server@ {
                                assert(sv.take(i + 1).contains(key) == sv.take(i as int).contains(
                                    key,
                                ));
                            } else {
                                assert(sv.take(i + 1)[i as int] == key);
                                if has_key(tools@, key) {
                                    assert(sv.take(i as int).contains(key));
                                }
                            }
                        }
                        assert forall|key: Seq<char>|
                            has_key(tools@, key) implies #[trigger] sv.take(i + 1).contains(key) by {
                            assert(sv.take(i as int).contains(key));
                            let j = choose|j: int| 0 <= j < i && sv.take(i as int)[j] == key;
                            assert(sv.take(i + 1)[j] == key);
                        }
                    }
                },
            }
            i = i + 1;
        }
        assert(sv.take(servers.len() as int) =~= sv);
        let r = ActiveNamespace { name, servers, tools };
        proof {
            assert forall|k: Seq<char>| #[trigger] r.filter(k) == acl_filter(*config, act, k) by {
                assert(r.filter(k) == opt_filter(lookup(r.tools@, k)));
                assert(sv.to_set().contains(k) == sv.contains(k));
            }
            assert forall|s: Seq<char>| #[trigger] r.allowed().contains(s) <==> in_effective(
                *config,
                act,
                s,
                extends_fuel(*config),
            ) by {
                assert(r.allowed() == sv.to_set());
                assert(Seq::<String>::empty().len() == 0);
            }
        }
        r
    }

    /// Returns the active namespace name.
    pub fn name(&self) -> (r: &str)
        ensures
            r@ == self.spec_name(),
    {
        self.name.as_str()
    }

    /// Returns true when the server is visible in this namespace.
    pub fn is_server_allowed(&self, server: &str) -> (r: bool)
        ensures
            r == self.allowed().contains(server@),
    {
        let r = contains_str(&self.servers, server);
        proof {
            lemma_lists_to_set(self.servers@, server@);
        }
        r
    }

    /// Returns true when a tool is visible in this namespace.
    ///
    /// A server must be allowed. If no tool list exists for that server,
    /// all tools are visible. If a list is present, the tool name must be
    /// exactly in the list (name-level only).
    pub fn is_tool_allowed(&self, server: &str, tool: &str) -> (r: bool)
        ensures
            r == self.tool_visible(server@, tool@),
    {
        if !self.is_server_allowed(server) {
            return false;
        }
        match find_entry(&self.tools, server) {
            None => true,
            Some(i) => {
                let r = contains_str(&self.tools[i].1, tool);
                proof {
                    lemma_lists_to_set(self.tools@[i as int].1@, tool@);
                }
                r
            },
        }
    }

    /// Lists the visible servers in deterministic (sorted) order.
    pub fn allowed_servers(&self) -> (r: Vec<String>)
        ensures
            views(r@) == self.sorted_servers(),
            sorted_strict(views(r@)),
            views(r@).to_set() == self.allowed(),
    {
        proof {
            use_type_invariant(self);
        }
        let r = self.servers.clone();
        assert(r@ =~= self.servers@);
        r
    }

    /// Returns the per-server tool filters, sorted by server, each list
    /// sorted. An absent server permits all of that server's tools; a present
    /// empty list denies every tool and remains visible here.
    pub fn effective_tool_filters(&self) -> (r: &Vec<(String, Vec<String>)>)
        ensures
            sorted_strict(keys(r@)),
            lists_sorted(r@),
            forall|k: Seq<char>|
                #[trigger] self.filter(k) == match lookup(r@, k) {
                    Some(list) => Some(filter_set(list)),
                    None => None,
                },
    {
        proof {
            use_type_invariant(self);
        }
        &self.tools
    }
}

} // verus!
