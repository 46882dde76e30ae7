//! Named entries: ordered `(name, value)` pairs looked up by name, first
//! match wins (the configuration's tables keep their names unique).

use vstd::prelude::*;

use crate::text::str_eq;

verus! {

/// Whether some entry is named `k`.
pub open spec fn has_key<V>(entries: Seq<(String, V)>, k: Seq<char>) -> bool {
    exists|i: int| 0 <= i < entries.len() && #[trigger] entries[i].0@ == k
}

/// Whether `i` is the first entry named `k`.
pub open spec fn is_first_key<V>(entries: Seq<(String, V)>, k: Seq<char>, i: int) -> bool {
    &&& 0 <= i < entries.len()
    &&& entries[i].0@ == k
    &&& forall|j: int| 0 <= j < i ==> #[trigger] entries[j].0@ != k
}

/// The index of the first entry named `k` (meaningful when `has_key`).
pub open spec fn first_key_index<V>(entries: Seq<(String, V)>, k: Seq<char>) -> int {
    choose|i: int| is_first_key(entries, k, i)
}

/// The value of the first entry named `k`.
pub open spec fn lookup<V>(entries: Seq<(String, V)>, k: Seq<char>) -> Option<V> {
    if has_key(entries, k) {
        Some(entries[first_key_index(entries, k)].1)
    } else {
        None
    }
}

/// The first index named `k` is unique.
pub proof fn lemma_first_key_unique<V>(entries: Seq<(String, V)>, k: Seq<char>, i: int)
    requires
        is_first_key(entries, k, i),
    ensures
        has_key(entries, k),
        first_key_index(entries, k) == i,
{
    assert(entries[i].0@ == k);
    let c = first_key_index(entries, k);
    assert(is_first_key(entries, k, c));
    if c < i {
        assert(entries[c].0@ != k);
    } else if c > i {
        assert(entries[i].0@ != k);
    }
}

/// The index of the first entry named `k`, if any.
pub fn find_entry<V>(entries: &Vec<(String, V)>, k: &str) -> (r: Option<usize>)
    ensures
        match r {
            Some(i) => has_key(entries@, k@) && i < entries.len() && i as int == first_key_index(
                entries@,
                k@,
            ),
            None => !has_key(entries@, k@),
        },
{
    let mut i: usize = 0;
    while i < entries.len()
        invariant
            i <= entries.len(),
            forall|j: int| 0 <= j < i ==> #[trigger] entries@[j].0@ != k@,
        decreases entries.len() - i,
    {
        if str_eq(entries[i].0.as_str(), k) {
            proof {
                lemma_first_key_unique(entries@, k@, i as int);
            }
            return Some(i);
        }
        i = i + 1;
    }
    None
}

/// Whether some string of `v` equals `k`.
pub open spec fn lists(v: Seq<String>, k: Seq<char>) -> bool {
    exists|j: int| 0 <= j < v.len() && #[trigger] v[j]@ == k
}

/// Executable `lists`.
pub fn contains_str(v: &Vec<String>, k: &str) -> (r: bool)
    ensures
        r == lists(v@, k@),
{
    let mut i: usize = 0;
    while i < v.len()
        invariant
            i <= v.len(),
            forall|j: int| 0 <= j < i ==> #[trigger] v@[j]@ != k@,
        decreases v.len() - i,
    {
        if str_eq(v[i].as_str(), k) {
            return true;
        }
        i = i + 1;
    }
    false
}

} // verus!

verus! {

use crate::text::{lemma_seq_lt_irreflexive, lemma_seq_lt_total, lemma_seq_lt_transitive, seq_lt, sorted_strict, str_lt};

/// The names of a sequence of entries.
pub open spec fn keys<V>(v: Seq<(String, V)>) -> Seq<Seq<char>> {
    v.map_values(|e: (String, V)| e.0@)
}

/// In a sequence of entries with strictly sorted names, an entry is the
/// first of its name.
pub proof fn lemma_sorted_first_key<V>(v: Seq<(String, V)>, i: int)
    requires
        sorted_strict(keys(v)),
        0 <= i < v.len(),
    ensures
        is_first_key(v, v[i].0@, i),
        lookup(v, v[i].0@) == Some(v[i].1),
{
    assert forall|j: int| 0 <= j < i implies #[trigger] v[j].0@ != v[i].0@ by {
        assert(keys(v)[j] == v[j].0@);
        assert(keys(v)[i] == v[i].0@);
        assert(seq_lt(keys(v)[j], keys(v)[i]));
        lemma_seq_lt_irreflexive(v[i].0@);
    }
    lemma_first_key_unique(v, v[i].0@, i);
}

/// Inserts a new named entry into entries with strictly sorted names.
pub fn sorted_insert_entry<V>(v: &mut Vec<(String, V)>, key: String, val: V)
    requires
        sorted_strict(keys(old(v)@)),
        !has_key(old(v)@, key@),
    ensures
        sorted_strict(keys(final(v)@)),
        has_key(final(v)@, key@),
        lookup(final(v)@, key@) == Some(val),
        forall|k: Seq<char>|
            k != key@ ==> #[trigger] lookup(final(v)@, k) == lookup(old(v)@, k),
        forall|k: Seq<char>| #[trigger]
            has_key(final(v)@, k) <==> (k == key@ || has_key(old(v)@, k)),
{
    let ghost old_v = v@;
    let ghost ok = keys(v@);
    let mut p: usize = 0;
    while p < v.len() && str_lt(v[p].0.as_str(), key.as_str())
        invariant
            p <= v.len(),
            v@ == old_v,
            ok == keys(old_v),
            sorted_strict(ok),
            forall|j: int| 0 <= j < p ==> seq_lt(#[trigger] ok[j], key@),
        decreases v.len() - p,
    {
        p = p + 1;
    }
    proof {
        if p < v.len() {
            lemma_seq_lt_total(v@[p as int].0@, key@);
            assert(ok[p as int] == v@[p as int].0@);
            assert(v@[p as int].0@ != key@);
        }
    }
    let ghost kv = key@;
    let ghost entry = (key, val);
    v.insert(p, (key, val));
    proof {
        let nv = v@;
        let nk = keys(nv);
        assert(nv == old_v.insert(p as int, entry));
        assert(nk =~= ok.insert(p as int, kv));
        assert forall|i: int, j: int| 0 <= i < j < nk.len() implies seq_lt(
            #[trigger] nk[i],
            #[trigger] nk[j],
        ) by {
            if j < p {
            } else if i < p && j == p {
            } else if i < p && j > p {
                assert(nk[j] == ok[j - 1]);
                assert(seq_lt(kv, ok[p as int]));
                if j - 1 > p {
                    lemma_seq_lt_transitive(kv, ok[p as int], ok[j - 1]);
                }
                lemma_seq_lt_transitive(ok[i], kv, ok[j - 1]);
            } else if i == p {
                assert(nk[j] == ok[j - 1]);
                assert(seq_lt(kv, ok[p as int]));
                if j - 1 > p {
                    lemma_seq_lt_transitive(kv, ok[p as int], ok[j - 1]);
                }
            } else {
                assert(nk[i] == ok[i - 1]);
                assert(nk[j] == ok[j - 1]);
            }
        }
        assert(nv[p as int] == entry);
        lemma_sorted_first_key(nv, p as int);
        assert forall|k: Seq<char>| #[trigger] has_key(nv, k) <==> (k == kv || has_key(old_v, k)) by {
            if has_key(nv, k) {
                let i = choose|i: int| 0 <= i < nv.len() && #[trigger] nv[i].0@ == k;
                if i < p {
                    assert(old_v[i].0@ == k);
                } else if i > p {
                    assert(old_v[i - 1].0@ == k);
                }
            }
            if has_key(old_v, k) {
                let i = choose|i: int| 0 <= i < old_v.len() && #[trigger] old_v[i].0@ == k;
                if i < p {
                    assert(nv[i].0@ == k);
                } else {
                    assert(nv[i + 1].0@ == k);
                }
            }
            if k == kv {
                assert(nv[p as int].0@ == k);
            }
        }
        assert forall|k: Seq<char>| k != kv implies #[trigger] lookup(nv, k) == lookup(old_v, k) by {
            if has_key(old_v, k) {
                let i = choose|i: int| 0 <= i < old_v.len() && #[trigger] old_v[i].0@ == k;
                assert(ok[i] == k);
                lemma_sorted_first_key(old_v, i);
                if i < p {
                    assert(nv[i] == old_v[i]);
                    lemma_sorted_first_key(nv, i);
                } else {
                    assert(nv[i + 1] == old_v[i]);
                    lemma_sorted_first_key(nv, i + 1);
                }
            }
        }
    }
}

} // verus!

verus! {

use crate::text::views;

/// `lists` is membership in the set of views.
pub proof fn lemma_lists_to_set(v: Seq<String>, k: Seq<char>)
    ensures
        lists(v, k) <==> views(v).to_set().contains(k),
{
    if lists(v, k) {
        let j = choose|j: int| 0 <= j < v.len() && #[trigger] v[j]@ == k;
        assert(views(v)[j] == k);
    }
    if views(v).to_set().contains(k) {
        let j = choose|j: int| 0 <= j < views(v).len() && views(v)[j] == k;
        assert(v[j]@ == k);
    }
}

/// A name that occurs has a first occurrence.
pub proof fn lemma_least_key<V>(v: Seq<(String, V)>, k: Seq<char>, w: int)
    requires
        0 <= w < v.len(),
        v[w].0@ == k,
    ensures
        exists|x: int| is_first_key(v, k, x),
    decreases w,
{
    if forall|j: int| 0 <= j < w ==> #[trigger] v[j].0@ != k {
        assert(is_first_key(v, k, w));
    } else {
        let j = choose|j: int| 0 <= j < w && #[trigger] v[j].0@ != k == false;
        lemma_least_key(v, k, j);
    }
}

} // verus!
