//! Secret redaction: every resolved credential value is registered, and
//! every registered value is replaced by `[REDACTED]` before text reaches a
//! log or diagnostic sink.

use vstd::prelude::*;

use crate::text::{str_chars, str_eq, string_from_chars};

verus! {

/// The replacement text of a redacted secret.
pub const REDACTED: &'static str = "[REDACTED]";

/// Whether `p` occurs in `t` at index `i`.
pub open spec fn occurs_at(t: Seq<char>, p: Seq<char>, i: int) -> bool {
    0 <= i && i + p.len() <= t.len() && t.subrange(i, i + p.len()) == p
}

/// Whether `p` occurs anywhere in `t`.
pub open spec fn occurs(t: Seq<char>, p: Seq<char>) -> bool {
    exists|i: int| occurs_at(t, p, i)
}

/// `t` with every non-overlapping occurrence of the non-empty `p`, scanned
/// left to right, replaced by `r` (the semantics of `str::replace`).
pub open spec fn replace_all(t: Seq<char>, p: Seq<char>, r: Seq<char>) -> Seq<char>
    decreases t.len(),
{
    if t.len() == 0 {
        Seq::empty()
    } else if p.len() > 0 && occurs_at(t, p, 0) {
        r + replace_all(t.skip(p.len() as int), p, r)
    } else {
        seq![t[0]] + replace_all(t.drop_first(), p, r)
    }
}

/// `t` with each secret of `secrets`, in order, replaced by `[REDACTED]`.
pub open spec fn redact_seq(t: Seq<char>, secrets: Seq<Seq<char>>) -> Seq<char>
    decreases secrets.len(),
{
    if secrets.len() == 0 {
        t
    } else {
        replace_all(redact_seq(t, secrets.drop_last()), secrets.last(), REDACTED@)
    }
}

/// The registered secrets, in registration order; each is non-empty and
/// registered once.
#[derive(Debug)]
pub struct SecretSet {
    secrets: Vec<String>,
}

impl SecretSet {
    #[verifier::type_invariant]
    spec fn well_formed(self) -> bool {
        forall|i: int| 0 <= i < self.secrets@.len() ==> #[trigger] self.secrets@[i]@.len() > 0
    }

    /// The registered secrets, in registration order.
    pub closed spec fn contents(&self) -> Seq<Seq<char>> {
        self.secrets@.map_values(|s: String| s@)
    }

    /// An empty set.
    pub fn new() -> (r: Self)
        ensures
            r.contents() == Seq::<Seq<char>>::empty(),
    {
        let r = SecretSet { secrets: Vec::new() };
        assert(r.contents() =~= Seq::<Seq<char>>::empty());
        r
    }
}

/// Register a resolved secret for redaction. Empty values are ignored; a
/// value already registered is not added again.
pub fn register_secret(set: &mut SecretSet, secret: &str)
    ensures
        final(set).contents() == if secret@.len() == 0 || old(set).contents().contains(secret@) {
            old(set).contents()
        } else {
            old(set).contents().push(secret@)
        },
{
    proof {
        use_type_invariant(&*set);
    }
    if secret.is_empty() {
        return;
    }
    let mut i: usize = 0;
    while i < set.secrets.len()
        invariant
            i <= set.secrets.len(),
            forall|j: int| 0 <= j < i ==> #[trigger] set.secrets@[j]@ != secret@,
        decreases set.secrets.len() - i,
    {
        if str_eq(set.secrets[i].as_str(), secret) {
            proof {
                assert(set.contents()[i as int] == secret@);
            }
            return;
        }
        i = i + 1;
    }
    proof {
        assert(!set.contents().contains(secret@)) by {
            if set.contents().contains(secret@) {
                let j = choose|j: int| 0 <= j < set.contents().len() && set.contents()[j] == secret@;
                assert(set.secrets@[j]@ == secret@);
            }
        }
    }
    let ghost before = set.contents();
    let mut v: Vec<String> = Vec::new();
    std::mem::swap(&mut v, &mut set.secrets);
    v.push(string_from_chars(&str_chars(secret)));
    *set = SecretSet { secrets: v };
    assert(set.contents() =~= before.push(secret@));
}

fn occurs_here(t: &Vec<char>, p: &Vec<char>, i: usize) -> (r: bool)
    requires
        i <= t.len(),
    ensures
        r == occurs_at(t@, p@, i as int),
{
    if p.len() > t.len() - i {
        return false;
    }
    let mut k: usize = 0;
    while k < p.len()
        invariant
            i + p.len() <= t.len(),
            k <= p.len(),
            forall|j: int| 0 <= j < k ==> t@[i + j] == p@[j],
        decreases p.len() - k,
    {
        if t[i + k] != p[k] {
            assert(t@.subrange(i as int, i + p.len())[k as int] != p@[k as int]);
            return false;
        }
        k = k + 1;
    }
    assert(t@.subrange(i as int, i + p.len()) =~= p@);
    true
}

/// `t` with every occurrence of the non-empty `p` replaced by `r`.
pub fn replace_chars(t: &Vec<char>, p: &Vec<char>, r: &str) -> (out: Vec<char>)
    requires
        p.len() > 0,
    ensures
        out@ == replace_all(t@, p@, r@),
{
    let rc = str_chars(r);
    let mut out: Vec<char> = Vec::new();
    let mut i: usize = 0;
    assert(t@.skip(0) =~= t@);
    while i < t.len()
        invariant
            i <= t.len(),
            p.len() > 0,
            rc@ == r@,
            out@ + replace_all(t@.skip(i as int), p@, r@) == replace_all(t@, p@, r@),
        decreases t.len() - i,
    {
        let ghost rest = t@.skip(i as int);
        if occurs_here(t, p, i) {
            assert(occurs_at(rest, p@, 0)) by {
                assert(rest.subrange(0, p@.len() as int) =~= t@.subrange(i as int, i + p@.len()));
            }
            assert(rest.skip(p@.len() as int) =~= t@.skip(i + p.len()));
            let mut k: usize = 0;
            let ghost out0 = out@;
            while k < rc.len()
                invariant
                    k <= rc.len(),
                    out@ == out0 + rc@.take(k as int),
                decreases rc.len() - k,
            {
                out.push(rc[k]);
                assert(rc@.take(k + 1) =~= rc@.take(k as int).push(rc@[k as int]));
                k = k + 1;
            }
            assert(rc@.take(rc.len() as int) =~= rc@);
            assert(out@ + replace_all(t@.skip(i + p.len()), p@, r@) =~= out0 + replace_all(
                rest,
                p@,
                r@,
            ));
            i = i + p.len();
        } else {
            assert(!occurs_at(rest, p@, 0)) by {
                if occurs_at(rest, p@, 0) {
                    assert(rest.subrange(0, p@.len() as int) =~= t@.subrange(
                        i as int,
                        i + p@.len(),
                    ));
                }
            }
            assert(rest.drop_first() =~= t@.skip(i + 1));
            let ghost out0 = out@;
            out.push(t[i]);
            assert(out@ + replace_all(t@.skip(i + 1), p@, r@) =~= out0 + replace_all(
                rest,
                p@,
                r@,
            ));
            i = i + 1;
        }
    }
    assert(t@.skip(t.len() as int) =~= Seq::<char>::empty());
    assert(out@ + Seq::<char>::empty() =~= out@);
    out
}

/// Redact every registered secret from the given text.
pub fn redact(set: &SecretSet, text: &str) -> (r: String)
    ensures
        r@ == redact_seq(text@, set.contents()),
{
    proof {
        use_type_invariant(set);
    }
    let mut cur = str_chars(text);
    let mut i: usize = 0;
    while i < set.secrets.len()
        invariant
            i <= set.secrets.len(),
            forall|j: int| 0 <= j < set.secrets@.len() ==> #[trigger] set.secrets@[j]@.len() > 0,
            cur@ == redact_seq(text@, set.contents().take(i as int)),
        decreases set.secrets.len() - i,
    {
        let p = str_chars(set.secrets[i].as_str());
        assert(set.contents().take(i + 1).drop_last() =~= set.contents().take(i as int));
        assert(set.contents().take(i + 1).last() == set.secrets@[i as int]@);
        cur = replace_chars(&cur, &p, REDACTED);
        i = i + 1;
    }
    assert(set.contents().take(set.secrets.len() as int) =~= set.contents());
    string_from_chars(&cur)
}

} // verus!
