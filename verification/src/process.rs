//! Upstream process logic: `${VAR}` credential templating with fail-closed
//! resolution, the least-privilege child environment, and the line
//! assembly of captured child stderr.

use vstd::prelude::*;

use crate::error::ToolError;
use crate::redact::{register_secret, SecretSet};
use crate::text::{push_str, str_chars, string_from_chars, string_of};

verus! {

// ---------------------------------------------------------------------------
// `${VAR}` templates
// ---------------------------------------------------------------------------

/// A piece of an env/header/cwd value: literal text or a `${VAR}` placeholder.
#[derive(Debug, Clone)]
pub enum TemplatePart {
    Literal(String),
    Placeholder(String),
}

/// The view of a [`TemplatePart`].
pub enum Segment {
    Lit(Seq<char>),
    Var(Seq<char>),
}

impl TemplatePart {
    pub open spec fn view(&self) -> Segment {
        match self {
            TemplatePart::Literal(s) => Segment::Lit(s@),
            TemplatePart::Placeholder(s) => Segment::Var(s@),
        }
    }
}

/// The views of a sequence of parts.
pub open spec fn part_views(v: Seq<TemplatePart>) -> Seq<Segment> {
    v.map_values(|p: TemplatePart| p.view())
}

/// The index of the first `}` in `s`.
pub open spec fn first_close(s: Seq<char>) -> Option<int>
    decreases s.len(),
{
    if s.len() == 0 {
        None
    } else if s[0] == '}' {
        Some(0)
    } else {
        match first_close(s.drop_first()) {
            Some(j) => Some(j + 1),
            None => None,
        }
    }
}

/// A found `}` lies within the sequence.
pub proof fn lemma_first_close_bound(s: Seq<char>)
    ensures
        first_close(s) matches Some(j) ==> 0 <= j < s.len(),
    decreases s.len(),
{
    if s.len() > 0 {
        lemma_first_close_bound(s.drop_first());
    }
}

/// The parts of a value: `${NAME}` with a non-empty `NAME` (up to the first
/// `}`) is a placeholder; `${}` and an unclosed `${...` stay literal; every
/// other character is literal.
pub open spec fn template(s: Seq<char>) -> Seq<Segment>
    decreases s.len(),
{
    if s.len() == 0 {
        Seq::empty()
    } else if s.len() >= 2 && s[0] == '$' && s[1] == '{' {
        proof {
            lemma_first_close_bound(s.skip(2));
        }
        match first_close(s.skip(2)) {
            Some(j) => if j == 0 {
                seq![Segment::Lit(seq!['$', '{', '}'])] + template(s.skip(3))
            } else {
                seq![Segment::Var(s.subrange(2, j + 2))] + template(s.skip(j + 3))
            },
            None => seq![Segment::Lit(s)],
        }
    } else {
        seq![Segment::Lit(seq![s[0]])] + template(s.drop_first())
    }
}

/// The placeholder names of a sequence of parts, in order.
pub open spec fn var_names(segs: Seq<Segment>) -> Seq<Seq<char>>
    decreases segs.len(),
{
    if segs.len() == 0 {
        Seq::empty()
    } else {
        match segs[0] {
            Segment::Var(v) => seq![v] + var_names(segs.drop_first()),
            Segment::Lit(_) => var_names(segs.drop_first()),
        }
    }
}

/// The looked-up value of the `k`-th placeholder (absent beyond the end).
pub open spec fn value_at(vals: Seq<Option<String>>, k: int) -> Option<String> {
    if 0 <= k < vals.len() {
        vals[k]
    } else {
        None
    }
}

/// Prepends `out` to a successful resolution.
pub open spec fn prepend(out: Seq<char>, r: Result<Seq<char>, Seq<char>>) -> Result<
    Seq<char>,
    Seq<char>,
> {
    match r {
        Ok(s) => Ok(out + s),
        Err(e) => Err(e),
    }
}

/// Resolving parts whose first placeholder is the `k`-th: the concatenation
/// of literals and looked-up values, or the name of the first placeholder
/// without a value.
pub open spec fn resolve_from(segs: Seq<Segment>, vals: Seq<Option<String>>, k: int) -> Result<
    Seq<char>,
    Seq<char>,
>
    decreases segs.len(),
{
    if segs.len() == 0 {
        Ok(Seq::empty())
    } else {
        match segs[0] {
            Segment::Lit(l) => prepend(l, resolve_from(segs.drop_first(), vals, k)),
            Segment::Var(v) => match value_at(vals, k) {
                Some(x) => prepend(x@, resolve_from(segs.drop_first(), vals, k + 1)),
                None => Err(v),
            },
        }
    }
}

/// The values substituted before resolution stops, in order.
pub open spec fn used_values(segs: Seq<Segment>, vals: Seq<Option<String>>, k: int) -> Seq<
    Seq<char>,
>
    decreases segs.len(),
{
    if segs.len() == 0 {
        Seq::empty()
    } else {
        match segs[0] {
            Segment::Lit(_) => used_values(segs.drop_first(), vals, k),
            Segment::Var(_) => match value_at(vals, k) {
                Some(x) => seq![x@] + used_values(segs.drop_first(), vals, k + 1),
                None => Seq::empty(),
            },
        }
    }
}

/// Registering one secret (empty and known values are ignored).
pub open spec fn reg(c: Seq<Seq<char>>, x: Seq<char>) -> Seq<Seq<char>> {
    if x.len() == 0 || c.contains(x) {
        c
    } else {
        c.push(x)
    }
}

/// Registering secrets in order.
pub open spec fn reg_all(c: Seq<Seq<char>>, xs: Seq<Seq<char>>) -> Seq<Seq<char>>
    decreases xs.len(),
{
    if xs.len() == 0 {
        c
    } else {
        reg_all(reg(c, xs[0]), xs.drop_first())
    }
}

proof fn lemma_first_close_found(s: Seq<char>, j: int)
    requires
        0 <= j < s.len(),
        s[j] == '}',
        forall|m: int| 0 <= m < j ==> s[m] != '}',
    ensures
        first_close(s) == Some(j),
    decreases j,
{
    if j > 0 {
        lemma_first_close_found(s.drop_first(), j - 1);
    }
}

proof fn lemma_first_close_none(s: Seq<char>)
    requires
        forall|m: int| 0 <= m < s.len() ==> s[m] != '}',
    ensures
        first_close(s) is None,
    decreases s.len(),
{
    if s.len() > 0 {
        lemma_first_close_none(s.drop_first());
    }
}

/// Split a value into literal text and `${VAR}` placeholders.
pub fn template_parts(raw: &str) -> (r: Vec<TemplatePart>)
    ensures
        part_views(r@) == template(raw@),
{
    let cs = str_chars(raw);
    let n = cs.len();
    let mut out: Vec<TemplatePart> = Vec::new();
    let mut i: usize = 0;
    assert(raw@.skip(0) =~= raw@);
    while i < n
        invariant
            cs@ == raw@,
            n == cs.len(),
            i <= n,
            template(raw@) == part_views(out@) + template(raw@.skip(i as int)),
        decreases n - i,
    {
        let ghost rest = raw@.skip(i as int);
        let ghost before = part_views(out@);
        if i + 1 < n && cs[i] == '$' && cs[i + 1] == '{' {
            assert(rest[0] == '$' && rest[1] == '{');
            let ghost body = rest.skip(2);
            let mut j: usize = i + 2;
            while j < n && cs[j] != '}'
                invariant
                    cs@ == raw@,
                    n == cs.len(),
                    i + 2 <= j <= n,
                    forall|m: int| i + 2 <= m < j ==> cs@[m] != '}',
                decreases n - j,
            {
                j = j + 1;
            }
            if j < n {
                proof {
                    assert(body[j - i - 2] == '}');
                    assert forall|m: int| 0 <= m < j - i - 2 implies body[m] != '}' by {
                        assert(body[m] == cs@[i + 2 + m]);
                    }
                    lemma_first_close_found(body, j - i - 2);
                }
                if j == i + 2 {
                    let mut lit_chars: Vec<char> = Vec::new();
                    lit_chars.push('$');
                    lit_chars.push('{');
                    lit_chars.push('}');
                    let lit = string_from_chars(&lit_chars);
                    assert(lit_chars@ =~= seq!['$', '{', '}']);
                    out.push(TemplatePart::Literal(lit));
                    assert(rest.skip(3) =~= raw@.skip(j + 1));
                } else {
                    let mut name: Vec<char> = Vec::new();
                    let mut m: usize = i + 2;
                    while m < j
                        invariant
                            i + 2 <= m <= j,
                            j < n,
                            n == cs.len(),
                            name@ == cs@.subrange(i + 2, m as int),
                        decreases j - m,
                    {
                        name.push(cs[m]);
                        assert(cs@.subrange(i + 2, m + 1) =~= cs@.subrange(i + 2, m as int).push(
                            cs@[m as int],
                        ));
                        m = m + 1;
                    }
                    assert(name@ =~= rest.subrange(2, (j - i - 2) + 2));
                    out.push(TemplatePart::Placeholder(string_from_chars(&name)));
                    assert(rest.skip((j - i - 2) + 3) =~= raw@.skip(j + 1));
                }
                assert(part_views(out@) =~= before + template(rest).take(1));
                assert(template(rest) =~= template(rest).take(1) + template(raw@.skip(j + 1)));
                i = j + 1;
            } else {
                proof {
                    assert forall|m: int| 0 <= m < body.len() implies body[m] != '}' by {
                        assert(body[m] == cs@[i + 2 + m]);
                    }
                    lemma_first_close_none(body);
                }
                let mut lit: Vec<char> = Vec::new();
                let mut m: usize = i;
                while m < n
                    invariant
                        i <= m <= n,
                        n == cs.len(),
                        lit@ == cs@.subrange(i as int, m as int),
                    decreases n - m,
                {
                    lit.push(cs[m]);
                    assert(cs@.subrange(i as int, m + 1) =~= cs@.subrange(i as int, m as int).push(
                        cs@[m as int],
                    ));
                    m = m + 1;
                }
                assert(lit@ =~= rest);
                out.push(TemplatePart::Literal(string_from_chars(&lit)));
                assert(part_views(out@) =~= before + template(rest));
                assert(raw@.skip(n as int) =~= Seq::<char>::empty());
                assert(part_views(out@) + Seq::<Segment>::empty() =~= part_views(out@));
                i = n;
            }
        } else {
            let mut lit: Vec<char> = Vec::new();
            lit.push(cs[i]);
            assert(lit@ =~= seq![rest[0]]);
            out.push(TemplatePart::Literal(string_from_chars(&lit)));
            assert(rest.drop_first() =~= raw@.skip(i + 1));
            assert(part_views(out@) =~= before + seq![Segment::Lit(seq![rest[0]])]);
            i = i + 1;
        }
    }
    assert(raw@.skip(n as int) =~= Seq::<char>::empty());
    assert(part_views(out@) + Seq::<Segment>::empty() =~= part_views(out@));
    out
}

/// The `${VAR}` names a value refers to, in order.
pub fn env_placeholders(raw: &str) -> (r: Vec<String>)
    ensures
        r@.map_values(|s: String| s@) == var_names(template(raw@)),
{
    let parts = template_parts(raw);
    let ghost pv = part_views(parts@);
    let mut out: Vec<String> = Vec::new();
    let mut p: usize = 0;
    assert(pv.skip(0) =~= pv);
    while p < parts.len()
        invariant
            p <= parts.len(),
            pv == part_views(parts@),
            var_names(pv) == out@.map_values(|s: String| s@) + var_names(pv.skip(p as int)),
        decreases parts.len() - p,
    {
        let ghost before = out@.map_values(|s: String| s@);
        assert(pv.skip(p as int).drop_first() =~= pv.skip(p + 1));
        assert(pv.skip(p as int)[0] == parts@[p as int].view());
        match &parts[p] {
            TemplatePart::Placeholder(name) => {
                out.push(name.clone());
                assert(out@.map_values(|s: String| s@) =~= before.push(name@));
                assert(before + (seq![name@] + var_names(pv.skip(p + 1))) =~= before.push(name@)
                    + var_names(pv.skip(p + 1)));
            },
            TemplatePart::Literal(_) => {},
        }
        p = p + 1;
    }
    assert(pv.skip(parts.len() as int) =~= Seq::<Segment>::empty());
    assert(out@.map_values(|s: String| s@) + Seq::<Seq<char>>::empty() =~= out@.map_values(
        |s: String| s@,
    ));
    out
}

/// Resolve one env value that may contain `${VAR}` placeholders.
///
/// `values[k]` is what the preferred credential store, then the process
/// environment, yielded for the `k`-th placeholder of
/// [`env_placeholders`]; a missing entry means no value. Every substituted
/// value is registered for redaction before it is used. The first
/// placeholder without a value fails the whole value with a
/// [`ToolError::CredentialResolution`] naming the server and the key, never
/// the value.
pub fn resolve_env_value(
    secrets: &mut SecretSet,
    server: &str,
    raw: &str,
    values: &Vec<Option<String>>,
) -> (r: Result<String, ToolError>)
    ensures
        match resolve_from(template(raw@), values@, 0) {
            Ok(s) => r matches Ok(out) && out@ == s,
            Err(key) => r matches Err(ToolError::CredentialResolution { server: sv, key: k })
                && sv@ == server@ && k@ == key,
        },
        final(secrets).contents() == reg_all(
            old(secrets).contents(),
            used_values(template(raw@), values@, 0),
        ),
{
    let parts = template_parts(raw);
    let ghost pv = part_views(parts@);
    let ghost start = secrets.contents();
    let mut out = String::new();
    let mut k: usize = 0;
    let mut p: usize = 0;
    assert(pv.skip(0) =~= pv);
    while p < parts.len()
        invariant
            p <= parts.len(),
            k <= p,
            pv == part_views(parts@),
            pv == template(raw@),
            start == old(secrets).contents(),
            resolve_from(pv, values@, 0) == prepend(
                out@,
                resolve_from(pv.skip(p as int), values@, k as int),
            ),
            reg_all(start, used_values(pv, values@, 0)) == reg_all(
                secrets.contents(),
                used_values(pv.skip(p as int), values@, k as int),
            ),
        decreases parts.len() - p,
    {
        let ghost rest = pv.skip(p as int);
        assert(rest[0] == parts@[p as int].view());
        assert(rest.drop_first() =~= pv.skip(p + 1));
        match &parts[p] {
            TemplatePart::Literal(l) => {
                let ghost o = out@;
                push_str(&mut out, l.as_str());
                assert(prepend(o, prepend(l@, resolve_from(pv.skip(p + 1), values@, k as int)))
                    == prepend(out@, resolve_from(pv.skip(p + 1), values@, k as int))) by {
                    match resolve_from(pv.skip(p + 1), values@, k as int) {
                        Ok(s) => {
                            assert(o + (l@ + s) =~= (o + l@) + s);
                        },
                        Err(_) => {},
                    }
                }
            },
            TemplatePart::Placeholder(name) => {
                let v = if k < values.len() {
                    &values[k]
                } else {
                    &None
                };
                match v {
                    Some(x) => {
                        let ghost o = out@;
                        let ghost c0 = secrets.contents();
                        register_secret(secrets, x.as_str());
                        push_str(&mut out, x.as_str());
                        assert(prepend(
                            o,
                            prepend(x@, resolve_from(pv.skip(p + 1), values@, k + 1)),
                        ) == prepend(out@, resolve_from(pv.skip(p + 1), values@, k + 1))) by {
                            match resolve_from(pv.skip(p + 1), values@, k + 1) {
                                Ok(s) => {
                                    assert(o + (x@ + s) =~= (o + x@) + s);
                                },
                                Err(_) => {},
                            }
                        }
                        assert((seq![x@] + used_values(pv.skip(p + 1), values@, k + 1)).drop_first()
                            =~= used_values(pv.skip(p + 1), values@, k + 1));
                        k = k + 1;
                    },
                    None => {
                        assert(rest[0] == Segment::Var(name@));
                        assert(value_at(values@, k as int) is None);
                        assert(reg_all(secrets.contents(), Seq::<Seq<char>>::empty()) == secrets.contents());
                        assert(used_values(pv.skip(p as int), values@, k as int) =~= Seq::<
                            Seq<char>,
                        >::empty());
                        return Err(
                            ToolError::CredentialResolution {
                                server: string_of(server),
                                key: name.clone(),
                            },
                        );
                    },
                }
            },
        }
        p = p + 1;
    }
    assert(pv.skip(parts.len() as int) =~= Seq::<Segment>::empty());
    assert(out@ + Seq::<char>::empty() =~= out@);
    Ok(out)
}

/// The lookups of entry `i` (none beyond the end).
pub open spec fn entry_values(values: Seq<Vec<Option<String>>>, i: int) -> Seq<Option<String>> {
    if 0 <= i < values.len() {
        values[i]@
    } else {
        Seq::empty()
    }
}

/// Resolving a server's env entries in order: each value resolved, or the
/// key of the first placeholder without a value in the first failing entry.
pub open spec fn env_outcome(
    env: Seq<(String, String)>,
    values: Seq<Vec<Option<String>>>,
    i: int,
) -> Result<Seq<(Seq<char>, Seq<char>)>, Seq<char>>
    decreases env.len() - i,
{
    if i < 0 || i >= env.len() {
        Ok(Seq::empty())
    } else {
        match resolve_from(template(env[i].1@), entry_values(values, i), 0) {
            Err(key) => Err(key),
            Ok(v) => match env_outcome(env, values, i + 1) {
                Ok(rest) => Ok(seq![(env[i].0@, v)] + rest),
                Err(key) => Err(key),
            },
        }
    }
}

/// The secrets registered while resolving entries from `i` on.
pub open spec fn env_used(
    env: Seq<(String, String)>,
    values: Seq<Vec<Option<String>>>,
    i: int,
) -> Seq<Seq<char>>
    decreases env.len() - i,
{
    if i < 0 || i >= env.len() {
        Seq::empty()
    } else {
        let used = used_values(template(env[i].1@), entry_values(values, i), 0);
        match resolve_from(template(env[i].1@), entry_values(values, i), 0) {
            Err(_) => used,
            Ok(_) => used + env_used(env, values, i + 1),
        }
    }
}

/// Registering `a` then `b` is registering `a + b`.
pub proof fn lemma_reg_all_concat(c: Seq<Seq<char>>, a: Seq<Seq<char>>, b: Seq<Seq<char>>)
    ensures
        reg_all(reg_all(c, a), b) == reg_all(c, a + b),
    decreases a.len(),
{
    if a.len() > 0 {
        assert((a + b).drop_first() =~= a.drop_first() + b);
        lemma_reg_all_concat(reg(c, a[0]), a.drop_first(), b);
    } else {
        assert(a + b =~= b);
    }
}

/// Resolve every env entry of a server before it is spawned (fail closed):
/// either every placeholder of every entry has a value and the resolved
/// entries are returned in order, or the first failing entry's credential
/// error is returned and nothing is spawned. `values[i]` holds the lookups
/// of entry `i`'s placeholders.
pub fn resolve_server_env(
    secrets: &mut SecretSet,
    server: &str,
    env: &Vec<(String, String)>,
    values: &Vec<Vec<Option<String>>>,
) -> (r: Result<Vec<(String, String)>, ToolError>)
    ensures
        match env_outcome(env@, values@, 0) {
            Ok(entries) => r matches Ok(out) && out@.map_values(
                |e: (String, String)| (e.0@, e.1@),
            ) == entries,
            Err(key) => r matches Err(ToolError::CredentialResolution { server: sv, key: k })
                && sv@ == server@ && k@ == key,
        },
        final(secrets).contents() == reg_all(old(secrets).contents(), env_used(env@, values@, 0)),
{
    let ghost start = secrets.contents();
    let mut out: Vec<(String, String)> = Vec::new();
    let mut i: usize = 0;
    let empty: Vec<Option<String>> = Vec::new();
    while i < env.len()
        invariant
            i <= env.len(),
            empty@.len() == 0,
            start == old(secrets).contents(),
            env_outcome(env@, values@, 0) == match env_outcome(env@, values@, i as int) {
                Ok(rest) => Ok(out@.map_values(|e: (String, String)| (e.0@, e.1@)) + rest),
                Err(key) => Err(key),
            },
            reg_all(start, env_used(env@, values@, 0)) == reg_all(
                secrets.contents(),
                env_used(env@, values@, i as int),
            ),
        decreases env.len() - i,
    {
        let vals = if i < values.len() {
            &values[i]
        } else {
            &empty
        };
        assert(vals@ == entry_values(values@, i as int));
        let ghost c0 = secrets.contents();
        let res = resolve_env_value(secrets, server, env[i].1.as_str(), vals);
        let ghost used = used_values(template(env@[i as int].1@), entry_values(values@, i as int), 0);
        match res {
            Ok(v) => {
                let ghost before = out@.map_values(|e: (String, String)| (e.0@, e.1@));
                out.push((env[i].0.clone(), v));
                assert(out@.map_values(|e: (String, String)| (e.0@, e.1@)) =~= before.push(
                    (env@[i as int].0@, v@),
                ));
                proof {
                    lemma_reg_all_concat(c0, used, env_used(env@, values@, i + 1));
                    match env_outcome(env@, values@, i + 1) {
                        Ok(rest) => {
                            assert(before + (seq![(env@[i as int].0@, v@)] + rest) =~= before.push(
                                (env@[i as int].0@, v@),
                            ) + rest);
                        },
                        Err(_) => {},
                    }
                }
            },
            Err(e) => {
                return Err(e);
            },
        }
        i = i + 1;
    }
    assert(out@.map_values(|e: (String, String)| (e.0@, e.1@)) + Seq::<(Seq<char>, Seq<char>)>::empty()
        =~= out@.map_values(|e: (String, String)| (e.0@, e.1@)));
    Ok(out)
}

// ---------------------------------------------------------------------------
// Spawning a stdio upstream
// ---------------------------------------------------------------------------

/// How an upstream stdio child is started.
#[derive(Debug)]
pub struct SpawnPlan {
    /// The program: the configured `command`, empty when none is configured.
    pub program: String,
    /// The configured arguments, in order.
    pub args: Vec<String>,
    /// The resolved working directory, if one is configured.
    pub cwd: Option<String>,
    /// The child's whole environment: it starts empty and receives only
    /// these variables, the operating-system baseline first and then the
    /// server's own.
    pub env: Vec<(String, String)>,
    /// Whether stderr is piped into the server's log (else discarded).
    pub capture_stderr: bool,
}

/// Env entries taken as character sequences.
pub open spec fn env_views(v: Seq<(String, String)>) -> Seq<(Seq<char>, Seq<char>)> {
    v.map_values(|e: (String, String)| (e.0@, e.1@))
}

/// The values of env entries.
pub open spec fn env_values(v: Seq<(String, String)>) -> Seq<Seq<char>> {
    v.map_values(|e: (String, String)| e.1@)
}

/// The names of the operating-system variables that a Windows child cannot
/// work without (with no `SYSTEMROOT`, name resolution fails inside the
/// child). None of them carries a credential or an application setting.
pub open spec fn os_baseline_names() -> Seq<Seq<char>> {
    seq![
        "SYSTEMROOT"@,
        "SYSTEMDRIVE"@,
        "WINDIR"@,
        "COMSPEC"@,
        "PATHEXT"@,
        "TEMP"@,
        "TMP"@,
        "PROGRAMDATA"@,
        "NUMBER_OF_PROCESSORS"@,
    ]
}

/// Executable [`os_baseline_names`]: the variables a caller on Windows reads
/// from its own environment and hands to [`spawn_plan`].
pub fn os_baseline_keys() -> (r: Vec<String>)
    ensures
        crate::text::views(r@) == os_baseline_names(),
{
    let mut r: Vec<String> = Vec::new();
    r.push(string_of("SYSTEMROOT"));
    r.push(string_of("SYSTEMDRIVE"));
    r.push(string_of("WINDIR"));
    r.push(string_of("COMSPEC"));
    r.push(string_of("PATHEXT"));
    r.push(string_of("TEMP"));
    r.push(string_of("TMP"));
    r.push(string_of("PROGRAMDATA"));
    r.push(string_of("NUMBER_OF_PROCESSORS"));
    assert(crate::text::views(r@) =~= os_baseline_names());
    r
}

/// The baseline entries that reach the child: those named in
/// [`os_baseline_names`] that the server does not set itself (the server's
/// own value wins), in the order given.
pub open spec fn baseline_env(
    base: Seq<(Seq<char>, Seq<char>)>,
    server_env: Seq<(String, String)>,
) -> Seq<(Seq<char>, Seq<char>)>
    decreases base.len(),
{
    if base.len() == 0 {
        Seq::empty()
    } else {
        let e = base.last();
        let rest = baseline_env(base.drop_last(), server_env);
        if os_baseline_names().contains(e.0) && !crate::lookup::has_key(server_env, e.0) {
            rest.push(e)
        } else {
            rest
        }
    }
}

/// A name listed by `v` is one of its views.
proof fn lemma_lists_views(v: Seq<String>, k: Seq<char>)
    ensures
        crate::lookup::lists(v, k) <==> crate::text::views(v).contains(k),
{
    if crate::lookup::lists(v, k) {
        let j = choose|j: int| 0 <= j < v.len() && #[trigger] v[j]@ == k;
        assert(crate::text::views(v)[j] == k);
    }
    if crate::text::views(v).contains(k) {
        let j = choose|j: int| 0 <= j < crate::text::views(v).len() && crate::text::views(v)[j] == k;
        assert(v[j]@ == k);
    }
}

/// Plan the spawn of a stdio upstream from its configuration and its
/// already-resolved env and working directory. The child gets the
/// operating-system baseline that the caller read from its own environment
/// (on Windows; elsewhere the caller passes none), restricted to
/// [`os_baseline_names`], and then exactly this server's resolved variables,
/// which win over a baseline entry of the same name. Least privilege: no
/// sibling credentials and nothing else from the aggregator's own
/// environment. Every server value handed to the child is registered for
/// redaction first.
pub fn spawn_plan(
    secrets: &mut SecretSet,
    config: &crate::config::ServerConfig,
    baseline: &Vec<(String, String)>,
    resolved_env: &Vec<(String, String)>,
    resolved_cwd: Option<&str>,
) -> (r: SpawnPlan)
    ensures
        r.program@ == match config.command {
            Some(c) => c@,
            None => Seq::empty(),
        },
        crate::text::views(r.args@) == crate::text::views(config.args@),
        match r.cwd {
            Some(c) => resolved_cwd matches Some(d) && c@ == d@,
            None => resolved_cwd is None,
        },
        env_views(r.env@) == baseline_env(env_views(baseline@), resolved_env@) + env_views(
            resolved_env@,
        ),
        r.capture_stderr == config.log_file is Some,
        final(secrets).contents() == reg_all(old(secrets).contents(), env_values(resolved_env@)),
{
    let program = match &config.command {
        Some(c) => c.clone(),
        None => String::new(),
    };
    let mut args: Vec<String> = Vec::new();
    let mut i: usize = 0;
    while i < config.args.len()
        invariant
            i <= config.args.len(),
            crate::text::views(args@) == crate::text::views(config.args@).take(i as int),
        decreases config.args.len() - i,
    {
        let ghost before = crate::text::views(args@);
        args.push(config.args[i].clone());
        assert(crate::text::views(args@) =~= before.push(config.args@[i as int]@));
        assert(crate::text::views(config.args@).take(i + 1) =~= crate::text::views(
            config.args@,
        ).take(i as int).push(config.args@[i as int]@));
        i = i + 1;
    }
    assert(crate::text::views(config.args@).take(config.args.len() as int) =~= crate::text::views(
        config.args@,
    ));
    let names = os_baseline_keys();
    let mut env: Vec<(String, String)> = Vec::new();
    let mut b: usize = 0;
    while b < baseline.len()
        invariant
            b <= baseline.len(),
            crate::text::views(names@) == os_baseline_names(),
            env_views(env@) == baseline_env(env_views(baseline@).take(b as int), resolved_env@),
        decreases baseline.len() - b,
    {
        let ghost prefix = env_views(baseline@).take(b + 1);
        proof {
            assert(prefix.drop_last() =~= env_views(baseline@).take(b as int));
            assert(prefix.last() == (baseline@[b as int].0@, baseline@[b as int].1@));
            lemma_lists_views(names@, baseline@[b as int].0@);
        }
        let listed = crate::lookup::contains_str(&names, baseline[b].0.as_str());
        let overridden = crate::lookup::find_entry(resolved_env, baseline[b].0.as_str()).is_some();
        if listed && !overridden {
            env.push((baseline[b].0.clone(), baseline[b].1.clone()));
        }
        b = b + 1;
    }
    assert(env_views(baseline@).take(baseline.len() as int) =~= env_views(baseline@));
    let ghost kept = env_views(env@);
    let ghost start = secrets.contents();
    let mut j: usize = 0;
    while j < resolved_env.len()
        invariant
            j <= resolved_env.len(),
            env_views(env@) == kept + env_views(resolved_env@).take(j as int),
            secrets.contents() == reg_all(start, env_values(resolved_env@).take(j as int)),
        decreases resolved_env.len() - j,
    {
        let ghost c0 = secrets.contents();
        register_secret(secrets, resolved_env[j].1.as_str());
        proof {
            lemma_reg_all_concat(
                start,
                env_values(resolved_env@).take(j as int),
                seq![resolved_env@[j as int].1@],
            );
            assert(env_values(resolved_env@).take(j as int) + seq![resolved_env@[j as int].1@]
                =~= env_values(resolved_env@).take(j + 1));
            assert(seq![resolved_env@[j as int].1@].drop_first() =~= Seq::<Seq<char>>::empty());
            assert(reg_all(c0, seq![resolved_env@[j as int].1@]) == reg_all(
                reg(c0, resolved_env@[j as int].1@),
                Seq::<Seq<char>>::empty(),
            ));
        }
        let ghost before = env_views(env@);
        env.push((resolved_env[j].0.clone(), resolved_env[j].1.clone()));
        assert(env_views(env@) =~= before.push(
            (resolved_env@[j as int].0@, resolved_env@[j as int].1@),
        ));
        assert(env_views(resolved_env@).take(j + 1) =~= env_views(resolved_env@).take(
            j as int,
        ).push((resolved_env@[j as int].0@, resolved_env@[j as int].1@)));
        assert(kept + env_views(resolved_env@).take(j + 1) =~= (kept + env_views(
            resolved_env@,
        ).take(j as int)).push((resolved_env@[j as int].0@, resolved_env@[j as int].1@)));
        j = j + 1;
    }
    assert(env_views(resolved_env@).take(resolved_env.len() as int) =~= env_views(resolved_env@));
    assert(env_values(resolved_env@).take(resolved_env.len() as int) =~= env_values(
        resolved_env@,
    ));
    let cwd = match resolved_cwd {
        Some(d) => Some(string_of(d)),
        None => None,
    };
    SpawnPlan { program, args, cwd, env, capture_stderr: config.log_file.is_some() }
}

/// Process-tree containment retained alongside an upstream service.
#[derive(Debug)]
pub enum ContainmentGuard {
    /// Nothing to tear down when dropped: no process, or its id is unknown.
    Inert,
    /// A stdio child that leads its own session, so its process group id is
    /// its pid; dropping the guard kills the whole group.
    Unix { pgid: i32 },
}

impl ContainmentGuard {
    /// The guard of a spawned stdio child: its process group when its pid
    /// is known, inert otherwise.
    pub fn for_child(pid: Option<u32>) -> (r: Self)
        ensures
            match pid {
                Some(p) => r == (ContainmentGuard::Unix { pgid: p as i32 }),
                None => r == ContainmentGuard::Inert,
            },
    {
        match pid {
            Some(p) => ContainmentGuard::Unix { pgid: p as i32 },
            None => ContainmentGuard::Inert,
        }
    }

    /// The process group killed when the guard is dropped: only a positive
    /// group id is ever signalled.
    pub fn kill_target(&self) -> (r: Option<i32>)
        ensures
            r == match self {
                ContainmentGuard::Unix { pgid } => if *pgid > 0 {
                    Some(*pgid)
                } else {
                    None
                },
                ContainmentGuard::Inert => None,
            },
    {
        match self {
            ContainmentGuard::Unix { pgid } => if *pgid > 0 {
                Some(*pgid)
            } else {
                None
            },
            ContainmentGuard::Inert => None,
        }
    }
}

/// Where structured log records go: an append-only file whose writes are
/// redacted.
#[derive(Debug)]
pub struct RedactingFileMakeWriter {
    path: std::path::PathBuf,
}

impl RedactingFileMakeWriter {
    /// The log file this writer appends to.
    pub closed spec fn spec_path(&self) -> std::path::PathBuf {
        self.path
    }

    /// Creates a redacting writer factory for a structured log file.
    pub fn new(path: std::path::PathBuf) -> (r: Self)
        ensures
            r.spec_path() == path,
    {
        RedactingFileMakeWriter { path }
    }

    /// The log file this writer appends to.
    pub fn path(&self) -> (r: &std::path::PathBuf)
        ensures
            *r == self.spec_path(),
    {
        &self.path
    }
}

} // verus!
