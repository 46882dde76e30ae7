//! A JSON value model for the schemas the aggregator builds and relays.

use vstd::prelude::*;

use crate::server::{display_text, neutralize_upstream_display};
use crate::text::{str_eq, string_of};

verus! {

/// A JSON value; objects keep their member order.
#[derive(Debug)]
pub enum Json {
    Null,
    Bool(bool),
    /// A number, held as its JSON text.
    Number(String),
    Str(String),
    Array(Vec<Json>),
    Object(Vec<(String, Json)>),
}

/// The view of a [`Json`] value.
pub enum JsonView {
    Null,
    Bool(bool),
    Number(Seq<char>),
    Str(Seq<char>),
    Array(Seq<JsonView>),
    Object(Seq<(Seq<char>, JsonView)>),
}

impl Json {
    pub open spec fn view(&self) -> JsonView
        decreases self,
    {
        match self {
            Json::Null => JsonView::Null,
            Json::Bool(b) => JsonView::Bool(*b),
            Json::Number(n) => JsonView::Number(n@),
            Json::Str(s) => JsonView::Str(s@),
            Json::Array(vs) => JsonView::Array(
                Seq::new(
                    vs@.len(),
                    |i: int|
                        if 0 <= i < vs@.len() {
                            vs@[i].view()
                        } else {
                            JsonView::Null
                        },
                ),
            ),
            Json::Object(ms) => JsonView::Object(
                Seq::new(
                    ms@.len(),
                    |i: int|
                        if 0 <= i < ms@.len() {
                            (ms@[i].0@, ms@[i].1.view())
                        } else {
                            (Seq::empty(), JsonView::Null)
                        },
                ),
            ),
        }
    }
}

/// Upstream-authored annotation keys of a JSON Schema.
pub open spec fn is_metadata_key(k: Seq<char>) -> bool {
    k == "title"@ || k == "description"@ || k == "$comment"@ || k == "markdownDescription"@
}

/// A schema with the string values of annotation keys sanitized for
/// display; every other value (type, properties, required, enum, const,
/// default, examples, pattern, ...) and every key is kept verbatim.
pub open spec fn sanitize_schema(v: JsonView) -> JsonView
    decreases v,
{
    match v {
        JsonView::Object(ms) => JsonView::Object(
            Seq::new(
                ms.len(),
                |i: int|
                    if 0 <= i < ms.len() {
                        (
                            ms[i].0,
                            if is_metadata_key(ms[i].0) && ms[i].1 is Str {
                                JsonView::Str(display_text(ms[i].1->Str_0))
                            } else {
                                sanitize_schema(ms[i].1)
                            },
                        )
                    } else {
                        (Seq::empty(), JsonView::Null)
                    },
            ),
        ),
        JsonView::Array(vs) => JsonView::Array(
            Seq::new(
                vs.len(),
                |i: int|
                    if 0 <= i < vs.len() {
                        sanitize_schema(vs[i])
                    } else {
                        JsonView::Null
                    },
            ),
        ),
        other => other,
    }
}

/// Text fit for display: no control, bidirectional-override or invisible
/// formatting character, and no leading or trailing whitespace.
pub open spec fn clean_text(t: Seq<char>) -> bool {
    &&& forall|i: int| 0 <= i < t.len() ==> !crate::server::neutralized(#[trigger] t[i])
    &&& t.len() > 0 ==> !crate::text::is_white_space(t[0]) && !crate::text::is_white_space(t.last())
}

/// Whether every string held directly by a `title`, `description`,
/// `$comment` or `markdownDescription` key, anywhere in `v` (through objects
/// and arrays, at any depth), is clean display text.
pub open spec fn annotations_clean(v: JsonView) -> bool
    decreases v,
{
    match v {
        JsonView::Object(ms) => forall|i: int|
            0 <= i < ms.len() ==> {
                &&& ((ms[i].0 == "title"@ || ms[i].0 == "description"@ || ms[i].0 == "$comment"@
                    || ms[i].0 == "markdownDescription"@) && ms[i].1 is Str ==> clean_text(
                    ms[i].1->Str_0,
                ))
                &&& annotations_clean(#[trigger] ms[i].1)
            },
        JsonView::Array(vs) => forall|i: int| 0 <= i < vs.len() ==> annotations_clean(#[trigger] vs[i]),
        _ => true,
    }
}

/// Sanitizing a schema leaves no unclean annotation string anywhere in it:
/// every string value of an annotation key, at any depth through objects
/// and arrays, is free of neutralized characters and trimmed.
pub proof fn law_sanitized_annotations_clean(v: JsonView)
    ensures
        annotations_clean(sanitize_schema(v)),
    decreases v,
{
    match v {
        JsonView::Object(ms) => {
            let r = sanitize_schema(v);
            if let JsonView::Object(rs) = r {
                assert forall|i: int| 0 <= i < rs.len() implies {
                    &&& ((rs[i].0 == "title"@ || rs[i].0 == "description"@ || rs[i].0 == "$comment"@
                        || rs[i].0 == "markdownDescription"@) && rs[i].1 is Str ==> clean_text(
                        rs[i].1->Str_0,
                    ))
                    &&& annotations_clean(#[trigger] rs[i].1)
                } by {
                    if is_metadata_key(ms[i].0) && ms[i].1 is Str {
                        crate::laws::law_display_text_is_clean(ms[i].1->Str_0);
                    } else {
                        law_sanitized_annotations_clean(ms[i].1);
                        if ms[i].1 !is Str {
                            assert(sanitize_schema(ms[i].1) !is Str);
                        }
                    }
                }
            }
        },
        JsonView::Array(vs) => {
            let r = sanitize_schema(v);
            if let JsonView::Array(rs) = r {
                assert forall|i: int| 0 <= i < rs.len() implies annotations_clean(#[trigger] rs[i]) by {
                    law_sanitized_annotations_clean(vs[i]);
                }
            }
        },
        _ => {},
    }
}

/// Whether a key is an upstream-authored schema annotation.
pub fn is_schema_metadata_key(k: &str) -> (r: bool)
    ensures
        r == is_metadata_key(k@),
{
    str_eq(k, "title") || str_eq(k, "description") || str_eq(k, "$comment") || str_eq(
        k,
        "markdownDescription",
    )
}

/// A copy of a JSON value.
#[verifier::loop_isolation(false)]
pub fn copy_json(v: &Json) -> (r: Json)
    ensures
        r.view() == v.view(),
    decreases v,
{
    match v {
        Json::Null => Json::Null,
        Json::Bool(b) => Json::Bool(*b),
        Json::Number(n) => Json::Number(n.clone()),
        Json::Str(s) => Json::Str(s.clone()),
        Json::Array(vs) => {
            let mut out: Vec<Json> = Vec::new();
            let mut i: usize = 0;
            while i < vs.len()
                invariant
                    i <= vs.len(),
                    out@.len() == i,
                    forall|j: int| 0 <= j < i ==> (#[trigger] out@[j]).view() == vs@[j].view(),
                decreases vs.len() - i,
            {
                out.push(copy_json(&vs[i]));
                i = i + 1;
            }
            let r = Json::Array(out);
            assert(r.view() == v.view()) by {
                if let JsonView::Array(a) = r.view() {
                    if let JsonView::Array(b) = v.view() {
                        assert(a =~= b);
                    }
                }
            }
            r
        },
        Json::Object(ms) => {
            let mut out: Vec<(String, Json)> = Vec::new();
            let mut i: usize = 0;
            while i < ms.len()
                invariant
                    i <= ms.len(),
                    out@.len() == i,
                    forall|j: int|
                        0 <= j < i ==> (#[trigger] out@[j]).0@ == ms@[j].0@ && out@[j].1.view()
                            == ms@[j].1.view(),
                decreases ms.len() - i,
            {
                out.push((ms[i].0.clone(), copy_json(&ms[i].1)));
                i = i + 1;
            }
            let r = Json::Object(out);
            assert(r.view() == v.view()) by {
                if let JsonView::Object(a) = r.view() {
                    if let JsonView::Object(b) = v.view() {
                        assert(a =~= b);
                    }
                }
            }
            r
        },
    }
}

/// Recursively sanitize the string values of annotation keys
/// (`title`, `description`, `$comment`, `markdownDescription`) while
/// preserving the JSON structure required by JSON Schema consumers.
#[verifier::loop_isolation(false)]
pub fn sanitize_schema_metadata(v: &Json) -> (r: Json)
    ensures
        r.view() == sanitize_schema(v.view()),
        annotations_clean(r.view()),
    decreases v, 0nat,
{
    proof {
        law_sanitized_annotations_clean(v.view());
    }
    match v {
        Json::Object(ms) => {
            let mut out: Vec<(String, Json)> = Vec::new();
            let mut i: usize = 0;
            while i < ms.len()
                invariant
                    i <= ms.len(),
                    out@.len() == i,
                    forall|j: int|
                        0 <= j < i ==> (#[trigger] out@[j]).0@ == ms@[j].0@ && out@[j].1.view() == (
                        if is_metadata_key(ms@[j].0@) && ms@[j].1.view() is Str {
                            JsonView::Str(display_text(ms@[j].1.view()->Str_0))
                        } else {
                            sanitize_schema(ms@[j].1.view())
                        }),
                decreases ms.len() - i,
            {
                let key = &ms[i].0;
                let val = &ms[i].1;
                let sanitized = if is_schema_metadata_key(key.as_str()) {
                    sanitize_metadata_value(val)
                } else {
                    sanitize_schema_metadata(val)
                };
                out.push((key.clone(), sanitized));
                i = i + 1;
            }
            let r = Json::Object(out);
            assert(r.view() == sanitize_schema(v.view())) by {
                if let JsonView::Object(a) = r.view() {
                    if let JsonView::Object(b) = sanitize_schema(v.view()) {
                        assert(a =~= b);
                    }
                }
            }
            r
        },
        Json::Array(vs) => {
            let mut out: Vec<Json> = Vec::new();
            let mut i: usize = 0;
            while i < vs.len()
                invariant
                    i <= vs.len(),
                    out@.len() == i,
                    forall|j: int|
                        0 <= j < i ==> (#[trigger] out@[j]).view() == sanitize_schema(
                            vs@[j].view(),
                        ),
                decreases vs.len() - i,
            {
                out.push(sanitize_schema_metadata(&vs[i]));
                i = i + 1;
            }
            let r = Json::Array(out);
            assert(r.view() == sanitize_schema(v.view())) by {
                if let JsonView::Array(a) = r.view() {
                    if let JsonView::Array(b) = sanitize_schema(v.view()) {
                        assert(a =~= b);
                    }
                }
            }
            r
        },
        _ => copy_json(v),
    }
}

/// Sanitize the value of an annotation key: a string becomes display text;
/// anything else is sanitized as a schema.
pub fn sanitize_metadata_value(v: &Json) -> (r: Json)
    ensures
        r.view() == (if v.view() is Str {
            JsonView::Str(display_text(v.view()->Str_0))
        } else {
            sanitize_schema(v.view())
        }),
    decreases v, 1nat,
{
    match v {
        Json::Str(s) => Json::Str(neutralize_upstream_display(s.as_str())),
        _ => sanitize_schema_metadata(v),
    }
}

/// Object members taken as views.
pub open spec fn member_views(m: Seq<(String, Json)>) -> Seq<(Seq<char>, JsonView)> {
    m.map_values(|e: (String, Json)| (e.0@, e.1.view()))
}

/// The view of an object is the views of its members.
pub proof fn lemma_object_view(m: Vec<(String, Json)>)
    ensures
        Json::Object(m).view() == JsonView::Object(member_views(m@)),
{
    if let JsonView::Object(a) = Json::Object(m).view() {
        assert(a =~= member_views(m@));
    }
}

/// Appends a string-valued member `key: value` to an object's members.
pub fn push_str_member(m: &mut Vec<(String, Json)>, key: &str, value: &str)
    ensures
        member_views(final(m)@) == member_views(old(m)@).push((key@, JsonView::Str(value@))),
{
    let v = Json::Str(string_of(value));
    assert(v.view() == JsonView::Str(value@));
    m.push((string_of(key), v));
    assert(member_views(m@) =~= member_views(old(m)@).push((key@, JsonView::Str(value@))));
}

} // verus!
