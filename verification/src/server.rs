//! Downstream server decisions: `server__tool` name parsing, display
//! sanitization of upstream-authored text, the advertised table of contents
//! and the three meta-tools with their input schemas.

use vstd::prelude::*;
use vstd::string::StrSliceExecFns;

use crate::json::{Json, JsonView};
use crate::text::{push_str, str_chars, string_from_chars, string_of, trim, trim_chars};

verus! {

// ---------------------------------------------------------------------------
// `server__tool` names
// ---------------------------------------------------------------------------

/// Whether `s` holds the delimiter `__` at index `i`.
pub open spec fn sep_at(s: Seq<char>, i: int) -> bool {
    0 <= i && i + 1 < s.len() && s[i] == '_' && s[i + 1] == '_'
}

/// Whether `i` is the first index of the delimiter `__` in `s`.
pub open spec fn first_sep(s: Seq<char>, i: int) -> bool {
    sep_at(s, i) && forall|j: int| 0 <= j < i ==> !#[trigger] sep_at(s, j)
}

/// The `(server, tool)` split of a name at its first `__`, when both parts
/// are non-empty.
pub open spec fn spec_parse_server_tool(s: Seq<char>) -> Option<(Seq<char>, Seq<char>)> {
    if exists|i: int| first_sep(s, i) {
        let i = choose|i: int| first_sep(s, i);
        if i == 0 || i + 2 == s.len() {
            None
        } else {
            Some((s.take(i), s.skip(i + 2)))
        }
    } else {
        None
    }
}

/// The first delimiter index of a name is unique.
pub proof fn lemma_first_sep_unique(s: Seq<char>, i: int)
    requires
        first_sep(s, i),
    ensures
        (choose|k: int| first_sep(s, k)) == i,
{
    let k = choose|k: int| first_sep(s, k);
    assert(first_sep(s, k));
    if k < i {
        assert(!sep_at(s, k));
    }
    if k > i {
        assert(!sep_at(s, i));
    }
}

/// Split `server__tool` on the first `__`; both parts must be non-empty.
pub fn parse_server_tool(name: &str) -> (r: Option<(&str, &str)>)
    ensures
        match r {
            Some((server, tool)) => spec_parse_server_tool(name@) == Some((server@, tool@)),
            None => spec_parse_server_tool(name@) is None,
        },
{
    let cs = str_chars(name);
    let n = cs.len();
    let mut i: usize = 0;
    while n > 0 && i < n - 1
        invariant
            cs@ == name@,
            n == cs.len(),
            i <= n,
            forall|j: int| 0 <= j < i ==> !#[trigger] sep_at(name@, j),
        decreases n - i,
    {
        if cs[i] == '_' && cs[i + 1] == '_' {
            proof {
                assert(first_sep(name@, i as int));
                lemma_first_sep_unique(name@, i as int);
            }
            if i == 0 || i + 2 == n {
                return None;
            }
            let server = name.substring_char(0, i);
            let tool = name.substring_char(i + 2, n);
            assert(name@.subrange(0, i as int) =~= name@.take(i as int));
            assert(name@.subrange(i + 2, n as int) =~= name@.skip(i + 2));
            return Some((server, tool));
        }
        i = i + 1;
    }
    proof {
        assert forall|k: int| !first_sep(name@, k) by {
            if first_sep(name@, k) {
                assert(sep_at(name@, k));
            }
        }
    }
    None
}

// ---------------------------------------------------------------------------
// Display sanitization of upstream-authored text
// ---------------------------------------------------------------------------

/// Characters replaced by a space before display: C0 and C1 controls, DEL,
/// zero-width space/joiners, line/paragraph separators, bidi embeddings,
/// overrides and isolates, and the BOM.
pub open spec fn neutralized(c: char) -> bool {
    let u = c as u32;
    u <= 0x1F || u == 0x7F || (0x80 <= u && u <= 0x9F) || (0x200B <= u && u <= 0x200D) || (0x2028
        <= u && u <= 0x2029) || (0x202A <= u && u <= 0x202E) || (0x2066 <= u && u <= 0x2069) || u
        == 0xFEFF
}

/// `s` with every neutralized character replaced by a space.
pub open spec fn neutralize_chars(s: Seq<char>) -> Seq<char> {
    s.map_values(|c: char| if neutralized(c) { ' ' } else { c })
}

/// Display text: neutralized, then trimmed to its inner content.
pub open spec fn display_text(s: Seq<char>) -> Seq<char> {
    trim(neutralize_chars(s))
}

/// At most the first `n` characters of `s`.
pub open spec fn take_at_most(s: Seq<char>, n: nat) -> Seq<char> {
    if s.len() <= n {
        s
    } else {
        s.take(n as int)
    }
}

/// A `list_tools` row description: display text capped at 100 characters.
pub open spec fn row_description(s: Seq<char>) -> Seq<char> {
    take_at_most(display_text(s), 100)
}

/// An upstream identifier for display: display text capped at 200 characters.
pub open spec fn display_identifier(s: Seq<char>) -> Seq<char> {
    take_at_most(display_text(s), 200)
}

/// Whether a character is replaced by a space before display.
pub fn should_neutralize_upstream_char(c: char) -> (r: bool)
    ensures
        r == neutralized(c),
{
    let u = c as u32;
    u <= 0x1F || u == 0x7F || (0x80 <= u && u <= 0x9F) || (0x200B <= u && u <= 0x200D) || (0x2028
        <= u && u <= 0x2029) || (0x202A <= u && u <= 0x202E) || (0x2066 <= u && u <= 0x2069) || u
        == 0xFEFF
}

fn neutralized_trimmed_chars(s: &str) -> (out: Vec<char>)
    ensures
        out@ == display_text(s@),
{
    let cs = str_chars(s);
    let mut mapped: Vec<char> = Vec::new();
    let mut i: usize = 0;
    while i < cs.len()
        invariant
            cs@ == s@,
            i <= cs.len(),
            mapped@ == neutralize_chars(cs@.take(i as int)),
        decreases cs.len() - i,
    {
        let c = cs[i];
        if should_neutralize_upstream_char(c) {
            mapped.push(' ');
        } else {
            mapped.push(c);
        }
        assert(neutralize_chars(cs@.take(i + 1)) =~= neutralize_chars(cs@.take(i as int)).push(
            if neutralized(c) {
                ' '
            } else {
                c
            },
        ));
        i = i + 1;
    }
    assert(cs@.take(cs.len() as int) =~= cs@);
    trim_chars(&mapped)
}

fn take_chars(cs: &Vec<char>, n: usize) -> (out: Vec<char>)
    ensures
        out@ == take_at_most(cs@, n as nat),
{
    let mut out: Vec<char> = Vec::new();
    let mut i: usize = 0;
    while i < cs.len() && i < n
        invariant
            i <= cs.len(),
            i <= n,
            out@ == cs@.take(i as int),
        decreases cs.len() - i,
    {
        out.push(cs[i]);
        assert(cs@.take(i + 1) == cs@.take(i as int).push(cs@[i as int]));
        i = i + 1;
    }
    if i == cs.len() {
        assert(cs@.take(cs.len() as int) =~= cs@);
    }
    out
}

/// Sanitize upstream-authored display text: replace neutralized characters
/// with a space, then trim. No length cap.
pub fn neutralize_upstream_display(s: &str) -> (r: String)
    ensures
        r@ == display_text(s@),
{
    string_from_chars(&neutralized_trimmed_chars(s))
}

/// Sanitize a `list_tools` row description: display text capped at 100
/// characters (the cap is a row control only).
pub fn sanitize_list_row_description(s: &str) -> (r: String)
    ensures
        r@ == row_description(s@),
{
    string_from_chars(&take_chars(&neutralized_trimmed_chars(s), 100))
}

/// Sanitize an upstream identifier for display: display text capped at 200
/// characters.
pub fn sanitize_upstream_identifier(s: &str) -> (r: String)
    ensures
        r@ == display_identifier(s@),
{
    string_from_chars(&take_chars(&neutralized_trimmed_chars(s), 200))
}

// ---------------------------------------------------------------------------
// The three meta-tools
// ---------------------------------------------------------------------------

/// Server name advertised to clients.
pub const SERVER_NAME: &'static str = "fanin-mcp";

/// The static description of `list_tools`.
pub const LIST_TOOLS_DESC: &'static str = "Lists the tools available through this aggregator, grouped by server, with one-line descriptions. Call this once to see what's connected; pass server to fetch a single server's tools.";

/// The static description of `get_tool_schema`.
pub const GET_TOOL_SCHEMA_DESC: &'static str = "Get the full input schema for a tool. Format: server__tool (e.g. postgres__query).";

/// The static description of `invoke_tool`.
pub const INVOKE_TOOL_DESC: &'static str = "Call a tool by server__tool name with arguments.";

/// Behaviour hints of a tool (`title` is not used).
#[derive(Debug, Clone, Copy)]
pub struct ToolHints {
    pub read_only: Option<bool>,
    pub destructive: Option<bool>,
    pub idempotent: Option<bool>,
    pub open_world: Option<bool>,
}

/// A meta-tool as advertised by `tools/list`.
#[derive(Debug)]
pub struct MetaTool {
    pub name: &'static str,
    pub description: String,
    pub input_schema: Json,
    pub annotations: Option<ToolHints>,
}

/// `{"type": <t>}`.
pub open spec fn type_schema(t: Seq<char>) -> JsonView {
    JsonView::Object(seq![("type"@, JsonView::Str(t))])
}

/// An object schema with string properties `props`, all required or none.
pub open spec fn string_object_schema_view(props: Seq<Seq<char>>, required: bool) -> JsonView {
    let base = seq![
        ("type"@, JsonView::Str("object"@)),
        ("properties"@, JsonView::Object(props.map_values(|p: Seq<char>| (p, type_schema("string"@))))),
    ];
    if required {
        JsonView::Object(
            base.push(("required"@, JsonView::Array(props.map_values(|p: Seq<char>| JsonView::Str(p))))),
        )
    } else {
        JsonView::Object(base)
    }
}

/// The input schema of `invoke_tool`.
pub open spec fn invoke_schema_view() -> JsonView {
    JsonView::Object(
        seq![
            ("type"@, JsonView::Str("object"@)),
            (
                "properties"@,
                JsonView::Object(
                    seq![("name"@, type_schema("string"@)), ("arguments"@, type_schema("object"@))],
                ),
            ),
            ("required"@, JsonView::Array(seq![JsonView::Str("name"@), JsonView::Str("arguments"@)])),
        ],
    )
}

fn type_schema_json(t: &str) -> (r: Json)
    ensures
        r.view() == type_schema(t@),
{
    let mut m: Vec<(String, Json)> = Vec::new();
    m.push((string_of("type"), Json::Str(string_of(t))));
    assert(m@[0].1.view() == JsonView::Str(t@));
    let r = Json::Object(m);
    assert(r.view() == type_schema(t@)) by {
        if let JsonView::Object(a) = r.view() {
            assert(a[0] == ("type"@, JsonView::Str(t@)));
            assert(a =~= seq![("type"@, JsonView::Str(t@))]);
        }
    }
    r
}

/// Build an object schema whose properties are strings, all required or none.
pub fn string_object_schema(props: &Vec<&str>, required: bool) -> (r: Json)
    ensures
        r.view() == string_object_schema_view(props@.map_values(|p: &str| p@), required),
{
    let ghost pv = props@.map_values(|p: &str| p@);
    let mut properties: Vec<(String, Json)> = Vec::new();
    let mut req: Vec<Json> = Vec::new();
    let mut i: usize = 0;
    while i < props.len()
        invariant
            i <= props.len(),
            pv == props@.map_values(|p: &str| p@),
            properties@.len() == i,
            req@.len() == i,
            forall|j: int|
                0 <= j < i ==> (#[trigger] properties@[j]).0@ == pv[j] && properties@[j].1.view()
                    == type_schema("string"@),
            forall|j: int| 0 <= j < i ==> (#[trigger] req@[j]).view() == JsonView::Str(pv[j]),
        decreases props.len() - i,
    {
        properties.push((string_of(props[i]), type_schema_json("string")));
        req.push(Json::Str(string_of(props[i])));
        i = i + 1;
    }
    let props_json = Json::Object(properties);
    assert(props_json.view() == JsonView::Object(
        pv.map_values(|p: Seq<char>| (p, type_schema("string"@))),
    )) by {
        if let JsonView::Object(a) = props_json.view() {
            assert(a =~= pv.map_values(|p: Seq<char>| (p, type_schema("string"@))));
        }
    }
    let req_json = Json::Array(req);
    assert(req_json.view() == JsonView::Array(pv.map_values(|p: Seq<char>| JsonView::Str(p)))) by {
        if let JsonView::Array(a) = req_json.view() {
            assert(a =~= pv.map_values(|p: Seq<char>| JsonView::Str(p)));
        }
    }
    let mut schema: Vec<(String, Json)> = Vec::new();
    schema.push((string_of("type"), Json::Str(string_of("object"))));
    schema.push((string_of("properties"), props_json));
    if required {
        schema.push((string_of("required"), req_json));
    }
    assert(schema@[0].1.view() == JsonView::Str("object"@));
    let r = Json::Object(schema);
    assert(r.view() == string_object_schema_view(pv, required)) by {
        if let JsonView::Object(a) = r.view() {
            if let JsonView::Object(b) = string_object_schema_view(pv, required) {
                assert(a.len() == b.len());
                assert(a[0] == b[0]);
                assert(a[1] == b[1]);
                assert(required ==> a[2] == b[2]);
                assert(a =~= b);
            }
        }
    }
    r
}

/// An object schema with optional string properties.
pub fn optional_string_object_schema(props: &Vec<&str>) -> (r: Json)
    ensures
        r.view() == string_object_schema_view(props@.map_values(|p: &str| p@), false),
{
    string_object_schema(props, false)
}

/// An object schema with required string properties.
pub fn required_string_object_schema(props: &Vec<&str>) -> (r: Json)
    ensures
        r.view() == string_object_schema_view(props@.map_values(|p: &str| p@), true),
{
    string_object_schema(props, true)
}

/// The description of `list_tools`: the static text, then the table of
/// contents when one is configured.
pub open spec fn list_tools_description(toc: Option<Seq<char>>) -> Seq<char> {
    match toc {
        Some(t) => LIST_TOOLS_DESC@ + t,
        None => LIST_TOOLS_DESC@,
    }
}

/// `list_tools` — optional `server` string filter.
pub fn list_tools_tool(toc: Option<&str>) -> (r: MetaTool)
    ensures
        r.name@ == "list_tools"@,
        r.description@ == list_tools_description(
            match toc {
                Some(t) => Some(t@),
                None => None,
            },
        ),
        r.input_schema.view() == string_object_schema_view(seq!["server"@], false),
        r.annotations is None,
{
    let mut description = string_of(LIST_TOOLS_DESC);
    match toc {
        Some(t) => push_str(&mut description, t),
        None => {},
    }
    let mut props: Vec<&str> = Vec::new();
    props.push("server");
    assert(props@.map_values(|p: &str| p@) =~= seq!["server"@]);
    MetaTool {
        name: "list_tools",
        description,
        input_schema: optional_string_object_schema(&props),
        annotations: None,
    }
}

/// `get_tool_schema` — required `name` string.
pub fn get_tool_schema_tool() -> (r: MetaTool)
    ensures
        r.name@ == "get_tool_schema"@,
        r.description@ == GET_TOOL_SCHEMA_DESC@,
        r.input_schema.view() == string_object_schema_view(seq!["name"@], true),
        r.annotations is None,
{
    let mut props: Vec<&str> = Vec::new();
    props.push("name");
    assert(props@.map_values(|p: &str| p@) =~= seq!["name"@]);
    MetaTool {
        name: "get_tool_schema",
        description: string_of(GET_TOOL_SCHEMA_DESC),
        input_schema: required_string_object_schema(&props),
        annotations: None,
    }
}

/// `invoke_tool` — required `name` string and `arguments` object, with the
/// conservative annotations: not read-only, destructive, open-world.
pub fn invoke_tool_tool() -> (r: MetaTool)
    ensures
        r.name@ == "invoke_tool"@,
        r.description@ == INVOKE_TOOL_DESC@,
        r.input_schema.view() == invoke_schema_view(),
        r.annotations == Some(
            ToolHints {
                read_only: Some(false),
                destructive: Some(true),
                idempotent: None,
                open_world: Some(true),
            },
        ),
{
    let mut props: Vec<(String, Json)> = Vec::new();
    props.push((string_of("name"), type_schema_json("string")));
    props.push((string_of("arguments"), type_schema_json("object")));
    let props_json = Json::Object(props);
    assert(props_json.view() == JsonView::Object(
        seq![("name"@, type_schema("string"@)), ("arguments"@, type_schema("object"@))],
    )) by {
        if let JsonView::Object(a) = props_json.view() {
            assert(a =~= seq![("name"@, type_schema("string"@)), ("arguments"@, type_schema("object"@))]);
        }
    }
    let mut req: Vec<Json> = Vec::new();
    req.push(Json::Str(string_of("name")));
    req.push(Json::Str(string_of("arguments")));
    assert(req@[0].view() == JsonView::Str("name"@));
    assert(req@[1].view() == JsonView::Str("arguments"@));
    let req_json = Json::Array(req);
    assert(req_json.view() == JsonView::Array(seq![JsonView::Str("name"@), JsonView::Str("arguments"@)])) by {
        if let JsonView::Array(a) = req_json.view() {
            assert(a =~= seq![JsonView::Str("name"@), JsonView::Str("arguments"@)]);
        }
    }
    let mut schema: Vec<(String, Json)> = Vec::new();
    schema.push((string_of("type"), Json::Str(string_of("object"))));
    schema.push((string_of("properties"), props_json));
    schema.push((string_of("required"), req_json));
    assert(schema@[0].1.view() == JsonView::Str("object"@));
    let r = Json::Object(schema);
    assert(r.view() == invoke_schema_view()) by {
        if let JsonView::Object(a) = r.view() {
            if let JsonView::Object(b) = invoke_schema_view() {
                assert(a[0] == b[0]);
                assert(a[1] == b[1]);
                assert(a[2] == b[2]);
                assert(a =~= b);
            }
        }
    }
    MetaTool {
        name: "invoke_tool",
        description: string_of(INVOKE_TOOL_DESC),
        input_schema: r,
        annotations: Some(
            ToolHints {
                read_only: Some(false),
                destructive: Some(true),
                idempotent: None,
                open_world: Some(true),
            },
        ),
    }
}

/// The three meta-tools, in order `list_tools`, `get_tool_schema`,
/// `invoke_tool`; only `list_tools` carries the table of contents.
pub fn meta_tools(toc: Option<&str>) -> (r: Vec<MetaTool>)
    ensures
        r@.len() == 3,
        r@[0].name@ == "list_tools"@,
        r@[0].description@ == list_tools_description(
            match toc {
                Some(t) => Some(t@),
                None => None,
            },
        ),
        r@[0].input_schema.view() == string_object_schema_view(seq!["server"@], false),
        r@[0].annotations is None,
        r@[1].name@ == "get_tool_schema"@,
        r@[1].description@ == GET_TOOL_SCHEMA_DESC@,
        r@[1].input_schema.view() == string_object_schema_view(seq!["name"@], true),
        r@[1].annotations is None,
        r@[2].name@ == "invoke_tool"@,
        r@[2].description@ == INVOKE_TOOL_DESC@,
        r@[2].input_schema.view() == invoke_schema_view(),
        r@[2].annotations == Some(
            ToolHints {
                read_only: Some(false),
                destructive: Some(true),
                idempotent: None,
                open_world: Some(true),
            },
        ),
{
    let mut v = Vec::new();
    v.push(list_tools_tool(toc));
    v.push(get_tool_schema_tool());
    v.push(invoke_tool_tool());
    v
}

} // verus!
