use vstd::prelude::*;

use crate::json::{field, opt_field, str_field, take_member, Json};
use crate::types::completion::{CompleteRequest, CompletionArgument, CompletionReference};
use crate::types::ClientInfo;

verus! {

/// The text of `s` when it is a string.
pub open spec fn text_value(s: Option<Json>) -> Option<Seq<char>> {
    match s {
        Some(Json::Str(t)) => Some(t@),
        _ => None,
    }
}

/// The cursor of a list request: absent parameters or an absent (or null) cursor give
/// `Ok(None)`; parameters that are not an object, or a cursor that is not a string, are
/// invalid.
pub open spec fn cursor_param(params: Option<Json>) -> Result<Option<Seq<char>>, ()> {
    match params {
        None => Ok(None),
        Some(p) => match p {
            Json::Object(_) => match opt_field(p, "cursor"@) {
                None => Ok(None),
                Some(Json::Str(c)) => Ok(Some(c@)),
                _ => Err(()),
            },
            _ => Err(()),
        },
    }
}

/// The `uri` of a resource request.
pub open spec fn uri_param(params: Option<Json>) -> Option<Seq<char>> {
    match params {
        Some(p) => str_field(p, "uri"@),
        None => None,
    }
}

/// The cursor of a list request.
pub fn cursor_of(params: &Option<Json>) -> (r: Result<Option<String>, ()>)
    ensures
        r matches Ok(Some(c)) ==> cursor_param(*params) == Ok::<Option<Seq<char>>, ()>(Some(c@)),
        r matches Ok(None) ==> cursor_param(*params) == Ok::<Option<Seq<char>>, ()>(None),
        r is Err ==> cursor_param(*params) is Err,
{
    match params {
        None => Ok(None),
        Some(p) => match p {
            Json::Object(_) => match p.get_opt("cursor") {
                None => Ok(None),
                Some(Json::Str(c)) => Ok(Some(c.clone())),
                _ => Err(()),
            },
            _ => Err(()),
        },
    }
}

/// The `uri` of a resource request.
pub fn uri_of(params: &Option<Json>) -> (r: Option<String>)
    ensures
        r matches Some(u) ==> uri_param(*params) == Some(u@),
        r is None ==> uri_param(*params) is None,
{
    match params {
        Some(p) => match p.get_str("uri") {
            Some(u) => Some(u.clone()),
            None => None,
        },
        None => None,
    }
}

/// The `name` and `arguments` of a `tools/call` request; both must be present, the name a
/// string.
pub open spec fn tool_call_param(params: Option<Json>) -> Option<(Seq<char>, Json)> {
    match params {
        Some(p) => match (str_field(p, "name"@), field(p, "arguments"@)) {
            (Some(n), Some(a)) => Some((n, a)),
            _ => None,
        },
        None => None,
    }
}

/// The `name` and `arguments` of a `tools/call` request.
pub fn tool_call_of(params: Option<Json>) -> (r: Option<(String, Json)>)
    ensures
        r matches Some(x) ==> tool_call_param(params) == Some((x.0@, x.1)),
        r is None ==> tool_call_param(params) is None,
{
    proof {
        lemma_names_distinct();
    }
    match params {
        Some(Json::Object(mut es)) => {
            let name = take_member(&mut es, "name");
            let arguments = take_member(&mut es, "arguments");
            match (name, arguments) {
                (Some(Json::Str(n)), Some(a)) => Some((n, a)),
                _ => None,
            }
        },
        _ => None,
    }
}

/// String values of the members `es`, in order, when every member holds a string.
pub open spec fn string_members(es: Seq<(String, Json)>) -> Option<Seq<(Seq<char>, Seq<char>)>>
    decreases es.len(),
{
    if es.len() == 0 {
        Some(Seq::empty())
    } else {
        match (es.last().1, string_members(es.drop_last())) {
            (Json::Str(v), Some(rest)) => Some(rest.push((es.last().0@, v@))),
            _ => None,
        }
    }
}

/// The name-to-value pairs of an object of strings.
pub open spec fn pairs_view(pairs: Seq<(String, String)>) -> Seq<(Seq<char>, Seq<char>)> {
    Seq::new(pairs.len(), |i: int| (pairs[i].0@, pairs[i].1@))
}

/// The `name` and optional string `arguments` of a `prompts/get` request.
pub open spec fn prompt_get_param(params: Option<Json>) -> Option<
    (Seq<char>, Option<Seq<(Seq<char>, Seq<char>)>>),
> {
    match params {
        Some(p) => match (str_field(p, "name"@), opt_field(p, "arguments"@)) {
            (Some(n), None) => Some((n, None)),
            (Some(n), Some(Json::Object(es))) => match string_members(es@) {
                Some(args) => Some((n, Some(args))),
                None => None,
            },
            _ => None,
        },
        None => None,
    }
}

/// The members of an object whose values are all strings.
pub fn string_pairs(es: &Vec<(String, Json)>) -> (r: Option<Vec<(String, String)>>)
    ensures
        r matches Some(v) ==> string_members(es@) == Some(pairs_view(v@)),
        r is None ==> string_members(es@) is None,
{
    let mut out: Vec<(String, String)> = Vec::new();
    let mut i: usize = 0;
    while i < es.len()
        invariant
            i <= es@.len(),
            string_members(es@.subrange(0, i as int)) == Some(pairs_view(out@)),
        decreases es@.len() - i,
    {
        let ghost pre = es@.subrange(0, i as int + 1);
        assert(pre.drop_last() =~= es@.subrange(0, i as int));
        match &es[i].1 {
            Json::Str(v) => {
                out.push((es[i].0.clone(), v.clone()));
                assert(pairs_view(out@) =~= pairs_view(out@.drop_last()).push((es@[i as int].0@, v@)));
            },
            _ => {
                proof {
                    lemma_string_members_prefix(es@, i as int + 1);
                }
                return None;
            },
        }
        i = i + 1;
    }
    assert(es@.subrange(0, i as int) =~= es@);
    Some(out)
}

/// A prefix that is not all strings keeps the whole from being all strings.
proof fn lemma_string_members_prefix(es: Seq<(String, Json)>, n: int)
    requires
        0 <= n <= es.len(),
        string_members(es.subrange(0, n)) is None,
    ensures
        string_members(es) is None,
    decreases es.len() - n,
{
    if n < es.len() {
        let next = es.subrange(0, n + 1);
        assert(next.drop_last() =~= es.subrange(0, n));
        lemma_string_members_prefix(es, n + 1);
    } else {
        assert(es.subrange(0, n) =~= es);
    }
}

/// The `name` and optional `arguments` of a `prompts/get` request.
pub fn prompt_get_of(params: &Option<Json>) -> (r: Option<(String, Option<Vec<(String, String)>>)>)
    ensures
        r matches Some(x) ==> prompt_get_param(*params) == Some(
            (
                x.0@,
                match x.1 {
                    Some(v) => Some(pairs_view(v@)),
                    None => None,
                },
            ),
        ),
        r is None ==> prompt_get_param(*params) is None,
{
    match params {
        Some(p) => {
            let name = match p.get_str("name") {
                Some(n) => n.clone(),
                None => return None,
            };
            match p.get_opt("arguments") {
                None => Some((name, None)),
                Some(Json::Object(es)) => match string_pairs(es) {
                    Some(args) => Some((name, Some(args))),
                    None => None,
                },
                _ => None,
            }
        },
        None => None,
    }
}

/// The reference and argument of a `completion/complete` request: `ref` names a prompt
/// (`type: "ref/prompt"`, `name`) or a template (`type: "ref/resource"`, `uri`); `argument`
/// has a string `name` and an optional string `value`.
pub open spec fn complete_param(params: Option<Json>) -> Option<
    (bool, Seq<char>, Seq<char>, Option<Seq<char>>),
> {
    match params {
        Some(p) => match (field(p, "ref"@), field(p, "argument"@)) {
            (Some(rf), Some(arg)) => {
                let kind = str_field(rf, "type"@);
                let target = if kind == Some("ref/prompt"@) {
                    str_field(rf, "name"@)
                } else if kind == Some("ref/resource"@) {
                    str_field(rf, "uri"@)
                } else {
                    None
                };
                let value = opt_field(arg, "value"@);
                match (target, str_field(arg, "name"@)) {
                    (Some(t), Some(n)) => match value {
                        None => Some((kind == Some("ref/prompt"@), t, n, None)),
                        Some(Json::Str(v)) => Some((kind == Some("ref/prompt"@), t, n, Some(v@))),
                        _ => None,
                    },
                    _ => None,
                }
            },
            _ => None,
        },
        None => None,
    }
}

/// The view of a decoded completion request: whether it is about a prompt, the prompt
/// name or template URI, the argument name and the typed value.
pub open spec fn complete_view(c: CompleteRequest) -> (bool, Seq<char>, Seq<char>, Option<Seq<char>>) {
    (
        c.reference is Prompt,
        match c.reference {
            CompletionReference::Prompt { name } => name@,
            CompletionReference::Resource { uri } => uri@,
        },
        c.argument.name@,
        match c.argument.value {
            Some(v) => Some(v@),
            None => None,
        },
    )
}

/// The reference and argument of a `completion/complete` request.
pub fn complete_of(params: &Option<Json>) -> (r: Option<CompleteRequest>)
    ensures
        r matches Some(c) ==> complete_param(*params) == Some(complete_view(c)),
        r is None ==> complete_param(*params) is None,
{
    proof {
        reveal_strlit("ref/prompt");
        reveal_strlit("ref/resource");
        assert("ref/prompt"@[4] != "ref/resource"@[4]);
    }
    let p = match params {
        Some(p) => p,
        None => return None,
    };
    let (rf, arg) = match (p.get("ref"), p.get("argument")) {
        (Some(rf), Some(arg)) => (rf, arg),
        _ => return None,
    };
    let kind = rf.get_str("type");
    let is_prompt = match kind {
        Some(k) => crate::text::str_eq(k.as_str(), "ref/prompt"),
        None => false,
    };
    let is_resource = match kind {
        Some(k) => crate::text::str_eq(k.as_str(), "ref/resource"),
        None => false,
    };
    let target = if is_prompt {
        rf.get_str("name")
    } else if is_resource {
        rf.get_str("uri")
    } else {
        None
    };
    let target = match target {
        Some(t) => t.clone(),
        None => return None,
    };
    let name = match arg.get_str("name") {
        Some(n) => n.clone(),
        None => return None,
    };
    let value = match arg.get_opt("value") {
        None => None,
        Some(Json::Str(v)) => Some(v.clone()),
        _ => return None,
    };
    let reference = if is_prompt {
        CompletionReference::Prompt { name: target }
    } else {
        CompletionReference::Resource { uri: target }
    };
    Some(CompleteRequest { reference, argument: CompletionArgument { name, value } })
}

/// The `protocolVersion` and `clientInfo` of an `initialize` request; `capabilities` must be
/// present too.
pub open spec fn initialize_param(params: Option<Json>) -> Option<(Seq<char>, Seq<char>, Seq<char>)> {
    match params {
        Some(p) => match (str_field(p, "protocolVersion"@), field(p, "capabilities"@), field(
            p,
            "clientInfo"@,
        )) {
            (Some(v), Some(_), Some(info)) => match (str_field(info, "name"@), str_field(
                info,
                "version"@,
            )) {
                (Some(n), Some(ver)) => Some((v, n, ver)),
                _ => None,
            },
            _ => None,
        },
        None => None,
    }
}

/// The requested protocol version and the client's identity.
pub fn initialize_of(params: &Option<Json>) -> (r: Option<(String, ClientInfo)>)
    ensures
        r matches Some(x) ==> initialize_param(*params) == Some(
            (x.0@, x.1.name@, x.1.version@),
        ),
        r is None ==> initialize_param(*params) is None,
{
    let p = match params {
        Some(p) => p,
        None => return None,
    };
    let version = match p.get_str("protocolVersion") {
        Some(v) => v.clone(),
        None => return None,
    };
    if p.get("capabilities").is_none() {
        return None;
    }
    let info = match p.get("clientInfo") {
        Some(i) => i,
        None => return None,
    };
    match (info.get_str("name"), info.get_str("version")) {
        (Some(n), Some(v)) => Some((version, ClientInfo { name: n.clone(), version: v.clone() })),
        _ => None,
    }
}

proof fn lemma_names_distinct()
    ensures
        "name"@ != "arguments"@,
{
    reveal_strlit("name");
    reveal_strlit("arguments");
    assert("name"@[0] != "arguments"@[0]);
}

} // verus!
