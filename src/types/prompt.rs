use vstd::prelude::*;

use crate::json::{push_member, Json};
use crate::types::{entry, entry_at, member_count, present, push_opt_copy, push_opt_str, shape_entry, str_entry};

verus! {

/// A prompt template offered by a server.
pub struct Prompt {
    pub name: String,
    pub description: Option<String>,
    pub arguments: Option<Vec<PromptArgument>>,
    pub annotations: Option<Json>,
}

/// An argument of a prompt.
pub struct PromptArgument {
    pub name: String,
    pub description: Option<String>,
    pub required: Option<bool>,
}

/// Parameters of `prompts/list`.
pub struct PromptsListParams {
    pub cursor: Option<String>,
}

/// Result of `prompts/list`.
pub struct PromptsListResult {
    pub prompts: Vec<Prompt>,
    pub next_cursor: String,
}

/// Parameters of `prompts/get`; the arguments map names to values.
pub struct PromptGetParams {
    pub name: String,
    pub arguments: Option<Vec<(String, String)>>,
}

/// Result of `prompts/get`.
pub struct PromptGetResult {
    pub description: Option<String>,
    pub messages: Vec<PromptMessage>,
}

/// One message of a prompt.
pub struct PromptMessage {
    pub role: String,
    pub content: PromptMessageContent,
}

/// Content of a prompt message.
pub enum PromptMessageContent {
    Text { text: String },
    Image { data: String, mime_type: String },
    Resource { resource: EmbeddedResource },
}

/// A resource embedded in a prompt message.
pub struct EmbeddedResource {
    pub uri: String,
    pub mime_type: String,
    pub text: Option<String>,
    pub data: Option<String>,
}

/// A reference to a prompt.
pub struct PromptReference {
    pub ref_type: String,
    pub name: String,
}

/// `j` is the wire form of `e`: uri, mimeType, then text and data when present.
pub open spec fn encodes_embedded(e: EmbeddedResource, j: Json) -> bool {
    &&& member_count(j) == 2 + (if e.text is Some { 1int } else { 0int }) + (if e.data is Some {
        1int
    } else {
        0int
    })
    &&& entry(j, 0, "uri"@, Json::Str(e.uri))
    &&& entry(j, 1, "mimeType"@, Json::Str(e.mime_type))
    &&& (e.text matches Some(t) ==> entry(j, 2, "text"@, Json::Str(t)))
    &&& (e.data matches Some(d) ==> entry(j, if e.text is Some { 3 } else { 2 }, "data"@, Json::Str(d)))
}

/// `j` is the wire form of prompt content `c`.
pub open spec fn encodes_prompt_content(c: PromptMessageContent, j: Json) -> bool {
    match c {
        PromptMessageContent::Text { text } => member_count(j) == 2 && str_entry(
            j,
            0,
            "type"@,
            "text"@,
        ) && entry(j, 1, "text"@, Json::Str(text)),
        PromptMessageContent::Image { data, mime_type } => member_count(j) == 3 && str_entry(
            j,
            0,
            "type"@,
            "image"@,
        ) && entry(j, 1, "data"@, Json::Str(data)) && entry(j, 2, "mimeType"@, Json::Str(mime_type)),
        PromptMessageContent::Resource { resource } => member_count(j) == 2 && str_entry(
            j,
            0,
            "type"@,
            "resource"@,
        ) && (entry_at(j, 1) matches Some(e) && e.0@ == "resource"@ && encodes_embedded(resource, e.1)),
    }
}

/// `j` is the wire form of message `m`.
pub open spec fn encodes_prompt_message(m: PromptMessage, j: Json) -> bool {
    &&& member_count(j) == 2
    &&& entry(j, 0, "role"@, Json::Str(m.role))
    &&& entry_at(j, 1) matches Some(e) && e.0@ == "content"@ && encodes_prompt_content(m.content, e.1)
}

/// `j` is the wire form of `r`: the messages in order, then the description when present.
pub open spec fn encodes_prompt_result(r: PromptGetResult, j: Json) -> bool {
    &&& member_count(j) == if r.description is Some { 2int } else { 1int }
    &&& entry_at(j, 0) matches Some(e) && e.0@ == "messages"@ && (match e.1 {
        Json::Array(items) => items@.len() == r.messages@.len() && forall|i: int|
            0 <= i < items@.len() ==> encodes_prompt_message(#[trigger] r.messages@[i], items@[i]),
        _ => false,
    })
    &&& (r.description matches Some(d) ==> entry(j, 1, "description"@, Json::Str(d)))
}

impl EmbeddedResource {
    pub fn into_json(self) -> (r: Json)
        ensures
            encodes_embedded(self, r),
    {
        let mut es: Vec<(String, Json)> = Vec::new();
        push_member(&mut es, "uri", Json::Str(self.uri));
        push_member(&mut es, "mimeType", Json::Str(self.mime_type));
        match self.text {
            Some(t) => push_member(&mut es, "text", Json::Str(t)),
            None => {},
        }
        match self.data {
            Some(d) => push_member(&mut es, "data", Json::Str(d)),
            None => {},
        }
        Json::Object(es)
    }
}

impl PromptMessageContent {
    pub fn into_json(self) -> (r: Json)
        ensures
            encodes_prompt_content(self, r),
    {
        let mut es: Vec<(String, Json)> = Vec::new();
        match self {
            PromptMessageContent::Text { text } => {
                push_member(&mut es, "type", Json::from_str("text"));
                push_member(&mut es, "text", Json::Str(text));
            },
            PromptMessageContent::Image { data, mime_type } => {
                push_member(&mut es, "type", Json::from_str("image"));
                push_member(&mut es, "data", Json::Str(data));
                push_member(&mut es, "mimeType", Json::Str(mime_type));
            },
            PromptMessageContent::Resource { resource } => {
                push_member(&mut es, "type", Json::from_str("resource"));
                push_member(&mut es, "resource", resource.into_json());
            },
        }
        Json::Object(es)
    }
}

impl PromptMessage {
    pub fn into_json(self) -> (r: Json)
        ensures
            encodes_prompt_message(self, r),
    {
        let mut es: Vec<(String, Json)> = Vec::new();
        push_member(&mut es, "role", Json::Str(self.role));
        push_member(&mut es, "content", self.content.into_json());
        Json::Object(es)
    }
}

impl PromptGetResult {
    /// The wire form of this result; the messages are carried over unchanged.
    pub fn into_json(self) -> (r: Json)
        ensures
            encodes_prompt_result(self, r),
    {
        let ghost all = self.messages@;
        let mut rest = self.messages;
        let mut items: Vec<Json> = Vec::new();
        while rest.len() > 0
            invariant
                items@.len() + rest@.len() == all.len(),
                rest@ == all.subrange(items@.len() as int, all.len() as int),
                forall|i: int| 0 <= i < items@.len() ==> encodes_prompt_message(#[trigger] all[i], items@[i]),
            decreases rest@.len(),
        {
            let m = rest.remove(0);
            assert(m == all[items@.len() as int]);
            assert(rest@ =~= all.subrange(items@.len() as int + 1, all.len() as int));
            items.push(m.into_json());
        }
        let mut es: Vec<(String, Json)> = Vec::new();
        push_member(&mut es, "messages", Json::Array(items));
        match self.description {
            Some(d) => push_member(&mut es, "description", Json::Str(d)),
            None => {},
        }
        Json::Object(es)
    }
}

/// `j` is the listing form of argument `a`: name, then description and required when
/// present.
pub open spec fn lists_argument(a: PromptArgument, j: Json) -> bool {
    &&& member_count(j) == 1 + present(a.description) + present(a.required)
    &&& str_entry(j, 0, "name"@, a.name@)
    &&& (a.description matches Some(d) ==> str_entry(j, 1, "description"@, d@))
    &&& (a.required matches Some(b) ==> entry(j, 1 + present(a.description), "required"@, Json::Bool(b)))
}

/// `j` is the array of the listing forms of `args`, in order.
pub open spec fn lists_arguments(args: Seq<PromptArgument>, j: Json) -> bool {
    match j {
        Json::Array(items) => items@.len() == args.len() && forall|i: int|
            0 <= i < args.len() ==> lists_argument(#[trigger] args[i], items@[i]),
        _ => false,
    }
}

/// `j` is the listing form of `p`: name, then description, arguments and a copy of the
/// annotations, each when present.
pub open spec fn lists_prompt(p: Prompt, j: Json) -> bool {
    let d = 1 + present(p.description);
    let g = d + present(p.arguments);
    &&& member_count(j) == g + present(p.annotations)
    &&& str_entry(j, 0, "name"@, p.name@)
    &&& (p.description matches Some(x) ==> str_entry(j, 1, "description"@, x@))
    &&& (p.arguments matches Some(args) ==> (entry_at(j, d) matches Some(e) && e.0@ == "arguments"@
        && lists_arguments(args@, e.1)))
    &&& (p.annotations matches Some(a) ==> shape_entry(j, g, "annotations"@, a))
}

impl PromptArgument {
    /// The listing form of this argument.
    pub fn to_json(&self) -> (r: Json)
        ensures
            lists_argument(*self, r),
    {
        let mut es: Vec<(String, Json)> = Vec::new();
        push_member(&mut es, "name", Json::from_str(self.name.as_str()));
        let ghost e1 = es@;
        push_opt_str(&mut es, "description", &self.description);
        let ghost e2 = es@;
        match self.required {
            Some(b) => push_member(&mut es, "required", Json::Bool(b)),
            None => {},
        }
        assert(es@[0] == e1[0]);
        assert(self.description is Some ==> es@[1] == e2[1]);
        Json::Object(es)
    }
}

impl Prompt {
    /// The listing form of this prompt.
    pub fn to_json(&self) -> (r: Json)
        ensures
            lists_prompt(*self, r),
    {
        let mut es: Vec<(String, Json)> = Vec::new();
        push_member(&mut es, "name", Json::from_str(self.name.as_str()));
        let ghost e1 = es@;
        push_opt_str(&mut es, "description", &self.description);
        let ghost e2 = es@;
        match &self.arguments {
            Some(args) => {
                let mut items: Vec<Json> = Vec::new();
                let mut i: usize = 0;
                while i < args.len()
                    invariant
                        i <= args@.len(),
                        items@.len() == i,
                        forall|k: int| 0 <= k < i ==> lists_argument(#[trigger] args@[k], items@[k]),
                    decreases args@.len() - i,
                {
                    items.push(args[i].to_json());
                    i = i + 1;
                }
                push_member(&mut es, "arguments", Json::Array(items));
            },
            None => {},
        }
        let ghost e3 = es@;
        push_opt_copy(&mut es, "annotations", &self.annotations);
        proof {
            assert(es@[0] == e1[0]);
            if self.description is Some {
                assert(es@[1] == e2[1]);
            }
            if self.arguments is Some {
                assert(es@[e2.len() as int] == e3[e2.len() as int]);
            }
        }
        Json::Object(es)
    }
}

} // verus!
