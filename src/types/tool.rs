use vstd::prelude::*;

use crate::json::{push_member, Json, MAX_DEPTH};
use crate::types::{entry, entry_at, member_count, present, push_opt_copy, push_opt_str, shape_entry, str_entry};

verus! {

/// A tool that a client may call.
pub struct Tool {
    pub name: String,
    pub description: Option<String>,
    /// JSON Schema of the arguments.
    pub input_schema: Json,
    pub annotations: Option<Json>,
}

/// Parameters of `tools/call`.
pub struct ToolCallParams {
    pub name: String,
    pub arguments: Json,
}

/// One item of a tool's output.
pub enum ToolContent {
    Text { text: String },
    Image { data: String, mime_type: String },
    Audio { data: String, mime_type: String },
    Resource { resource: Json },
}

/// What a tool handler returns. `is_error` marks a failure of the tool's own work,
/// which is still a successful protocol response.
pub struct ToolCallResult {
    pub content: Vec<ToolContent>,
    pub is_error: Option<bool>,
}

/// Parameters of `tools/list`.
pub struct ToolsListParams {
    pub cursor: Option<String>,
}

/// Result of `tools/list`.
pub struct ToolsListResult {
    pub tools: Vec<Tool>,
    pub next_cursor: Option<String>,
}

/// `j` is the wire form of content item `c`: its `type`, then its fields.
pub open spec fn encodes_content(c: ToolContent, j: Json) -> bool {
    match c {
        ToolContent::Text { text } => member_count(j) == 2 && str_entry(j, 0, "type"@, "text"@)
            && entry(j, 1, "text"@, Json::Str(text)),
        ToolContent::Image { data, mime_type } => member_count(j) == 3 && str_entry(
            j,
            0,
            "type"@,
            "image"@,
        ) && entry(j, 1, "data"@, Json::Str(data)) && entry(j, 2, "mimeType"@, Json::Str(mime_type)),
        ToolContent::Audio { data, mime_type } => member_count(j) == 3 && str_entry(
            j,
            0,
            "type"@,
            "audio"@,
        ) && entry(j, 1, "data"@, Json::Str(data)) && entry(j, 2, "mimeType"@, Json::Str(mime_type)),
        ToolContent::Resource { resource } => member_count(j) == 2 && str_entry(
            j,
            0,
            "type"@,
            "resource"@,
        ) && entry(j, 1, "resource"@, resource),
    }
}

/// `j` is the array of the wire forms of `cs`, in order.
pub open spec fn encodes_contents(cs: Seq<ToolContent>, j: Json) -> bool {
    match j {
        Json::Array(items) => items@.len() == cs.len() && forall|i: int|
            0 <= i < items@.len() ==> encodes_content(#[trigger] cs[i], items@[i]),
        _ => false,
    }
}

/// `j` is the wire form of `r`: the content items in order, then `isError`, which is
/// `false` when the handler left it unset.
pub open spec fn encodes_call_result(r: ToolCallResult, j: Json) -> bool {
    &&& member_count(j) == 2
    &&& entry_at(j, 0) matches Some(e) && e.0@ == "content"@ && encodes_contents(r.content@, e.1)
    &&& entry(j, 1, "isError"@, Json::Bool(r.is_error == Some(true)))
}

impl ToolContent {
    pub fn into_json(self) -> (r: Json)
        ensures
            encodes_content(self, r),
    {
        let mut es: Vec<(String, Json)> = Vec::new();
        match self {
            ToolContent::Text { text } => {
                push_member(&mut es, "type", Json::from_str("text"));
                push_member(&mut es, "text", Json::Str(text));
            },
            ToolContent::Image { data, mime_type } => {
                push_member(&mut es, "type", Json::from_str("image"));
                push_member(&mut es, "data", Json::Str(data));
                push_member(&mut es, "mimeType", Json::Str(mime_type));
            },
            ToolContent::Audio { data, mime_type } => {
                push_member(&mut es, "type", Json::from_str("audio"));
                push_member(&mut es, "data", Json::Str(data));
                push_member(&mut es, "mimeType", Json::Str(mime_type));
            },
            ToolContent::Resource { resource } => {
                push_member(&mut es, "type", Json::from_str("resource"));
                push_member(&mut es, "resource", resource);
            },
        }
        Json::Object(es)
    }
}

impl ToolCallResult {
    /// The wire form of this result; the content items are carried over unchanged.
    pub fn into_json(self) -> (r: Json)
        ensures
            encodes_call_result(self, r),
    {
        let ghost old_content = self.content@;
        let flag = match self.is_error {
            Some(b) => b,
            None => false,
        };
        let mut content = self.content;
        let mut items: Vec<Json> = Vec::new();
        let mut rev: Vec<Json> = Vec::new();
        // Taken from the back, then put back in order.
        while content.len() > 0
            invariant
                content@ == old_content.subrange(0, content@.len() as int),
                rev@.len() + content@.len() == old_content.len(),
                forall|i: int|
                    0 <= i < rev@.len() ==> encodes_content(
                        #[trigger] old_content[old_content.len() - 1 - i],
                        rev@[i],
                    ),
            decreases content@.len(),
        {
            let c = content.pop().unwrap();
            assert(content@ =~= old_content.subrange(0, content@.len() as int));
            rev.push(c.into_json());
        }
        while rev.len() > 0
            invariant
                items@.len() + rev@.len() == old_content.len(),
                forall|i: int|
                    0 <= i < rev@.len() ==> encodes_content(
                        #[trigger] old_content[old_content.len() - 1 - i],
                        rev@[i],
                    ),
                forall|i: int|
                    0 <= i < items@.len() ==> encodes_content(#[trigger] old_content[i], items@[i]),
            decreases rev@.len(),
        {
            let ghost k = rev@.len() - 1;
            let j = rev.pop().unwrap();
            assert(old_content.len() - 1 - k == items@.len());
            items.push(j);
        }
        let mut es: Vec<(String, Json)> = Vec::new();
        push_member(&mut es, "content", Json::Array(items));
        push_member(&mut es, "isError", Json::Bool(flag));
        Json::Object(es)
    }
}

/// `j` is the listing form of tool `t`: name, a copy of the input schema, then the
/// description and a copy of the annotations when present.
pub open spec fn lists_tool(t: Tool, j: Json) -> bool {
    &&& member_count(j) == 2 + present(t.description) + present(t.annotations)
    &&& str_entry(j, 0, "name"@, t.name@)
    &&& shape_entry(j, 1, "inputSchema"@, t.input_schema)
    &&& (t.description matches Some(d) ==> str_entry(j, 2, "description"@, d@))
    &&& (t.annotations matches Some(a) ==> shape_entry(j, 2 + present(t.description), "annotations"@, a))
}

impl Tool {
    /// The listing form of this tool.
    pub fn to_json(&self) -> (r: Json)
        ensures
            lists_tool(*self, r),
    {
        let mut es: Vec<(String, Json)> = Vec::new();
        push_member(&mut es, "name", Json::from_str(self.name.as_str()));
        push_member(&mut es, "inputSchema", self.input_schema.copy_nested(MAX_DEPTH));
        let ghost e1 = es@;
        push_opt_str(&mut es, "description", &self.description);
        let ghost e2 = es@;
        push_opt_copy(&mut es, "annotations", &self.annotations);
        assert(es@[0] == e1[0] && es@[1] == e1[1]);
        assert(self.description is Some ==> es@[2] == e2[2]);
        Json::Object(es)
    }
}

} // verus!
