use vstd::prelude::*;

use crate::json::{push_member, Json};
use crate::types::{entry, entry_at, member_count, present, push_opt_copy, push_opt_str, shape_entry, str_entry};

verus! {

/// A resource that a client may read.
pub struct Resource {
    pub uri: String,
    pub name: String,
    pub description: Option<String>,
    pub mime_type: Option<String>,
    pub size: Option<u64>,
    pub annotations: Option<Json>,
}

/// Content of a resource: text, or binary data in base64.
pub struct ResourceContent {
    pub uri: String,
    pub mime_type: String,
    pub text: Option<String>,
    pub blob: Option<String>,
}

/// Parameters of `resources/list`.
pub struct ResourcesListParams {
    pub cursor: Option<String>,
}

/// Result of `resources/list`.
pub struct ResourcesListResult {
    pub resources: Vec<Resource>,
    pub next_cursor: Option<String>,
}

/// Parameters of `resources/read`.
pub struct ResourceReadParams {
    pub uri: String,
}

/// Result of `resources/read`.
pub struct ResourceReadResult {
    pub contents: Vec<ResourceContent>,
}

/// Parameters of `resources/subscribe`.
pub struct ResourceSubscribeParams {
    pub uri: String,
}

/// Parameters of `notifications/resources/updated`.
pub struct ResourceUpdatedParams {
    pub uri: String,
}

/// A family of resources whose URIs follow a template such as `db:///{table}/{id}`.
pub struct ResourceTemplate {
    pub uri_template: String,
    pub name: String,
    pub description: Option<String>,
    pub mime_type: Option<String>,
    pub annotations: Option<Json>,
}

/// Parameters of `resources/templates/list`.
pub struct ResourceTemplatesListParams {
    pub cursor: Option<String>,
}

/// Result of `resources/templates/list`.
pub struct ResourceTemplatesListResult {
    pub resource_templates: Vec<ResourceTemplate>,
    pub next_cursor: Option<String>,
}

/// A request for suggestions for one parameter of a template.
pub struct ResourceTemplateCompletionParams {
    pub uri_template: String,
    pub parameter: String,
    pub value: Option<String>,
}

/// Suggestions for a template parameter.
pub struct ResourceTemplateCompletionResult {
    pub items: Vec<CompletionItem>,
}

/// One suggestion for a template parameter.
pub struct CompletionItem {
    pub label: String,
    pub description: Option<String>,
    pub insert_text: Option<String>,
}

/// Parameters of `resources/unsubscribe`.
pub struct ResourceUnsubscribeParams {
    pub uri: String,
}

/// `j` is the wire form of `c`: uri, mimeType, then text and blob when present.
pub open spec fn encodes_resource_content(c: ResourceContent, j: Json) -> bool {
    &&& member_count(j) == 2 + (if c.text is Some { 1int } else { 0int }) + (if c.blob is Some {
        1int
    } else {
        0int
    })
    &&& entry(j, 0, "uri"@, Json::Str(c.uri))
    &&& entry(j, 1, "mimeType"@, Json::Str(c.mime_type))
    &&& (c.text matches Some(t) ==> entry(j, 2, "text"@, Json::Str(t)))
    &&& (c.blob matches Some(b) ==> entry(j, if c.text is Some { 3 } else { 2 }, "blob"@, Json::Str(b)))
}

/// `j` is the array of the wire forms of `cs`, in order.
pub open spec fn encodes_resource_contents(cs: Seq<ResourceContent>, j: Json) -> bool {
    match j {
        Json::Array(items) => items@.len() == cs.len() && forall|i: int|
            0 <= i < items@.len() ==> encodes_resource_content(#[trigger] cs[i], items@[i]),
        _ => false,
    }
}

impl ResourceContent {
    pub fn into_json(self) -> (r: Json)
        ensures
            encodes_resource_content(self, r),
    {
        let mut es: Vec<(String, Json)> = Vec::new();
        push_member(&mut es, "uri", Json::Str(self.uri));
        push_member(&mut es, "mimeType", Json::Str(self.mime_type));
        match self.text {
            Some(t) => push_member(&mut es, "text", Json::Str(t)),
            None => {},
        }
        match self.blob {
            Some(b) => push_member(&mut es, "blob", Json::Str(b)),
            None => {},
        }
        Json::Object(es)
    }
}

/// The array of the wire forms of `contents`, in order and unchanged.
pub fn contents_to_json(contents: Vec<ResourceContent>) -> (r: Json)
    ensures
        encodes_resource_contents(contents@, r),
{
    let ghost all = contents@;
    let mut rest = contents;
    let mut items: Vec<Json> = Vec::new();
    while rest.len() > 0
        invariant
            items@.len() + rest@.len() == all.len(),
            rest@ == all.subrange(items@.len() as int, all.len() as int),
            forall|i: int| 0 <= i < items@.len() ==> encodes_resource_content(#[trigger] all[i], items@[i]),
        decreases rest@.len(),
    {
        let c = rest.remove(0);
        assert(c == all[items@.len() as int]);
        assert(rest@ =~= all.subrange(items@.len() as int + 1, all.len() as int));
        items.push(c.into_json());
    }
    Json::Array(items)
}

/// `v` is the wire form of a size: an integer, or its decimal text beyond the range of
/// 64-bit integers.
pub open spec fn encodes_size(n: u64, v: Json) -> bool {
    if n <= i64::MAX {
        v == Json::Int(n as i64)
    } else {
        match v {
            Json::Number(t) => t@ == crate::text::decimal_text(n as int),
            _ => false,
        }
    }
}

/// `j` is the listing form of `r`: uri, name, then description, mimeType, size and a copy
/// of the annotations, each when present.
pub open spec fn lists_resource(r: Resource, j: Json) -> bool {
    let d = 2 + present(r.description);
    let m = d + present(r.mime_type);
    let z = m + present(r.size);
    &&& member_count(j) == z + present(r.annotations)
    &&& str_entry(j, 0, "uri"@, r.uri@)
    &&& str_entry(j, 1, "name"@, r.name@)
    &&& (r.description matches Some(x) ==> str_entry(j, 2, "description"@, x@))
    &&& (r.mime_type matches Some(x) ==> str_entry(j, d, "mimeType"@, x@))
    &&& (r.size matches Some(n) ==> (entry_at(j, m) matches Some(e) && e.0@ == "size"@ && encodes_size(n, e.1)))
    &&& (r.annotations matches Some(a) ==> shape_entry(j, z, "annotations"@, a))
}

/// `j` is the listing form of `t`: uriTemplate, name, then description, mimeType and a copy
/// of the annotations, each when present.
pub open spec fn lists_template(t: ResourceTemplate, j: Json) -> bool {
    let d = 2 + present(t.description);
    let m = d + present(t.mime_type);
    &&& member_count(j) == m + present(t.annotations)
    &&& str_entry(j, 0, "uriTemplate"@, t.uri_template@)
    &&& str_entry(j, 1, "name"@, t.name@)
    &&& (t.description matches Some(x) ==> str_entry(j, 2, "description"@, x@))
    &&& (t.mime_type matches Some(x) ==> str_entry(j, d, "mimeType"@, x@))
    &&& (t.annotations matches Some(a) ==> shape_entry(j, m, "annotations"@, a))
}

impl Resource {
    /// The listing form of this resource.
    pub fn to_json(&self) -> (r: Json)
        ensures
            lists_resource(*self, r),
    {
        let mut es: Vec<(String, Json)> = Vec::new();
        push_member(&mut es, "uri", Json::from_str(self.uri.as_str()));
        push_member(&mut es, "name", Json::from_str(self.name.as_str()));
        let ghost e1 = es@;
        push_opt_str(&mut es, "description", &self.description);
        let ghost e2 = es@;
        push_opt_str(&mut es, "mimeType", &self.mime_type);
        let ghost e3 = es@;
        match self.size {
            Some(n) => {
                if n <= i64::MAX as u64 {
                    push_member(&mut es, "size", Json::Int(n as i64));
                } else {
                    push_member(&mut es, "size", Json::Number(crate::text::u64_to_decimal(n)));
                }
            },
            None => {
                assert(es@.subrange(0, es@.len() as int) =~= es@);
            },
        }
        let ghost e4 = es@;
        push_opt_copy(&mut es, "annotations", &self.annotations);
        proof {
            assert(es@[0] == e1[0] && es@[1] == e1[1]);
            assert(e4.subrange(0, e2.len() as int) =~= e3.subrange(0, e2.len() as int));
            if self.description is Some {
                assert(es@[2] == e2[2]);
            }
            if self.mime_type is Some {
                assert(es@[e2.len() as int] == e3[e2.len() as int]);
            }
            if self.size is Some {
                assert(es@[e3.len() as int] == e4[e3.len() as int]);
            }
        }
        Json::Object(es)
    }
}

impl ResourceTemplate {
    /// The listing form of this template.
    pub fn to_json(&self) -> (r: Json)
        ensures
            lists_template(*self, r),
    {
        let mut es: Vec<(String, Json)> = Vec::new();
        push_member(&mut es, "uriTemplate", Json::from_str(self.uri_template.as_str()));
        push_member(&mut es, "name", Json::from_str(self.name.as_str()));
        let ghost e1 = es@;
        push_opt_str(&mut es, "description", &self.description);
        let ghost e2 = es@;
        push_opt_str(&mut es, "mimeType", &self.mime_type);
        let ghost e3 = es@;
        push_opt_copy(&mut es, "annotations", &self.annotations);
        proof {
            assert(es@[0] == e1[0] && es@[1] == e1[1]);
            if self.description is Some {
                assert(es@[2] == e2[2]);
            }
            if self.mime_type is Some {
                assert(es@[e2.len() as int] == e3[e2.len() as int]);
            }
        }
        Json::Object(es)
    }
}

} // verus!
