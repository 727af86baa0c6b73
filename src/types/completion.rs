use vstd::prelude::*;

use crate::json::{push_member, Json};
use crate::types::{entry, entry_at, member_count};

verus! {

/// What a completion request is about.
pub enum CompletionReference {
    /// An argument of a prompt.
    Prompt { name: String },
    /// A parameter of a resource template.
    Resource { uri: String },
}

/// The argument being completed and the text typed so far.
pub struct CompletionArgument {
    pub name: String,
    pub value: Option<String>,
}

/// Parameters of `completion/complete`.
pub struct CompleteRequest {
    pub reference: CompletionReference,
    pub argument: CompletionArgument,
}

/// Suggestions returned by `completion/complete`.
pub struct CompletionResult {
    pub values: Vec<String>,
    pub total: Option<usize>,
    pub has_more: bool,
}

/// Result of `completion/complete`.
pub struct CompleteResponse {
    pub completion: CompletionResult,
}

/// Parameters of `completion/complete`, in the older layout.
pub struct CompletionCompleteParams {
    pub reference: CompletionReference,
    pub argument: CompletionArgument,
}

/// Result of `completion/complete`, in the older layout.
pub struct CompletionCompleteResult {
    pub completion: CompletionInfo,
}

/// Suggestions, in the older layout.
pub struct CompletionInfo {
    pub values: Vec<String>,
    pub total: Option<u32>,
    pub has_more: bool,
}

/// A suggestion with details.
pub struct CompletionItem {
    pub label: String,
    pub detail: Option<String>,
    pub documentation: Option<String>,
}

/// A `completion/complete` request message body.
pub struct CompletionCompleteRequest {
    pub params: CompleteRequest,
}

/// A `completion/complete` response message body.
pub struct CompletionCompleteResponse {
    pub result: CompleteResponse,
}

/// `j` is the array of the strings `values`, in order.
pub open spec fn encodes_strings(values: Seq<String>, j: Json) -> bool {
    match j {
        Json::Array(items) => items@.len() == values.len() && forall|i: int|
            0 <= i < items@.len() ==> #[trigger] items@[i] == Json::Str(values[i]),
        _ => false,
    }
}

/// The array of `values`, in order.
pub fn strings_to_json(values: Vec<String>) -> (r: Json)
    ensures
        encodes_strings(values@, r),
{
    let ghost all = values@;
    let mut rest = values;
    let mut items: Vec<Json> = Vec::new();
    while rest.len() > 0
        invariant
            items@.len() + rest@.len() == all.len(),
            rest@ == all.subrange(items@.len() as int, all.len() as int),
            forall|i: int| 0 <= i < items@.len() ==> #[trigger] items@[i] == Json::Str(all[i]),
        decreases rest@.len(),
    {
        let v = rest.remove(0);
        assert(v == all[items@.len() as int]);
        assert(rest@ =~= all.subrange(items@.len() as int + 1, all.len() as int));
        items.push(Json::Str(v));
    }
    Json::Array(items)
}

/// `j` is `{ completion: { values, total?, hasMore } }` for `c`.
pub open spec fn encodes_completion(c: CompletionResult, j: Json) -> bool {
    &&& member_count(j) == 1
    &&& entry_at(j, 0) matches Some(e) && e.0@ == "completion"@ && {
        let inner = e.1;
        &&& member_count(inner) == if c.total is Some { 3int } else { 2int }
        &&& match entry_at(inner, 0) {
            Some(v) => v.0@ == "values"@ && encodes_strings(c.values@, v.1),
            None => false,
        }
        &&& (c.total matches Some(t) ==> entry(inner, 1, "total"@, Json::Int(t as i64)))
        &&& entry(inner, if c.total is Some { 2 } else { 1 }, "hasMore"@, Json::Bool(c.has_more))
    }
}

impl CompleteResponse {
    /// The wire form of this result; a total beyond the range of JSON integers is left out.
    pub fn into_json_checked(self) -> (r: Json)
        ensures
            (self.completion.total matches Some(t) ==> t <= i64::MAX) ==> encodes_completion(
                self.completion,
                r,
            ),
    {
        let c = self.completion;
        let mut inner: Vec<(String, Json)> = Vec::new();
        push_member(&mut inner, "values", strings_to_json(c.values));
        match c.total {
            Some(t) => {
                if (t as u64) <= (i64::MAX as u64) {
                    push_member(&mut inner, "total", Json::Int(t as i64));
                }
            },
            None => {},
        }
        push_member(&mut inner, "hasMore", Json::Bool(c.has_more));
        let mut es: Vec<(String, Json)> = Vec::new();
        push_member(&mut es, "completion", Json::Object(inner));
        Json::Object(es)
    }
}

} // verus!
