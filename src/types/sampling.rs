use vstd::prelude::*;

use crate::json::{push_member, Json};
use crate::types::{entry, entry_at, member_count, str_entry};

verus! {

/// Content of a sampling message.
pub enum MessageContent {
    Text { text: String },
    Image { data: String, mime_type: String },
}

/// One message of a sampling conversation.
pub struct Message {
    pub role: String,
    pub content: MessageContent,
}

/// A hint naming a model or model family.
pub struct ModelHint {
    pub name: String,
}

/// What a sampling callback produces.
pub struct CreateMessageResult {
    pub role: String,
    pub content: MessageContent,
    pub model: Option<String>,
    pub stop_reason: Option<String>,
    pub metadata: Option<Json>,
}

/// `j` is the wire form of sampling content `c`.
pub open spec fn encodes_message_content(c: MessageContent, j: Json) -> bool {
    match c {
        MessageContent::Text { text } => member_count(j) == 2 && str_entry(j, 0, "type"@, "text"@)
            && entry(j, 1, "text"@, Json::Str(text)),
        MessageContent::Image { data, mime_type } => member_count(j) == 3 && str_entry(
            j,
            0,
            "type"@,
            "image"@,
        ) && entry(j, 1, "data"@, Json::Str(data)) && entry(j, 2, "mimeType"@, Json::Str(mime_type)),
    }
}

/// `j` is the wire form of `r`: role, content, then model, stop_reason and metadata when
/// present.
pub open spec fn encodes_create_message_result(r: CreateMessageResult, j: Json) -> bool {
    let n = 2 + (if r.model is Some { 1int } else { 0int });
    let m = n + (if r.stop_reason is Some { 1int } else { 0int });
    &&& member_count(j) == m + (if r.metadata is Some { 1int } else { 0int })
    &&& entry(j, 0, "role"@, Json::Str(r.role))
    &&& entry_at(j, 1) matches Some(e) && e.0@ == "content"@ && encodes_message_content(r.content, e.1)
    &&& (r.model matches Some(x) ==> entry(j, 2, "model"@, Json::Str(x)))
    &&& (r.stop_reason matches Some(x) ==> entry(j, n, "stopReason"@, Json::Str(x)))
    &&& (r.metadata matches Some(x) ==> entry(j, m, "metadata"@, x))
}

impl MessageContent {
    pub fn into_json(self) -> (r: Json)
        ensures
            encodes_message_content(self, r),
    {
        let mut es: Vec<(String, Json)> = Vec::new();
        match self {
            MessageContent::Text { text } => {
                push_member(&mut es, "type", Json::from_str("text"));
                push_member(&mut es, "text", Json::Str(text));
            },
            MessageContent::Image { data, mime_type } => {
                push_member(&mut es, "type", Json::from_str("image"));
                push_member(&mut es, "data", Json::Str(data));
                push_member(&mut es, "mimeType", Json::Str(mime_type));
            },
        }
        Json::Object(es)
    }
}

impl CreateMessageResult {
    /// The wire form of this result.
    pub fn into_json(self) -> (r: Json)
        ensures
            encodes_create_message_result(self, r),
    {
        let mut es: Vec<(String, Json)> = Vec::new();
        push_member(&mut es, "role", Json::Str(self.role));
        push_member(&mut es, "content", self.content.into_json());
        match self.model {
            Some(x) => push_member(&mut es, "model", Json::Str(x)),
            None => {},
        }
        match self.stop_reason {
            Some(x) => push_member(&mut es, "stopReason", Json::Str(x)),
            None => {},
        }
        match self.metadata {
            Some(x) => push_member(&mut es, "metadata", x),
            None => {},
        }
        Json::Object(es)
    }
}

} // verus!
