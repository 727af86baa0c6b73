use vstd::prelude::*;

use crate::json::{
    field, member, opt_field, push_member, take_member, take_opt_member, Json,
};

verus! {

/// The error member of a response.
pub struct JsonRpcError {
    pub code: i32,
    pub message: String,
    pub data: Option<Json>,
}

/// A JSON-RPC 2.0 envelope.
pub enum JsonRpcMessage {
    Request { jsonrpc: String, id: Json, method: String, params: Option<Json> },
    Response { jsonrpc: String, id: Json, result: Option<Json>, error: Option<JsonRpcError> },
    Notification { jsonrpc: String, method: String, params: Option<Json> },
}

/// A frame that is not a message; `id` is the request id when one could be read.
pub struct FrameError {
    pub id: Option<Json>,
}

pub open spec fn version_text() -> Seq<char> {
    "2.0"@
}

/// `j` is the object written for error `e`: code, message, then data when present.
pub open spec fn encodes_error(e: JsonRpcError, j: Json) -> bool {
    match j {
        Json::Object(es) => {
            &&& es@.len() == if e.data is Some { 3int } else { 2int }
            &&& es@[0].0@ == "code"@ && es@[0].1 == Json::Int(e.code as i64)
            &&& es@[1].0@ == "message"@ && es@[1].1 == Json::Str(e.message)
            &&& (e.data matches Some(d) ==> es@[2].0@ == "data"@ && es@[2].1 == d)
        },
        _ => false,
    }
}

/// `j` is the object written for `m`: absent optional members are left out, and a response
/// carries `result` when it has one and `error` otherwise, never both.
pub open spec fn encodes(m: JsonRpcMessage, j: Json) -> bool {
    match j {
        Json::Object(es) => {
            let s = es@;
            match m {
                JsonRpcMessage::Request { jsonrpc, id, method, params } => {
                    &&& s.len() == if params is Some { 4int } else { 3int }
                    &&& s[0].0@ == "jsonrpc"@ && s[0].1 == Json::Str(jsonrpc)
                    &&& s[1].0@ == "id"@ && s[1].1 == id
                    &&& s[2].0@ == "method"@ && s[2].1 == Json::Str(method)
                    &&& (params matches Some(p) ==> s[3].0@ == "params"@ && s[3].1 == p)
                },
                JsonRpcMessage::Response { jsonrpc, id, result, error } => {
                    &&& s.len() == if result is Some || error is Some { 3int } else { 2int }
                    &&& s[0].0@ == "jsonrpc"@ && s[0].1 == Json::Str(jsonrpc)
                    &&& s[1].0@ == "id"@ && s[1].1 == id
                    &&& (result matches Some(r) ==> s[2].0@ == "result"@ && s[2].1 == r)
                    &&& (result is None && error is Some ==> s[2].0@ == "error"@ && encodes_error(
                        error->Some_0,
                        s[2].1,
                    ))
                },
                JsonRpcMessage::Notification { jsonrpc, method, params } => {
                    &&& s.len() == if params is Some { 3int } else { 2int }
                    &&& s[0].0@ == "jsonrpc"@ && s[0].1 == Json::Str(jsonrpc)
                    &&& s[1].0@ == "method"@ && s[1].1 == Json::Str(method)
                    &&& (params matches Some(p) ==> s[2].0@ == "params"@ && s[2].1 == p)
                },
            }
        },
        _ => false,
    }
}

/// The error object read from `j`: an integer code within 32 bits and a string message.
pub open spec fn decode_error(j: Json) -> Option<JsonRpcError> {
    match (field(j, "code"@), field(j, "message"@)) {
        (Some(Json::Int(c)), Some(Json::Str(msg))) => {
            if i32::MIN <= c <= i32::MAX {
                Some(JsonRpcError { code: c as i32, message: msg, data: opt_field(j, "data"@) })
            } else {
                None
            }
        },
        _ => None,
    }
}

/// The message read from `j`.
///
/// The envelope must carry `jsonrpc: "2.0"`. With an id and no method it is a response, which
/// must hold exactly one of `result` and `error`; with an id and a string method it is a
/// request; with a string method and no id it is a notification. A member set to `null`
/// counts as absent. Anything else is refused, with the id when there is one.
pub open spec fn decode(j: Json) -> Result<JsonRpcMessage, FrameError> {
    let id = opt_field(j, "id"@);
    match field(j, "jsonrpc"@) {
        Some(Json::Str(v)) if v@ == version_text() => {
            match (id, field(j, "method"@)) {
                (Some(i), None) => {
                    let result = opt_field(j, "result"@);
                    let error = opt_field(j, "error"@);
                    if result is Some && error is None {
                        Ok(JsonRpcMessage::Response { jsonrpc: v, id: i, result, error: None })
                    } else if result is None && error is Some {
                        match decode_error(error->Some_0) {
                            Some(e) => Ok(
                                JsonRpcMessage::Response {
                                    jsonrpc: v,
                                    id: i,
                                    result: None,
                                    error: Some(e),
                                },
                            ),
                            None => Err(FrameError { id: Some(i) }),
                        }
                    } else {
                        Err(FrameError { id: Some(i) })
                    }
                },
                (Some(i), Some(Json::Str(m))) => Ok(
                    JsonRpcMessage::Request {
                        jsonrpc: v,
                        id: i,
                        method: m,
                        params: opt_field(j, "params"@),
                    },
                ),
                (None, Some(Json::Str(m))) => Ok(
                    JsonRpcMessage::Notification {
                        jsonrpc: v,
                        method: m,
                        params: opt_field(j, "params"@),
                    },
                ),
                _ => Err(FrameError { id }),
            }
        },
        _ => Err(FrameError { id }),
    }
}

/// A message that the wire can carry unchanged: version "2.0", a non-null id, no optional
/// member set to `null`, and a response with exactly one of result and error.
pub open spec fn well_formed(m: JsonRpcMessage) -> bool {
    match m {
        JsonRpcMessage::Request { jsonrpc, id, params, .. } => {
            &&& jsonrpc@ == version_text()
            &&& !(id is Null)
            &&& !(params matches Some(Json::Null))
        },
        JsonRpcMessage::Response { jsonrpc, id, result, error } => {
            &&& jsonrpc@ == version_text()
            &&& !(id is Null)
            &&& (result is Some) != (error is Some)
            &&& !(result matches Some(Json::Null))
            &&& (error matches Some(e) ==> !(e.data matches Some(Json::Null)))
        },
        JsonRpcMessage::Notification { jsonrpc, params, .. } => {
            &&& jsonrpc@ == version_text()
            &&& !(params matches Some(Json::Null))
        },
    }
}

proof fn lemma_member_at(s: Seq<(String, Json)>, i: int, k: Seq<char>)
    requires
        0 <= i < s.len(),
        s[i].0@ == k,
        forall|j: int| 0 <= j < i ==> s[j].0@ != k,
    ensures
        member(s, k) == Some(s[i].1),
    decreases i,
{
    if i > 0 {
        lemma_member_at(s.drop_first(), i - 1, k);
    }
}

proof fn lemma_member_absent(s: Seq<(String, Json)>, k: Seq<char>)
    requires
        forall|j: int| 0 <= j < s.len() ==> s[j].0@ != k,
    ensures
        member(s, k) is None,
    decreases s.len(),
{
    if s.len() > 0 {
        lemma_member_absent(s.drop_first(), k);
    }
}

proof fn reveal_member_names()
    ensures
        "jsonrpc"@ =~= seq!['j', 's', 'o', 'n', 'r', 'p', 'c'],
        "id"@ =~= seq!['i', 'd'],
        "method"@ =~= seq!['m', 'e', 't', 'h', 'o', 'd'],
        "params"@ =~= seq!['p', 'a', 'r', 'a', 'm', 's'],
        "result"@ =~= seq!['r', 'e', 's', 'u', 'l', 't'],
        "error"@ =~= seq!['e', 'r', 'r', 'o', 'r'],
        "code"@ =~= seq!['c', 'o', 'd', 'e'],
        "message"@ =~= seq!['m', 'e', 's', 's', 'a', 'g', 'e'],
        "data"@ =~= seq!['d', 'a', 't', 'a'],
{
    reveal_strlit("jsonrpc");
    reveal_strlit("id");
    reveal_strlit("method");
    reveal_strlit("params");
    reveal_strlit("result");
    reveal_strlit("error");
    reveal_strlit("code");
    reveal_strlit("message");
    reveal_strlit("data");
}

proof fn lemma_member_names_distinct()
    ensures
        "jsonrpc"@ != "id"@,
        "jsonrpc"@ != "method"@,
        "jsonrpc"@ != "params"@,
        "jsonrpc"@ != "result"@,
        "jsonrpc"@ != "error"@,
        "id"@ != "method"@,
        "id"@ != "params"@,
        "id"@ != "result"@,
        "id"@ != "error"@,
        "method"@ != "params"@,
        "method"@ != "result"@,
        "method"@ != "error"@,
        "params"@ != "result"@,
        "params"@ != "error"@,
        "result"@ != "error"@,
        "code"@ != "message"@,
        "code"@ != "data"@,
        "message"@ != "data"@,
{
    reveal_member_names();
    assert("jsonrpc"@[0] != "id"@[0]);
    assert("jsonrpc"@[0] != "method"@[0]);
    assert("jsonrpc"@[0] != "params"@[0]);
    assert("jsonrpc"@[0] != "result"@[0]);
    assert("jsonrpc"@[0] != "error"@[0]);
    assert("id"@[0] != "method"@[0]);
    assert("id"@[0] != "params"@[0]);
    assert("id"@[0] != "result"@[0]);
    assert("id"@[0] != "error"@[0]);
    assert("method"@[0] != "params"@[0]);
    assert("method"@[0] != "result"@[0]);
    assert("method"@[0] != "error"@[0]);
    assert("params"@[0] != "result"@[0]);
    assert("params"@[0] != "error"@[0]);
    assert("result"@[0] != "error"@[0]);
    assert("code"@[0] != "message"@[0]);
    assert("code"@[0] != "data"@[0]);
    assert("message"@[0] != "data"@[0]);
}

/// Decoding the encoding of a well-formed message gives the message back.
pub proof fn lemma_decode_encode(m: JsonRpcMessage, j: Json)
    requires
        well_formed(m),
        encodes(m, j),
    ensures
        decode(j) == Ok::<JsonRpcMessage, FrameError>(m),
{
    lemma_member_names_distinct();
    let s = j->Object_0@;
    lemma_member_at(s, 0, "jsonrpc"@);
    match m {
        JsonRpcMessage::Request { params, .. } => {
            lemma_member_at(s, 1, "id"@);
            lemma_member_at(s, 2, "method"@);
            if params is Some {
                lemma_member_at(s, 3, "params"@);
            } else {
                lemma_member_absent(s, "params"@);
            }
        },
        JsonRpcMessage::Response { result, error, .. } => {
            lemma_member_at(s, 1, "id"@);
            lemma_member_absent(s, "method"@);
            if result is Some {
                lemma_member_at(s, 2, "result"@);
                lemma_member_absent(s, "error"@);
            } else {
                lemma_member_absent(s, "result"@);
                lemma_member_at(s, 2, "error"@);
                let e = error->Some_0;
                let es = s[2].1->Object_0@;
                lemma_member_at(es, 0, "code"@);
                lemma_member_at(es, 1, "message"@);
                if e.data is Some {
                    lemma_member_at(es, 2, "data"@);
                } else {
                    lemma_member_absent(es, "data"@);
                }
            }
        },
        JsonRpcMessage::Notification { params, .. } => {
            lemma_member_absent(s, "id"@);
            lemma_member_at(s, 1, "method"@);
            if params is Some {
                lemma_member_at(s, 2, "params"@);
            } else {
                lemma_member_absent(s, "params"@);
            }
        },
    }
}

impl JsonRpcError {
    /// The error object written on the wire.
    pub fn into_json(self) -> (r: Json)
        ensures
            encodes_error(self, r),
    {
        let mut es: Vec<(String, Json)> = Vec::new();
        push_member(&mut es, "code", Json::Int(self.code as i64));
        push_member(&mut es, "message", Json::Str(self.message));
        match self.data {
            Some(d) => push_member(&mut es, "data", d),
            None => {},
        }
        proof {
            reveal_strlit("code");
        }
        Json::Object(es)
    }

    /// The error read from a decoded object.
    pub fn from_json(j: Json) -> (r: Option<JsonRpcError>)
        ensures
            r == decode_error(j),
    {
        proof {
            lemma_member_names_distinct();
        }
        match j {
            Json::Object(mut es) => {
                let code = take_member(&mut es, "code");
                let message = take_member(&mut es, "message");
                let data = take_opt_member(&mut es, "data");
                match (code, message) {
                    (Some(Json::Int(c)), Some(Json::Str(msg))) => {
                        if i32::MIN as i64 <= c && c <= i32::MAX as i64 {
                            Some(JsonRpcError { code: c as i32, message: msg, data })
                        } else {
                            None
                        }
                    },
                    _ => None,
                }
            },
            _ => None,
        }
    }
}

impl JsonRpcMessage {
    /// A request.
    pub fn request(id: Json, method: &str, params: Option<Json>) -> (r: Self)
        ensures
            r matches JsonRpcMessage::Request { jsonrpc, id: i, method: m, params: p } && jsonrpc@
                == version_text() && i == id && m@ == method@ && p == params,
    {
        proof {
            reveal_strlit("2.0");
        }
        JsonRpcMessage::Request { jsonrpc: "2.0".to_owned(), id, method: method.to_owned(), params }
    }

    /// A successful response.
    pub fn response(id: Json, result: Json) -> (r: Self)
        ensures
            r matches JsonRpcMessage::Response { jsonrpc, id: i, result: res, error: e } && jsonrpc@
                == version_text() && i == id && res == Some(result) && e is None,
    {
        proof {
            reveal_strlit("2.0");
        }
        JsonRpcMessage::Response {
            jsonrpc: "2.0".to_owned(),
            id,
            result: Some(result),
            error: None,
        }
    }

    /// An error response.
    pub fn error(id: Json, code: i32, message: &str, data: Option<Json>) -> (r: Self)
        ensures
            r matches JsonRpcMessage::Response { jsonrpc, id: i, result: res, error: Some(e) }
                && jsonrpc@ == version_text() && i == id && res is None && e.code == code
                && e.message@ == message@ && e.data == data,
    {
        proof {
            reveal_strlit("2.0");
        }
        JsonRpcMessage::Response {
            jsonrpc: "2.0".to_owned(),
            id,
            result: None,
            error: Some(JsonRpcError { code, message: message.to_owned(), data }),
        }
    }

    /// A notification.
    pub fn notification(method: &str, params: Option<Json>) -> (r: Self)
        ensures
            r matches JsonRpcMessage::Notification { jsonrpc, method: m, params: p } && jsonrpc@
                == version_text() && m@ == method@ && p == params,
    {
        proof {
            reveal_strlit("2.0");
        }
        JsonRpcMessage::Notification { jsonrpc: "2.0".to_owned(), method: method.to_owned(), params }
    }

    /// The object written on the wire for this message.
    pub fn into_json(self) -> (r: Json)
        ensures
            encodes(self, r),
    {
        let mut es: Vec<(String, Json)> = Vec::new();
        match self {
            JsonRpcMessage::Request { jsonrpc, id, method, params } => {
                push_member(&mut es, "jsonrpc", Json::Str(jsonrpc));
                push_member(&mut es, "id", id);
                push_member(&mut es, "method", Json::Str(method));
                match params {
                    Some(p) => push_member(&mut es, "params", p),
                    None => {},
                }
            },
            JsonRpcMessage::Response { jsonrpc, id, result, error } => {
                push_member(&mut es, "jsonrpc", Json::Str(jsonrpc));
                push_member(&mut es, "id", id);
                match result {
                    Some(r) => push_member(&mut es, "result", r),
                    None => match error {
                        Some(e) => push_member(&mut es, "error", e.into_json()),
                        None => {},
                    },
                }
            },
            JsonRpcMessage::Notification { jsonrpc, method, params } => {
                push_member(&mut es, "jsonrpc", Json::Str(jsonrpc));
                push_member(&mut es, "method", Json::Str(method));
                match params {
                    Some(p) => push_member(&mut es, "params", p),
                    None => {},
                }
            },
        }
        Json::Object(es)
    }

    /// The message carried by a decoded frame.
    pub fn from_json(j: Json) -> (r: Result<JsonRpcMessage, FrameError>)
        ensures
            r == decode(j),
    {
        proof {
            lemma_member_names_distinct();
        }
        match j {
            Json::Object(mut es) => {
                let id = take_opt_member(&mut es, "id");
                let version = take_member(&mut es, "jsonrpc");
                let v = match version {
                    Some(Json::Str(v)) => v,
                    _ => return Err(FrameError { id }),
                };
                if !crate::text::str_eq(v.as_str(), "2.0") {
                    proof {
                        reveal_strlit("2.0");
                    }
                    return Err(FrameError { id });
                }
                proof {
                    reveal_strlit("2.0");
                }
                let method = take_member(&mut es, "method");
                match (id, method) {
                    (Some(i), None) => {
                        let result = take_opt_member(&mut es, "result");
                        let error = take_opt_member(&mut es, "error");
                        match (result, error) {
                            (Some(r), None) => Ok(
                                JsonRpcMessage::Response {
                                    jsonrpc: v,
                                    id: i,
                                    result: Some(r),
                                    error: None,
                                },
                            ),
                            (None, Some(e)) => match JsonRpcError::from_json(e) {
                                Some(e) => Ok(
                                    JsonRpcMessage::Response {
                                        jsonrpc: v,
                                        id: i,
                                        result: None,
                                        error: Some(e),
                                    },
                                ),
                                None => Err(FrameError { id: Some(i) }),
                            },
                            _ => Err(FrameError { id: Some(i) }),
                        }
                    },
                    (Some(i), Some(Json::Str(m))) => {
                        let params = take_opt_member(&mut es, "params");
                        Ok(JsonRpcMessage::Request { jsonrpc: v, id: i, method: m, params })
                    },
                    (None, Some(Json::Str(m))) => {
                        let params = take_opt_member(&mut es, "params");
                        Ok(JsonRpcMessage::Notification { jsonrpc: v, method: m, params })
                    },
                    (id, _) => Err(FrameError { id }),
                }
            },
            _ => Err(FrameError { id: None }),
        }
    }
}

} // verus!

verus! {

/// `m` is an error response to `id` with `code`.
pub open spec fn is_error_response(m: JsonRpcMessage, id: Json, code: i32) -> bool {
    match m {
        JsonRpcMessage::Response { id: i, result: None, error: Some(e), .. } => i == id && e.code
            == code,
        _ => false,
    }
}

/// The result of `m` when it is a successful response to `id`.
pub open spec fn success_result(m: JsonRpcMessage, id: Json) -> Option<Json> {
    match m {
        JsonRpcMessage::Response { id: i, result: Some(res), error: None, .. } => if i == id {
            Some(res)
        } else {
            None
        },
        _ => None,
    }
}

/// The message of `m` when it is an error response.
pub open spec fn error_message(m: JsonRpcMessage) -> Option<Seq<char>> {
    match m {
        JsonRpcMessage::Response { error: Some(e), .. } => Some(e.message@),
        _ => None,
    }
}

/// The data of `m` when it is an error response.
pub open spec fn error_data(m: JsonRpcMessage) -> Option<Json> {
    match m {
        JsonRpcMessage::Response { error: Some(e), .. } => e.data,
        _ => None,
    }
}

/// `m` is the notification `method` with parameters `params`.
pub open spec fn is_notification(m: JsonRpcMessage, method: Seq<char>, params: Option<Json>) -> bool {
    match m {
        JsonRpcMessage::Notification { jsonrpc, method: x, params: p } => jsonrpc@ == version_text()
            && x@ == method && p == params,
        _ => false,
    }
}

impl FrameError {
    /// The answer to a frame that is not a message: a parse error tied to its id when the
    /// id could be read, otherwise nothing (the frame is only logged).
    pub fn reply(self) -> (r: Option<JsonRpcMessage>)
        ensures
            self.id is None ==> r is None,
            self.id matches Some(i) ==> (r matches Some(m) && is_error_response(
                m,
                i,
                crate::constants::PARSE_ERROR,
            )),
    {
        match self.id {
            Some(i) => Some(JsonRpcMessage::error(i, crate::constants::PARSE_ERROR, "Parse error", None)),
            None => None,
        }
    }
}

} // verus!
